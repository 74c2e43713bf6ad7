//! What the uinput emitter types, as a plan of key operations: the
//! backspace burst, the scancode replay, letting held modifiers go, and
//! the `Ctrl+Shift+U <hex> Space` Unicode compose fallback.
//!
//! Writing the events to the virtual device and sleeping between them
//! is the caller's part; the plans say which events, in which order,
//! with which pauses.

use vstd::prelude::*;

use crate::engine_types::{Modifiers, ReplayKey};

verus! {

/// Linux input event codes the plans use.
pub const KEY_BACKSPACE: u16 = 14;
pub const KEY_U: u16 = 22;
pub const KEY_LEFTCTRL: u16 = 29;
pub const KEY_RIGHTCTRL: u16 = 97;
pub const KEY_LEFTSHIFT: u16 = 42;
pub const KEY_RIGHTSHIFT: u16 = 54;
pub const KEY_LEFTALT: u16 = 56;
pub const KEY_RIGHTALT: u16 = 100;
pub const KEY_LEFTMETA: u16 = 125;
pub const KEY_RIGHTMETA: u16 = 126;
pub const KEY_SPACE: u16 = 57;

/// Pause between two events of a burst, in milliseconds.
pub const STEP_MS: u64 = 4;

/// How long the last key of a replay is held: the boundary key
/// (Space, punctuation) is what most apps react to.
pub const LAST_HOLD_MS: u64 = 20;

/// Pause around the last key of a replay, so it is not coalesced with
/// the key before it.
pub const BOUNDARY_GUARD_MS: u64 = 12;

/// One operation on the virtual keyboard.
#[derive(Debug, Clone, Copy, PartialEq, Eq)]
pub enum KeyOp {
    /// Press the key with this event code.
    Down(u16),
    /// Release it.
    Up(u16),
    /// Press and release it.
    Tap(u16),
    /// Pause this many milliseconds.
    Wait(u64),
}

/// One backspace: press, pause, release, pause.
pub open spec fn backspace_ops() -> Seq<KeyOp> {
    seq![
        KeyOp::Down(KEY_BACKSPACE),
        KeyOp::Wait(STEP_MS),
        KeyOp::Up(KEY_BACKSPACE),
        KeyOp::Wait(STEP_MS),
    ]
}

pub open spec fn backspaces_ops(n: nat) -> Seq<KeyOp>
    decreases n,
{
    if n == 0 {
        seq![]
    } else {
        backspaces_ops((n - 1) as nat) + backspace_ops()
    }
}

/// `n` backspaces, one after another.
pub fn backspace_plan(n: usize) -> (r: Vec<KeyOp>)
    ensures
        r@ == backspaces_ops(n as nat),
{
    let mut out: Vec<KeyOp> = Vec::new();
    let mut i: usize = 0;
    while i < n
        invariant
            0 <= i <= n,
            out@ == backspaces_ops(i as nat),
        decreases n - i,
    {
        out.push(KeyOp::Down(KEY_BACKSPACE));
        out.push(KeyOp::Wait(STEP_MS));
        out.push(KeyOp::Up(KEY_BACKSPACE));
        out.push(KeyOp::Wait(STEP_MS));
        i += 1;
        assert(out@ =~= backspaces_ops(i as nat));
    }
    out
}

/// The operations for one replayed key. Shifted keys are wrapped in a
/// left Shift. The last key of a replay gets a defensive release first
/// (an auto-repeated press may still be down), a longer hold and guard
/// pauses on both sides.
pub open spec fn replay_key_ops(rk: ReplayKey, last: bool) -> Seq<KeyOp> {
    let kc = rk.scancode as u16;
    (if rk.shift {
        seq![KeyOp::Down(KEY_LEFTSHIFT), KeyOp::Wait(STEP_MS)]
    } else {
        seq![]
    }) + (if last {
        seq![KeyOp::Up(kc), KeyOp::Wait(BOUNDARY_GUARD_MS)]
    } else {
        seq![]
    }) + seq![
        KeyOp::Down(kc),
        KeyOp::Wait(if last { LAST_HOLD_MS } else { STEP_MS }),
        KeyOp::Up(kc),
        KeyOp::Wait(if last { BOUNDARY_GUARD_MS } else { STEP_MS }),
    ] + (if rk.shift {
        seq![KeyOp::Up(KEY_LEFTSHIFT), KeyOp::Wait(STEP_MS)]
    } else {
        seq![]
    })
}

/// The operations for the first `i` keys of a replay of `keys`.
pub open spec fn replay_ops(keys: Seq<ReplayKey>, i: int) -> Seq<KeyOp>
    decreases i,
{
    if i <= 0 {
        seq![]
    } else {
        replay_ops(keys, i - 1) + replay_key_ops(keys[i - 1], i - 1 == keys.len() - 1)
    }
}

fn push_all(out: &mut Vec<KeyOp>, ops: &[KeyOp])
    ensures
        final(out)@ == old(out)@ + ops@,
{
    let ghost start = out@;
    let mut k: usize = 0;
    while k < ops.len()
        invariant
            0 <= k <= ops.len(),
            out@ == start + ops@.take(k as int),
        decreases ops.len() - k,
    {
        out.push(ops[k]);
        k += 1;
        assert(out@ =~= start + ops@.take(k as int));
    }
    assert(ops@.take(ops.len() as int) =~= ops@);
}

/// Replay raw scancodes against whatever layout the OS is in now.
pub fn replay_plan(keys: &Vec<ReplayKey>) -> (r: Vec<KeyOp>)
    ensures
        r@ == replay_ops(keys@, keys@.len() as int),
{
    let mut out: Vec<KeyOp> = Vec::new();
    let n = keys.len();
    let mut i: usize = 0;
    while i < n
        invariant
            n == keys.len(),
            0 <= i <= n,
            out@ == replay_ops(keys@, i as int),
        decreases n - i,
    {
        let rk = keys[i];
        let kc = rk.scancode as u16;
        let last = i == n - 1;
        let ghost before = out@;
        if rk.shift {
            push_all(&mut out, &[KeyOp::Down(KEY_LEFTSHIFT), KeyOp::Wait(STEP_MS)]);
        }
        let ghost a = out@;
        if last {
            push_all(&mut out, &[KeyOp::Up(kc), KeyOp::Wait(BOUNDARY_GUARD_MS)]);
        }
        let ghost b = out@;
        let hold = if last {
            LAST_HOLD_MS
        } else {
            STEP_MS
        };
        let guard = if last {
            BOUNDARY_GUARD_MS
        } else {
            STEP_MS
        };
        push_all(&mut out, &[KeyOp::Down(kc), KeyOp::Wait(hold), KeyOp::Up(kc), KeyOp::Wait(guard)]);
        let ghost c = out@;
        if rk.shift {
            push_all(&mut out, &[KeyOp::Up(KEY_LEFTSHIFT), KeyOp::Wait(STEP_MS)]);
        }
        assert(out@ =~= before + replay_key_ops(rk, last));
        i += 1;
    }
    out
}

/// The event codes of the modifiers held: both sides of each, Ctrl,
/// Shift, Alt, Meta in that order.
pub open spec fn held_codes(m: Modifiers) -> Seq<u16> {
    (if m.control {
        seq![KEY_LEFTCTRL, KEY_RIGHTCTRL]
    } else {
        seq![]
    }) + (if m.shift {
        seq![KEY_LEFTSHIFT, KEY_RIGHTSHIFT]
    } else {
        seq![]
    }) + (if m.alt {
        seq![KEY_LEFTALT, KEY_RIGHTALT]
    } else {
        seq![]
    }) + (if m.meta {
        seq![KEY_LEFTMETA, KEY_RIGHTMETA]
    } else {
        seq![]
    })
}

pub open spec fn release_ops(codes: Seq<u16>) -> Seq<KeyOp>
    decreases codes.len(),
{
    if codes.len() == 0 {
        seq![]
    } else {
        release_ops(codes.drop_last()) + seq![KeyOp::Up(codes.last()), KeyOp::Wait(STEP_MS)]
    }
}

/// Release the modifiers the user is physically holding before typing:
/// a held Ctrl would turn the replay into shortcuts. They are not
/// pressed back afterwards.
pub fn release_plan(held: Modifiers) -> (r: Vec<KeyOp>)
    ensures
        r@ == release_ops(held_codes(held)),
{
    let mut codes: Vec<u16> = Vec::new();
    if held.control {
        codes.push(KEY_LEFTCTRL);
        codes.push(KEY_RIGHTCTRL);
    }
    if held.shift {
        codes.push(KEY_LEFTSHIFT);
        codes.push(KEY_RIGHTSHIFT);
    }
    if held.alt {
        codes.push(KEY_LEFTALT);
        codes.push(KEY_RIGHTALT);
    }
    if held.meta {
        codes.push(KEY_LEFTMETA);
        codes.push(KEY_RIGHTMETA);
    }
    assert(codes@ =~= held_codes(held));
    let mut out: Vec<KeyOp> = Vec::new();
    let mut i: usize = 0;
    while i < codes.len()
        invariant
            0 <= i <= codes.len(),
            out@ == release_ops(codes@.take(i as int)),
        decreases codes.len() - i,
    {
        out.push(KeyOp::Up(codes[i]));
        out.push(KeyOp::Wait(STEP_MS));
        i += 1;
        assert(codes@.take(i as int).drop_last() =~= codes@.take(i as int - 1));
        assert(out@ =~= release_ops(codes@.take(i as int)));
    }
    assert(codes@.take(codes.len() as int) =~= codes@);
    out
}

/// The key that types a hex digit.
pub open spec fn hex_key(d: nat) -> u16 {
    if d == 0 {
        11
    } else if d < 10 {
        (d + 1) as u16
    } else if d == 10 {
        30
    } else if d == 11 {
        48
    } else if d == 12 {
        46
    } else if d == 13 {
        32
    } else if d == 14 {
        18
    } else {
        33
    }
}

/// The hex digits of `n`, most significant first and without leading
/// zeros (as `format!("{n:x}")` writes them), as the keys that type
/// them.
pub open spec fn hex_keys(n: nat) -> Seq<u16>
    decreases n,
{
    if n < 16 {
        seq![hex_key(n)]
    } else {
        hex_keys(n / 16).push(hex_key(n % 16))
    }
}

fn hex_key_of(d: u32) -> (r: u16)
    requires
        d < 16,
    ensures
        r == hex_key(d as nat),
{
    if d == 0 {
        11
    } else if d < 10 {
        (d + 1) as u16
    } else if d == 10 {
        30
    } else if d == 11 {
        48
    } else if d == 12 {
        46
    } else if d == 13 {
        32
    } else if d == 14 {
        18
    } else {
        33
    }
}

fn hex_key_codes(n: u32) -> (r: Vec<u16>)
    ensures
        r@ == hex_keys(n as nat),
    decreases n,
{
    if n < 16 {
        vec![hex_key_of(n)]
    } else {
        let mut v = hex_key_codes(n / 16);
        v.push(hex_key_of(n % 16));
        v
    }
}

/// `Ctrl+Shift+U`, the code point in hex, `Space`: the GTK/IBus
/// Unicode compose sequence for one character.
pub open spec fn compose_char_ops(c: char) -> Seq<KeyOp> {
    seq![
        KeyOp::Down(KEY_LEFTCTRL),
        KeyOp::Down(KEY_LEFTSHIFT),
        KeyOp::Tap(KEY_U),
        KeyOp::Up(KEY_LEFTSHIFT),
        KeyOp::Up(KEY_LEFTCTRL),
    ] + hex_keys((c as u32) as nat).map_values(|k: u16| KeyOp::Tap(k)) + seq![KeyOp::Tap(KEY_SPACE)]
}

pub open spec fn compose_ops(text: Seq<char>) -> Seq<KeyOp>
    decreases text.len(),
{
    if text.len() == 0 {
        seq![]
    } else {
        compose_ops(text.drop_last()) + compose_char_ops(text.last())
    }
}

/// Type `text` as Unicode compose sequences, one per character.
pub fn compose_plan(text: &str) -> (r: Vec<KeyOp>)
    ensures
        r@ == compose_ops(text@),
{
    let chars = crate::text::chars_of(text);
    let mut out: Vec<KeyOp> = Vec::new();
    let mut i: usize = 0;
    while i < chars.len()
        invariant
            0 <= i <= chars.len(),
            chars@ == text@,
            out@ == compose_ops(chars@.take(i as int)),
        decreases chars.len() - i,
    {
        let c = chars[i];
        let ghost before = out@;
        push_all(
            &mut out,
            &[
                KeyOp::Down(KEY_LEFTCTRL),
                KeyOp::Down(KEY_LEFTSHIFT),
                KeyOp::Tap(KEY_U),
                KeyOp::Up(KEY_LEFTSHIFT),
                KeyOp::Up(KEY_LEFTCTRL),
            ],
        );
        let ghost mid = out@;
        let codes = hex_key_codes(c as u32);
        let mut k: usize = 0;
        while k < codes.len()
            invariant
                0 <= k <= codes.len(),
                out@ == mid + codes@.take(k as int).map_values(|x: u16| KeyOp::Tap(x)),
            decreases codes.len() - k,
        {
            out.push(KeyOp::Tap(codes[k]));
            k += 1;
            assert(out@ =~= mid + codes@.take(k as int).map_values(|x: u16| KeyOp::Tap(x)));
        }
        assert(codes@.take(codes.len() as int) =~= codes@);
        out.push(KeyOp::Tap(KEY_SPACE));
        i += 1;
        assert(chars@.take(i as int).drop_last() =~= chars@.take(i as int - 1));
        assert(out@ =~= before + compose_char_ops(c));
    }
    assert(chars@.take(chars.len() as int) =~= chars@);
    out
}

/// Letting modifiers go never presses anything: a modifier the user
/// has meanwhile released must not be left stuck down.
pub proof fn lemma_release_never_presses(codes: Seq<u16>)
    ensures
        forall|i: int|
            0 <= i < release_ops(codes).len() ==> (#[trigger] release_ops(codes)[i] is Up
                || release_ops(codes)[i] is Wait),
    decreases codes.len(),
{
    if codes.len() > 0 {
        lemma_release_never_presses(codes.drop_last());
        let a = release_ops(codes.drop_last());
        assert forall|i: int| 0 <= i < release_ops(codes).len() implies (#[trigger] release_ops(
            codes,
        )[i] is Up || release_ops(codes)[i] is Wait) by {
            if i < a.len() {
                assert(release_ops(codes)[i] == a[i]);
            }
        }
    }
}

/// The hex character an evdev key types on a US layout: `KEY_1`..`KEY_9`
/// are 2..10 and `KEY_0` is 11; `KEY_A`..`KEY_F` are 30, 48, 46, 32, 18
/// and 33 (`input-event-codes.h`).
pub open spec fn evdev_hex_char(code: u16) -> Option<char> {
    match code {
        2 => Some('1'),
        3 => Some('2'),
        4 => Some('3'),
        5 => Some('4'),
        6 => Some('5'),
        7 => Some('6'),
        8 => Some('7'),
        9 => Some('8'),
        10 => Some('9'),
        11 => Some('0'),
        30 => Some('a'),
        48 => Some('b'),
        46 => Some('c'),
        32 => Some('d'),
        18 => Some('e'),
        33 => Some('f'),
        _ => None,
    }
}

/// The lower-case hex digit for `d` (`0`..`9`, `a`..`f`).
pub open spec fn hex_digit_char(d: nat) -> char {
    if d == 0 {
        '0'
    } else if d == 1 {
        '1'
    } else if d == 2 {
        '2'
    } else if d == 3 {
        '3'
    } else if d == 4 {
        '4'
    } else if d == 5 {
        '5'
    } else if d == 6 {
        '6'
    } else if d == 7 {
        '7'
    } else if d == 8 {
        '8'
    } else if d == 9 {
        '9'
    } else if d == 10 {
        'a'
    } else if d == 11 {
        'b'
    } else if d == 12 {
        'c'
    } else if d == 13 {
        'd'
    } else if d == 14 {
        'e'
    } else {
        'f'
    }
}

/// `n` in lower-case hex, as `format!("{n:x}")` writes it.
pub open spec fn lower_hex(n: nat) -> Seq<char>
    decreases n,
{
    if n < 16 {
        seq![hex_digit_char(n)]
    } else {
        lower_hex(n / 16).push(hex_digit_char(n % 16))
    }
}

/// The keys tapped for a code point type its lower-case hex text: each
/// key, read back as the character it types, spells `format!("{n:x}")`.
pub proof fn lemma_hex_keys_type_lower_hex(n: nat)
    ensures
        hex_keys(n).len() == lower_hex(n).len(),
        forall|i: int|
            0 <= i < hex_keys(n).len() ==> evdev_hex_char(#[trigger] hex_keys(n)[i]) == Some(
                lower_hex(n)[i],
            ),
    decreases n,
{
    if n >= 16 {
        lemma_hex_keys_type_lower_hex(n / 16);
        let d = n % 16;
        assert(evdev_hex_char(hex_key(d)) == Some(hex_digit_char(d)));
        assert forall|i: int| 0 <= i < hex_keys(n).len() implies evdev_hex_char(
            #[trigger] hex_keys(n)[i],
        ) == Some(lower_hex(n)[i]) by {
            if i < hex_keys(n).len() - 1 {
                assert(hex_keys(n)[i] == hex_keys(n / 16)[i]);
                assert(lower_hex(n)[i] == lower_hex(n / 16)[i]);
            }
        }
    } else {
        assert(evdev_hex_char(hex_key(n)) == Some(hex_digit_char(n)));
    }
}

/// One character's compose sequence: `Ctrl+Shift+U`, then taps that type
/// the character's code point in lower-case hex, then `Space`.
pub proof fn lemma_compose_types_code_point(c: char)
    ensures
        compose_char_ops(c).len() == lower_hex((c as u32) as nat).len() + 6,
        compose_char_ops(c).take(5) == seq![
            KeyOp::Down(29),
            KeyOp::Down(42),
            KeyOp::Tap(22),
            KeyOp::Up(42),
            KeyOp::Up(29),
        ],
        compose_char_ops(c).last() == KeyOp::Tap(57),
        forall|i: int|
            0 <= i < lower_hex((c as u32) as nat).len() ==> (#[trigger] compose_char_ops(c)[5 + i]
                matches KeyOp::Tap(k) && evdev_hex_char(k) == Some(lower_hex((c as u32) as nat)[i])),
{
    let n = (c as u32) as nat;
    lemma_hex_keys_type_lower_hex(n);
    let ops = compose_char_ops(c);
    assert(ops.take(5) =~= seq![
        KeyOp::Down(29),
        KeyOp::Down(42),
        KeyOp::Tap(22),
        KeyOp::Up(42),
        KeyOp::Up(29),
    ]);
    assert forall|i: int| 0 <= i < lower_hex(n).len() implies (#[trigger] ops[5 + i] matches KeyOp::Tap(
        k,
    ) && evdev_hex_char(k) == Some(lower_hex(n)[i])) by {
        assert(ops[5 + i] == KeyOp::Tap(hex_keys(n)[i]));
        assert(evdev_hex_char(hex_keys(n)[i]) == Some(lower_hex(n)[i]));
    }
}

} // verus!
