//! Plain data carried around by the engine: key events, hotkey chords,
//! the suggestion-accept modifiers and the correction-window drain
//! summary.

use vstd::prelude::*;

use crate::layout::LayoutId;
use crate::text::{
    ascii_lower, ascii_lower_chars, ascii_lower_seq, chars_of, is_word, split_chars, split_on, trim,
    trim_chars, views,
};

verus! {

/// Whether a key went down or up.
#[derive(Debug, Clone, Copy, PartialEq, Eq)]
pub enum KeyDirection {
    Press,
    Release,
}

/// Modifier keys held at the time of an event.
#[derive(Debug, Clone, Copy, PartialEq, Eq, Default)]
pub struct Modifiers {
    pub shift: bool,
    pub control: bool,
    pub alt: bool,
    pub meta: bool,
}

/// One raw key event from a listener.
#[derive(Debug, Clone, Copy, PartialEq, Eq)]
pub struct KeyEvent {
    /// The platform's virtual key code.
    pub vk: u32,
    /// Win SC Set-1 scancode, the layout-independent identifier.
    pub scancode: u32,
    pub direction: KeyDirection,
    pub modifiers: Modifiers,
    /// Synthesised by us (where the platform tags it).
    pub injected: bool,
    pub timestamp_ms: u64,
}

/// One key of a buffered word.
#[derive(Debug, Clone, Copy, PartialEq, Eq)]
pub struct WordKey {
    pub scancode: u32,
    pub shift: bool,
    pub timestamp_ms: u64,
}

/// One key to replay against the current layout.
#[derive(Debug, Clone, Copy, PartialEq, Eq)]
pub struct ReplayKey {
    pub scancode: u32,
    pub shift: bool,
}

/// A resolved hotkey chord matched against the raw key stream.
/// Modifier fields are matched exactly: extra held modifiers do not
/// match.
#[derive(Debug, Clone, Copy, PartialEq, Eq)]
pub struct Chord {
    pub ctrl: bool,
    pub shift: bool,
    pub alt: bool,
    pub meta: bool,
    pub scancode: u32,
}

/// The two engine hotkeys, resolved to key-stream chords. `None` means
/// "not bound on this backend".
#[derive(Debug, Clone, Copy, Default)]
pub struct KeystreamHotkeys {
    pub pause: Option<Chord>,
    pub switch_last: Option<Chord>,
}

/// Per-chord rising-edge tracking: latch on the first press and re-arm
/// on release — one fire per physical keypress.
#[derive(Default)]
pub struct ChordState {
    pub pause_key_down: bool,
    pub switch_key_down: bool,
    /// One latch per digit key 1..=9 for the suggestion-accept chord.
    pub suggest_digit_down: [bool; 9],
}

/// Modifier half of the suggestion-accept chord. Matched exactly, like
/// [`Chord`].
#[derive(Debug, Clone, Copy, PartialEq, Eq)]
pub struct AcceptModifiers {
    pub ctrl: bool,
    pub shift: bool,
    pub alt: bool,
    pub meta: bool,
}

/// What accepting a suggestion entry does.
#[derive(Debug, Clone, Copy, PartialEq, Eq)]
pub enum SuggestionAction {
    /// Replace the mistyped word with the entry's text.
    Replace,
    /// Add the mistyped word to the user's dictionary overlay.
    AddToDictionary,
}

/// One entry of a suggestion offer, as shown in the tooltip.
#[derive(Debug, Clone)]
pub struct SuggestionEntry {
    /// The replacement text, or for [`SuggestionAction::AddToDictionary`]
    /// the typed word itself.
    pub text: String,
    /// `Some(layout)` when applying this entry also switches layout.
    pub switch_to: Option<LayoutId>,
    pub action: SuggestionAction,
}

/// The previous fully-completed word, kept for the manual switch-last
/// hotkey.
#[derive(Debug, Clone)]
pub struct LastWord {
    pub keys: Vec<WordKey>,
    pub rendered: String,
    pub layout: LayoutId,
    /// The boundary character typed after the word; the corrector
    /// backspaces over it and re-emits a copy.
    pub boundary_char: char,
    /// Scancode and shift of that boundary key, for a faithful replay
    /// (Enter and Tab come back as Space).
    pub boundary_scancode: u32,
    pub boundary_shift: bool,
}

/// Result of one non-blocking sweep over the key channel during a
/// correction.
#[derive(Default)]
pub struct WindowDrain {
    /// Plain word-key presses, in arrival order.
    pub word_keys: Vec<KeyEvent>,
    /// First boundary press encountered (drain stops there).
    pub resume: Option<KeyEvent>,
    /// Backspace / nav / click / shortcut seen — screen state unclear.
    pub suspicious: bool,
    /// The press that set `suspicious`, when it can still be re-emitted.
    pub stopper: Option<KeyEvent>,
    /// Any non-echo user press seen at all.
    pub saw_user_press: bool,
}

/// The modifier flags as a tuple: ctrl, shift, alt, meta.
pub type ModsView = (bool, bool, bool, bool);

pub open spec fn mods_view(m: AcceptModifiers) -> ModsView {
    (m.ctrl, m.shift, m.alt, m.meta)
}

/// One `+`-separated token applied to the modifiers read so far
/// (`None` once a token was not a modifier name). Tokens are trimmed,
/// empty ones skipped, names compared ASCII-case-insensitively.
pub open spec fn modifier_step(st: Option<ModsView>, part: Seq<char>) -> Option<ModsView> {
    match st {
        None => None,
        Some((c, s, a, m)) => {
            let p = trim(part);
            let l = ascii_lower_seq(p);
            if p.len() == 0 {
                st
            } else if l == "ctrl"@ || l == "control"@ {
                Some((true, s, a, m))
            } else if l == "shift"@ {
                Some((c, true, a, m))
            } else if l == "alt"@ || l == "option"@ {
                Some((c, s, true, m))
            } else if l == "meta"@ || l == "super"@ || l == "cmd"@ || l == "win"@ {
                Some((c, s, a, true))
            } else {
                None
            }
        },
    }
}

pub open spec fn modifier_fold(parts: Seq<Seq<char>>) -> Option<ModsView>
    decreases parts.len(),
{
    if parts.len() == 0 {
        Some((false, false, false, false))
    } else {
        modifier_step(modifier_fold(parts.drop_last()), parts.last())
    }
}

/// `"Ctrl+Shift"`-style text as accept modifiers: every token a
/// modifier name, and at least one of Ctrl, Alt, Meta — bare digits,
/// or Shift+digit, must never trigger replacements.
pub open spec fn accept_modifiers_of(s: Seq<char>) -> Option<ModsView> {
    match modifier_fold(split_on(s, '+')) {
        Some((c, sh, a, m)) => if c || a || m {
            Some((c, sh, a, m))
        } else {
            None
        },
        None => None,
    }
}

impl AcceptModifiers {
    /// Parse `"Ctrl+Shift"`-style strings. `None` for empty or junk
    /// input (keyboard accept disabled), and for the modifier-less case.
    pub fn parse(s: &str) -> (r: Option<Self>)
        ensures
            match r {
                Some(m) => accept_modifiers_of(s@) == Some(mods_view(m)),
                None => accept_modifiers_of(s@) is None,
            },
    {
        let text = chars_of(s);
        let parts = split_chars(&text, '+');
        let mut m = AcceptModifiers { ctrl: false, shift: false, alt: false, meta: false };
        let n = parts.len();
        let mut i: usize = 0;
        while i < n
            invariant
                n == parts.len(),
                0 <= i <= n,
                views(parts@) == split_on(s@, '+'),
                modifier_fold(views(parts@).take(i as int)) == Some(mods_view(m)),
            decreases n - i,
        {
            let ghost ts = views(parts@).take(i as int + 1);
            assert(ts.drop_last() =~= views(parts@).take(i as int));
            assert(ts.last() == parts@[i as int]@);
            let p = trim_chars(&parts[i]);
            if p.len() > 0 {
                let l = ascii_lower_chars(&p);
                if is_word(&l, "ctrl") || is_word(&l, "control") {
                    m.ctrl = true;
                } else if is_word(&l, "shift") {
                    m.shift = true;
                } else if is_word(&l, "alt") || is_word(&l, "option") {
                    m.alt = true;
                } else if is_word(&l, "meta") || is_word(&l, "super") || is_word(&l, "cmd")
                    || is_word(&l, "win") {
                    m.meta = true;
                } else {
                    proof {
                        lemma_modifier_fold_stays_none(views(parts@), i as int + 1);
                        assert(views(parts@).take(n as int) =~= views(parts@));
                    }
                    return None;
                }
            }
            i += 1;
        }
        assert(views(parts@).take(n as int) =~= views(parts@));
        if m.ctrl || m.alt || m.meta {
            Some(m)
        } else {
            None
        }
    }
}

/// Once a token is rejected, the whole text is.
pub proof fn lemma_modifier_fold_stays_none(parts: Seq<Seq<char>>, k: int)
    requires
        0 <= k <= parts.len(),
        modifier_fold(parts.take(k)) is None,
    ensures
        modifier_fold(parts) is None,
    decreases parts.len() - k,
{
    if k < parts.len() {
        assert(parts.take(k + 1).drop_last() =~= parts.take(k));
        lemma_modifier_fold_stays_none(parts, k + 1);
    } else {
        assert(parts.take(k) =~= parts);
    }
}

/// Bare digits never accept a suggestion: a parsed accept chord always
/// holds Ctrl, Alt or Meta (Shift alone is `!` on most layouts).
pub proof fn lemma_accept_chord_has_command_modifier(s: Seq<char>)
    ensures
        accept_modifiers_of(s) matches Some((c, sh, a, m)) ==> c || a || m,
{
}

/// The four kinds of modifier an accept chord can name.
#[derive(Debug, Clone, Copy, PartialEq, Eq)]
pub enum ModifierGroup {
    Ctrl,
    Shift,
    Alt,
    Meta,
}

/// Whether a lower-case name belongs to a group: `ctrl`/`control`,
/// `shift`, `alt`/`option`, `meta`/`super`/`cmd`/`win`.
pub open spec fn names_group(l: Seq<char>, g: ModifierGroup) -> bool {
    match g {
        ModifierGroup::Ctrl => l == "ctrl"@ || l == "control"@,
        ModifierGroup::Shift => l == "shift"@,
        ModifierGroup::Alt => l == "alt"@ || l == "option"@,
        ModifierGroup::Meta => l == "meta"@ || l == "super"@ || l == "cmd"@ || l == "win"@,
    }
}

/// Whether a `+`-segment, trimmed and ignoring ASCII case, names a
/// modifier of group `g`.
pub open spec fn segment_names(p: Seq<char>, g: ModifierGroup) -> bool {
    trim(p).len() > 0 && names_group(ascii_lower_seq(trim(p)), g)
}

/// A segment the accept chord allows: blank once trimmed, or a modifier
/// name.
pub open spec fn segment_allowed(p: Seq<char>) -> bool {
    ||| trim(p).len() == 0
    ||| segment_names(p, ModifierGroup::Ctrl)
    ||| segment_names(p, ModifierGroup::Shift)
    ||| segment_names(p, ModifierGroup::Alt)
    ||| segment_names(p, ModifierGroup::Meta)
}

pub open spec fn all_segments_allowed(parts: Seq<Seq<char>>) -> bool {
    forall|i: int| 0 <= i < parts.len() ==> #[trigger] segment_allowed(parts[i])
}

/// Whether some segment names a modifier of group `g`.
pub open spec fn group_named(parts: Seq<Seq<char>>, g: ModifierGroup) -> bool {
    exists|i: int| 0 <= i < parts.len() && #[trigger] segment_names(parts[i], g)
}

/// No name belongs to two groups.
proof fn lemma_groups_disjoint(l: Seq<char>)
    ensures
        names_group(l, ModifierGroup::Ctrl) ==> !names_group(l, ModifierGroup::Shift)
            && !names_group(l, ModifierGroup::Alt) && !names_group(l, ModifierGroup::Meta),
        names_group(l, ModifierGroup::Shift) ==> !names_group(l, ModifierGroup::Alt)
            && !names_group(l, ModifierGroup::Meta),
        names_group(l, ModifierGroup::Alt) ==> !names_group(l, ModifierGroup::Meta),
{
    reveal_strlit("ctrl");
    reveal_strlit("control");
    reveal_strlit("shift");
    reveal_strlit("alt");
    reveal_strlit("option");
    reveal_strlit("meta");
    reveal_strlit("super");
    reveal_strlit("cmd");
    reveal_strlit("win");
    assert("ctrl"@.len() == 4);
    assert("control"@.len() == 7);
    assert("shift"@.len() == 5);
    assert("alt"@.len() == 3);
    assert("option"@.len() == 6);
    assert("meta"@.len() == 4);
    assert("super"@.len() == 5);
    assert("cmd"@.len() == 3);
    assert("win"@.len() == 3);
    assert("ctrl"@[0] != "meta"@[0]);
    assert("shift"@[1] != "super"@[1]);
    assert("alt"@[0] != "cmd"@[0] && "alt"@[0] != "win"@[0]);
}

/// Adding a segment at the end: the segments are all allowed exactly when
/// the earlier ones are and the new one is; a group is named exactly when
/// an earlier segment or the new one names it.
proof fn lemma_segments_push(parts: Seq<Seq<char>>)
    requires
        parts.len() > 0,
    ensures
        all_segments_allowed(parts) == (all_segments_allowed(parts.drop_last()) && segment_allowed(
            parts.last(),
        )),
        forall|g: ModifierGroup|
            #[trigger] group_named(parts, g) == (group_named(parts.drop_last(), g) || segment_names(
                parts.last(),
                g,
            )),
{
    let q = parts.drop_last();
    let n = parts.len() - 1;
    assert forall|i: int| 0 <= i < q.len() implies q[i] == parts[i] by {}
    if all_segments_allowed(parts) {
        assert forall|i: int| 0 <= i < q.len() implies #[trigger] segment_allowed(q[i]) by {
            assert(segment_allowed(parts[i]));
        }
        assert(segment_allowed(parts[n]));
    }
    if all_segments_allowed(q) && segment_allowed(parts.last()) {
        assert forall|i: int| 0 <= i < parts.len() implies #[trigger] segment_allowed(parts[i]) by {
            if i < n {
                assert(segment_allowed(q[i]));
            }
        }
    }
    assert forall|g: ModifierGroup|
        #[trigger] group_named(parts, g) == (group_named(q, g) || segment_names(parts.last(), g)) by {
        if group_named(parts, g) {
            let i = choose|i: int| 0 <= i < parts.len() && #[trigger] segment_names(parts[i], g);
            if i < n {
                assert(segment_names(q[i], g));
            }
        }
        if group_named(q, g) {
            let i = choose|i: int| 0 <= i < q.len() && #[trigger] segment_names(q[i], g);
            assert(segment_names(parts[i], g));
        }
        if segment_names(parts.last(), g) {
            assert(segment_names(parts[n], g));
        }
    }
}

/// The fold over the segments succeeds exactly when every segment is
/// allowed, and then each flag says whether its group is named.
pub proof fn lemma_modifier_fold_law(parts: Seq<Seq<char>>)
    ensures
        (modifier_fold(parts) is Some) == all_segments_allowed(parts),
        all_segments_allowed(parts) ==> modifier_fold(parts) == Some(
            (
                group_named(parts, ModifierGroup::Ctrl),
                group_named(parts, ModifierGroup::Shift),
                group_named(parts, ModifierGroup::Alt),
                group_named(parts, ModifierGroup::Meta),
            ),
        ),
    decreases parts.len(),
{
    if parts.len() > 0 {
        let q = parts.drop_last();
        let p = parts.last();
        lemma_modifier_fold_law(q);
        lemma_segments_push(parts);
        lemma_groups_disjoint(ascii_lower_seq(trim(p)));
        assert(group_named(parts, ModifierGroup::Ctrl) == (group_named(q, ModifierGroup::Ctrl)
            || segment_names(p, ModifierGroup::Ctrl)));
        assert(group_named(parts, ModifierGroup::Shift) == (group_named(q, ModifierGroup::Shift)
            || segment_names(p, ModifierGroup::Shift)));
        assert(group_named(parts, ModifierGroup::Alt) == (group_named(q, ModifierGroup::Alt)
            || segment_names(p, ModifierGroup::Alt)));
        assert(group_named(parts, ModifierGroup::Meta) == (group_named(q, ModifierGroup::Meta)
            || segment_names(p, ModifierGroup::Meta)));
    }
}

/// The accept-chord law: `"Ctrl+Shift"`-style text parses exactly when
/// every `+`-segment, trimmed and ignoring ASCII case, is blank or a
/// modifier name and some segment names Ctrl, Alt or Meta; each parsed
/// flag then says whether its group is named.
pub proof fn lemma_accept_modifiers_law(s: Seq<char>)
    ensures
        accept_modifiers_of(s) is Some <==> all_segments_allowed(split_on(s, '+')) && (group_named(
            split_on(s, '+'),
            ModifierGroup::Ctrl,
        ) || group_named(split_on(s, '+'), ModifierGroup::Alt) || group_named(
            split_on(s, '+'),
            ModifierGroup::Meta,
        )),
        accept_modifiers_of(s) matches Some((c, sh, a, m)) ==> c == group_named(
            split_on(s, '+'),
            ModifierGroup::Ctrl,
        ) && sh == group_named(split_on(s, '+'), ModifierGroup::Shift) && a == group_named(
            split_on(s, '+'),
            ModifierGroup::Alt,
        ) && m == group_named(split_on(s, '+'), ModifierGroup::Meta),
{
    lemma_modifier_fold_law(split_on(s, '+'));
}

} // verus!
