//! The uinput emitter's key plans.

use poltertype::emit_plan::{
    backspace_plan, compose_plan, release_plan, replay_plan, KeyOp, KEY_BACKSPACE, KEY_LEFTCTRL,
    KEY_LEFTSHIFT, KEY_RIGHTCTRL, KEY_SPACE, KEY_U,
};
use poltertype::engine_types::{Modifiers, ReplayKey};

use KeyOp::{Down, Tap, Up, Wait};

#[test]
fn backspaces_are_pressed_one_after_another() {
    assert!(backspace_plan(0).is_empty());
    assert_eq!(
        backspace_plan(2),
        vec![
            Down(KEY_BACKSPACE), Wait(4), Up(KEY_BACKSPACE), Wait(4),
            Down(KEY_BACKSPACE), Wait(4), Up(KEY_BACKSPACE), Wait(4),
        ]
    );
}

#[test]
fn replay_wraps_shifted_keys_and_guards_the_last_one() {
    let keys = vec![
        ReplayKey { scancode: 0x1E, shift: true },
        ReplayKey { scancode: 0x39, shift: false },
    ];
    assert_eq!(
        replay_plan(&keys),
        vec![
            Down(KEY_LEFTSHIFT), Wait(4),
            Down(0x1E), Wait(4), Up(0x1E), Wait(4),
            Up(KEY_LEFTSHIFT), Wait(4),
            Up(0x39), Wait(12),
            Down(0x39), Wait(20), Up(0x39), Wait(12),
        ]
    );
    assert!(replay_plan(&vec![]).is_empty());
}

#[test]
fn releasing_modifiers_lets_both_sides_go() {
    assert!(release_plan(Modifiers::default()).is_empty());
    let held = Modifiers { control: true, ..Modifiers::default() };
    assert_eq!(release_plan(held), vec![Up(KEY_LEFTCTRL), Wait(4), Up(KEY_RIGHTCTRL), Wait(4)]);
    let all = Modifiers { shift: true, control: true, alt: true, meta: true };
    assert_eq!(release_plan(all).len(), 16);
}

#[test]
fn compose_types_the_code_point_in_hex() {
    let head = vec![Down(KEY_LEFTCTRL), Down(KEY_LEFTSHIFT), Tap(KEY_U), Up(KEY_LEFTSHIFT), Up(KEY_LEFTCTRL)];
    // 'ї' is U+0457: 4, 5, 7.
    let mut want = head.clone();
    want.extend([Tap(5), Tap(6), Tap(8), Tap(KEY_SPACE)]);
    assert_eq!(compose_plan("ї"), want);
    // U+00E9 'é' is written `e9`: no leading zeros.
    let mut want = head.clone();
    want.extend([Tap(18), Tap(10), Tap(KEY_SPACE)]);
    assert_eq!(compose_plan("é"), want);
    // '0' is U+0030: 3, 0.
    let mut want = head;
    want.extend([Tap(4), Tap(11), Tap(KEY_SPACE)]);
    assert_eq!(compose_plan("0"), want);
    assert!(compose_plan("").is_empty());
}
