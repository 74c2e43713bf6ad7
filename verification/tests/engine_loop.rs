//! The run loop's per-event decisions.

use poltertype::engine_loop::{
    idle_action, key_disposition, paste_guard_until, word_action, BufferVerdict, IdleAction,
    KeyDisposition, WordAction, PASTE_GUARD_MS,
};

#[test]
fn idle_hygiene_spares_a_live_offer_only_between_words() {
    assert_eq!(idle_action(100, 100, false, true), IdleAction::Nothing);
    assert_eq!(idle_action(101, 100, true, false), IdleAction::KeepForOffer);
    assert_eq!(idle_action(101, 100, true, true), IdleAction::Abandon);
    assert_eq!(idle_action(101, 100, false, false), IdleAction::Abandon);
}

#[test]
fn our_keys_and_a_paused_engine_are_ignored() {
    assert_eq!(key_disposition(true, false, true, true, false, true), (KeyDisposition::Ignore, false));
    assert_eq!(key_disposition(false, true, true, false, false, false), (KeyDisposition::Ignore, false));
}

#[test]
fn shortcuts_abandon_but_bare_modifiers_do_not() {
    assert_eq!(
        key_disposition(false, false, true, true, false, false),
        (KeyDisposition::AbandonShortcut, true),
        "Ctrl+V arms the paste guard and abandons the word"
    );
    assert_eq!(
        key_disposition(false, false, false, true, true, false),
        (KeyDisposition::Feed { freeze_for_click: false }, false)
    );
    assert_eq!(
        key_disposition(false, false, false, false, false, true),
        (KeyDisposition::Feed { freeze_for_click: true }, false)
    );
}

#[test]
fn the_paste_guard_covers_the_next_moments_only() {
    let until = paste_guard_until(10_000);
    assert_eq!(until, 10_000 + PASTE_GUARD_MS);
    assert_eq!(paste_guard_until(u64::MAX - 1), u64::MAX);
    let done = BufferVerdict::WordCompleted { tainted: false };
    assert_eq!(word_action(done, false, until - 1, until), WordAction::SkipPasted);
    assert_eq!(word_action(done, false, until, until), WordAction::Decide);
}

#[test]
fn buffer_verdicts() {
    assert_eq!(word_action(BufferVerdict::InProgress, false, 0, 0), WordAction::Nothing);
    assert_eq!(word_action(BufferVerdict::Abandoned, false, 0, 0), WordAction::Forget { dismiss_offer: true });
    assert_eq!(word_action(BufferVerdict::Abandoned, true, 0, 0), WordAction::Forget { dismiss_offer: false });
    assert_eq!(
        word_action(BufferVerdict::WordCompleted { tainted: true }, false, 0, 99),
        WordAction::KeepTainted
    );
}
