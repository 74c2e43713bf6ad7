//! The swallow decision: the user's keyboard always comes back.

use poltertype::hold::{HoldState, MAX_HOLD_MS};

#[test]
fn a_gate_that_was_never_asked_swallows_nothing() {
    let mut g = HoldState::new();
    let now = g.now_ms();
    assert!(!g.swallow(false, now));
    assert!(!g.is_holding());
}

#[test]
fn holding_swallows_the_users_keys() {
    let mut g = HoldState::new();
    g.hold();
    let now = g.now_ms();
    assert!(g.swallow(false, now));
}

#[test]
fn our_own_keystrokes_are_never_swallowed() {
    let mut g = HoldState::new();
    g.hold();
    let now = g.now_ms();
    assert!(!g.swallow(true, now));
}

#[test]
fn releasing_lets_keys_through_again() {
    let mut g = HoldState::new();
    g.hold();
    g.release();
    let now = g.now_ms();
    assert!(!g.swallow(false, now));
}

#[test]
fn a_hold_nobody_releases_expires_by_itself() {
    let mut g = HoldState::new();
    g.hold();
    let past_deadline = g.now_ms() + MAX_HOLD_MS + 1;
    assert!(
        !g.swallow(false, past_deadline),
        "an expired hold must not swallow"
    );
}

#[test]
fn an_expired_hold_clears_itself_rather_than_declining_each_time() {
    let mut g = HoldState::new();
    g.hold();
    let past_deadline = g.now_ms() + MAX_HOLD_MS + 1;
    let _ = g.swallow(false, past_deadline);
    assert!(
        !g.is_holding(),
        "expiry must clear the request, not mask it"
    );
    assert!(!g.swallow(false, 0));
}

#[test]
fn the_deadline_is_exclusive_at_its_own_millisecond() {
    let mut g = HoldState::new();
    g.hold_until(1000);
    assert!(g.swallow(false, 999), "still inside the window");
    assert!(!g.swallow(false, 1000), "the deadline itself is expiry");
}

#[test]
fn a_fresh_hold_extends_the_deadline() {
    let mut g = HoldState::new();
    g.hold_until(100);
    g.hold_until(5_000);
    assert!(g.swallow(false, 4_999));
}

#[test]
fn release_is_idempotent() {
    let mut g = HoldState::new();
    g.hold();
    g.release();
    g.release();
    let now = g.now_ms();
    assert!(!g.swallow(false, now));
}

#[test]
fn ours_passes_in_every_state() {
    let mut g = HoldState::new();
    let now = g.now_ms();
    assert!(!g.swallow(true, now));
    g.hold();
    let now = g.now_ms();
    assert!(!g.swallow(true, now));
    g.release();
    let now = g.now_ms();
    assert!(!g.swallow(true, now));
}

#[test]
fn a_hold_in_force_keeps_swallowing_until_its_deadline() {
    let mut g = HoldState::new();
    g.hold_until(10);
    assert!(g.swallow(false, 0));
    assert!(g.swallow(false, 9));
    assert!(g.is_holding());
    assert!(!g.swallow(false, 10));
    assert!(!g.is_holding());
    assert!(!g.swallow(false, 5));
}

#[test]
fn a_default_state_holds_nothing() {
    let mut g = HoldState::default();
    assert!(!g.is_holding());
    assert!(!g.swallow(false, 0));
}
