//! The evdev key gate's decisions, driven through fake devices.

use std::io;
use std::time::{Duration, Instant};

use poltertype::evdev_gate::{
    is_recent, recently_used, DeviceHandle, EvdevGate, GateState, GatedDevice, Handshake,
    PollStep, HOLD_HANDSHAKE_MS, MAX_HOLD_MS, RECENT_USE_WINDOW_MS,
    RELEASE_HANDSHAKE_MS,
};

/// Counts the two syscalls, and can pretend to be held by someone else.
struct FakeHandle {
    busy: bool,
    grabs: usize,
    ungrabs: usize,
    last_grab_ok: bool,
}

impl DeviceHandle for FakeHandle {
    fn grabs(&self) -> u64 {
        self.grabs as u64
    }

    fn ungrabs(&self) -> u64 {
        self.ungrabs as u64
    }

    fn grab_held(&self) -> bool {
        self.last_grab_ok
    }

    fn grab(&mut self) -> io::Result<()> {
        self.grabs += 1;
        self.last_grab_ok = !self.busy;
        if self.busy {
            return Err(io::Error::from_raw_os_error(libc::EBUSY));
        }
        Ok(())
    }

    fn ungrab(&mut self) -> io::Result<()> {
        self.ungrabs += 1;
        Ok(())
    }
}

type FakeDevice = GatedDevice<FakeHandle>;

fn keyboard() -> FakeDevice {
    GatedDevice {
        gate: GateState {
            is_keyboard: true,
            last_event: Some(Instant::now()),
            ..GateState::default()
        },
        handle: FakeHandle { busy: false, grabs: 0, ungrabs: 0, last_grab_ok: false },
    }
}

fn ours(mut d: FakeDevice) -> FakeDevice {
    d.gate.is_ours = true;
    d
}

fn mouse(mut d: FakeDevice) -> FakeDevice {
    d.gate.is_keyboard = false;
    d
}

fn idle(mut d: FakeDevice) -> FakeDevice {
    d.gate.last_event =
        Some(Instant::now() - Duration::from_millis(RECENT_USE_WINDOW_MS) - Duration::from_secs(1));
    d
}

fn busy(mut d: FakeDevice) -> FakeDevice {
    d.handle.busy = true;
    d
}

fn ready_gate() -> EvdevGate {
    let mut g = EvdevGate::new();
    g.mark_available_for_test();
    g
}

fn poll(gate: &mut EvdevGate, devices: &mut Vec<FakeDevice>) {
    gate.service(devices);
}

#[test]
fn holds_only_the_keyboard_in_use() {
    let mut gate = ready_gate();
    let mut devices = vec![keyboard(), mouse(keyboard()), idle(keyboard()), ours(keyboard())];

    gate.hold_for_test();
    poll(&mut gate, &mut devices);

    assert!(devices[0].gate.grabbed, "the keyboard in use must be held");
    assert_eq!(devices[1].handle.grabs, 0, "a mouse delivers no keystrokes to race");
    assert_eq!(
        devices[2].handle.grabs, 0,
        "an idle keyboard is not worth the release cost"
    );
    assert_eq!(
        devices[3].handle.grabs, 0,
        "grabbing our own emitter would hold back the correction itself"
    );
}

#[test]
fn a_busy_device_is_tried_once_per_hold_not_once_per_poll() {
    let mut gate = ready_gate();
    let mut devices = vec![busy(keyboard())];

    gate.hold_for_test();
    for _ in 0..10 {
        poll(&mut gate, &mut devices);
    }
    assert_eq!(
        devices[0].handle.grabs, 1,
        "retrying an EBUSY device every poll spends the read loop's budget on failing ioctls"
    );

    gate.hold_for_test();
    poll(&mut gate, &mut devices);
    assert_eq!(devices[0].handle.grabs, 2);
}

#[test]
fn nothing_grabbable_means_the_hold_reports_failure() {
    let mut gate = ready_gate();
    let mut devices = vec![busy(keyboard())];

    gate.hold_for_test();
    poll(&mut gate, &mut devices);

    assert!(
        !gate.is_held_for_test(),
        "with nothing held the correction must know to protect itself the old way"
    );
}

#[test]
fn release_gives_every_device_back() {
    let mut gate = ready_gate();
    let mut devices = vec![keyboard(), keyboard()];

    gate.hold_for_test();
    poll(&mut gate, &mut devices);
    assert!(devices.iter().all(|d| d.gate.grabbed));

    gate.want_release_for_test();
    poll(&mut gate, &mut devices);

    assert!(devices.iter().all(|d| !d.gate.grabbed));
    assert!(devices.iter().all(|d| d.handle.ungrabs == 1));
    assert!(!gate.is_held_for_test());
}

#[test]
fn a_keyboard_appearing_mid_hold_is_covered_too() {
    let mut gate = ready_gate();
    let mut devices = vec![keyboard()];

    gate.hold_for_test();
    poll(&mut gate, &mut devices);

    devices.push(keyboard());
    poll(&mut gate, &mut devices);

    assert!(
        devices[1].gate.grabbed,
        "a keyboard the rescan picks up mid-hold still delivers keystrokes into our burst"
    );
}

#[test]
fn the_watchdog_releases_a_hold_the_engine_forgot() {
    let mut gate = ready_gate();
    let mut devices = vec![keyboard()];

    gate.hold_expiring_for_test(0);
    poll(&mut gate, &mut devices);

    assert!(
        !devices[0].gate.grabbed && !gate.is_held_for_test(),
        "a hung correction must never be able to leave the keyboard dead"
    );
}

#[test]
fn shutdown_never_leaves_a_device_grabbed() {
    let mut gate = ready_gate();
    let mut devices = vec![keyboard()];

    gate.hold_for_test();
    poll(&mut gate, &mut devices);
    gate.release_all(&mut devices);

    assert!(!devices[0].gate.grabbed);
    assert_eq!(devices[0].handle.ungrabs, 1);
}

#[test]
fn an_unavailable_gate_touches_nothing() {
    let mut gate = EvdevGate::new();
    let mut devices = vec![keyboard()];

    let now = gate.now_ms();
    assert_eq!(
        gate.handshake_step(Handshake::Start, now),
        Handshake::Unheld,
        "an unavailable gate must report it cannot hold"
    );
    poll(&mut gate, &mut devices);
    assert_eq!(devices[0].handle.grabs, 0);
}

#[test]
fn a_hold_still_in_force_is_released_before_a_new_one() {
    let mut gate = ready_gate();
    let mut devices = vec![keyboard()];
    let now = gate.now_ms();
    assert!(matches!(gate.handshake_step(Handshake::Start, now), Handshake::Grabbing { .. }));
    poll(&mut gate, &mut devices);
    assert!(gate.is_held());
    let now = gate.now_ms();
    let phase = gate.handshake_step(Handshake::Start, now);
    assert!(matches!(phase, Handshake::Releasing { .. }));
    poll(&mut gate, &mut devices);
    assert!(!gate.is_held());
    assert!(!devices[0].gate.grabbed);
    let now = gate.now_ms();
    assert!(matches!(gate.handshake_step(phase, now), Handshake::Grabbing { .. }));
    poll(&mut gate, &mut devices);
    assert!(devices[0].gate.grabbed);
    assert_eq!(devices[0].handle.grabs, 2);
}

#[test]
fn a_poll_before_the_deadline_holds_and_one_after_it_lets_go() {
    let mut gate = ready_gate();
    let mut devices = vec![keyboard()];
    let recent = vec![true];
    gate.arm_until(100);
    gate.service_at(99, &recent, &mut devices);
    assert!(gate.is_held());
    assert!(devices[0].gate.grabbed);
    gate.service_at(100, &recent, &mut devices);
    assert!(!gate.is_held());
    assert!(!devices[0].gate.grabbed);
    assert_eq!(devices[0].handle.ungrabs, 1);
}

#[test]
fn a_default_gate_is_unavailable_until_probed() {
    let mut gate = EvdevGate::default();
    assert!(!gate.available());
    assert!(!gate.is_held());
    let now = gate.now_ms();
    assert_eq!(gate.handshake_step(Handshake::Start, now), Handshake::Unheld);
}

#[test]
fn a_poll_reports_one_grab_attempt_on_the_keyboard_in_use_only() {
    let mut gate = ready_gate();
    let mut devices = vec![keyboard(), mouse(keyboard()), idle(keyboard()), ours(keyboard())];
    gate.hold_for_test();
    let steps = gate.service(&mut devices);
    assert_eq!(
        steps,
        vec![
            PollStep::Attempt { taken: true },
            PollStep::Untouched,
            PollStep::Untouched,
            PollStep::Untouched
        ]
    );
    let again = gate.service(&mut devices);
    assert_eq!(again, vec![PollStep::Untouched; 4], "a held device is not grabbed twice");
    assert_eq!(devices[0].handle.grabs, 1);
}

#[test]
fn a_failed_grab_is_reported_and_not_retried_within_the_hold() {
    let mut gate = ready_gate();
    let mut devices = vec![busy(keyboard())];
    gate.hold_for_test();
    assert_eq!(gate.service(&mut devices), vec![PollStep::Attempt { taken: false }]);
    assert!(!devices[0].gate.grabbed);
    assert_eq!(gate.service(&mut devices), vec![PollStep::Untouched]);
    gate.hold_for_test();
    assert_eq!(gate.service(&mut devices), vec![PollStep::Attempt { taken: false }]);
    assert_eq!(devices[0].handle.grabs, 2);
}

#[test]
fn a_release_poll_reports_one_ungrab_per_held_device() {
    let mut gate = ready_gate();
    let mut devices = vec![keyboard(), mouse(keyboard()), keyboard()];
    gate.hold_for_test();
    gate.service(&mut devices);
    gate.want_release_for_test();
    let steps = gate.service(&mut devices);
    assert_eq!(steps, vec![PollStep::Release, PollStep::Untouched, PollStep::Release]);
    assert_eq!(devices[1].handle.ungrabs, 0);
    assert_eq!(gate.service(&mut devices), vec![PollStep::Untouched; 3]);
}

#[test]
fn release_all_reports_the_devices_it_gave_back() {
    let mut gate = ready_gate();
    let mut devices = vec![keyboard(), idle(keyboard())];
    gate.hold_for_test();
    gate.service(&mut devices);
    let steps = gate.release_all(&mut devices);
    assert_eq!(steps, vec![PollStep::Release, PollStep::Untouched]);
    assert!(!gate.is_held());
    let now = gate.now_ms();
    assert!(
        matches!(gate.handshake_step(Handshake::Start, now), Handshake::Grabbing { .. }),
        "nothing is left held, so a new hold is armed at once"
    );
}

#[test]
fn an_expired_hold_is_withdrawn_on_the_next_poll() {
    let mut gate = ready_gate();
    let mut devices = vec![keyboard()];
    gate.hold_expiring_for_test(0);
    assert_eq!(gate.service(&mut devices), vec![PollStep::Untouched]);
    assert_eq!(devices[0].handle.grabs, 0);
    assert!(!gate.is_held());
    // The request is gone: a later poll still grabs nothing.
    assert_eq!(gate.service(&mut devices), vec![PollStep::Untouched]);
}

#[test]
fn recent_use_is_judged_by_the_window() {
    assert!(is_recent(0));
    assert!(is_recent(RECENT_USE_WINDOW_MS));
    assert!(!is_recent(RECENT_USE_WINDOW_MS + 1));
    assert!(recently_used(&keyboard().gate));
    assert!(!recently_used(&idle(keyboard()).gate));
    let never = GateState { is_keyboard: true, ..GateState::default() };
    assert!(!recently_used(&never));
}

#[test]
fn the_clock_never_goes_back() {
    let mut gate = EvdevGate::new();
    let a = gate.now_ms();
    let b = gate.now_ms();
    assert!(b >= a);
}

#[test]
fn the_handshake_gives_up_at_once_on_an_unavailable_gate() {
    let mut gate = EvdevGate::new();
    assert_eq!(gate.handshake_step(Handshake::Start, 10), Handshake::Unheld);
    assert_eq!(gate.handshake_step(Handshake::Unheld, 20), Handshake::Unheld);
}

#[test]
fn the_handshake_arms_and_sees_the_grab_taken() {
    let mut gate = ready_gate();
    let mut devices = vec![keyboard()];
    let recent = vec![true];
    let phase = gate.handshake_step(Handshake::Start, 100);
    assert_eq!(phase, Handshake::Grabbing { until_ms: 100 + HOLD_HANDSHAKE_MS });
    assert_eq!(gate.handshake_step(phase, 101), phase, "still waiting for the device thread");
    gate.service_at(102, &recent, &mut devices);
    assert_eq!(gate.handshake_step(phase, 103), Handshake::Held);
    assert_eq!(gate.handshake_step(Handshake::Held, 104), Handshake::Held);
    // The hold lasts MAX_HOLD_MS from when it was armed.
    gate.service_at(100 + MAX_HOLD_MS - 1, &recent, &mut devices);
    assert!(devices[0].gate.grabbed);
    gate.service_at(100 + MAX_HOLD_MS, &recent, &mut devices);
    assert!(!devices[0].gate.grabbed);
}

#[test]
fn an_untaken_hold_is_withdrawn_when_the_handshake_runs_out() {
    let mut gate = ready_gate();
    let mut devices = vec![busy(keyboard())];
    let recent = vec![true];
    let phase = gate.handshake_step(Handshake::Start, 0);
    assert_eq!(gate.handshake_step(phase, HOLD_HANDSHAKE_MS), Handshake::Unheld);
    assert_eq!(gate.service_at(1, &recent, &mut devices), vec![PollStep::Untouched]);
    assert_eq!(devices[0].handle.grabs, 0, "a withdrawn request grabs nothing");
}

#[test]
fn a_hold_still_in_force_is_waited_out_then_armed_anyway() {
    let mut gate = ready_gate();
    let mut devices = vec![keyboard()];
    let recent = vec![true];
    gate.arm_until(10_000);
    gate.service_at(0, &recent, &mut devices);
    assert!(gate.is_held());

    let phase = gate.handshake_step(Handshake::Start, 50);
    assert_eq!(phase, Handshake::Releasing { until_ms: 50 + RELEASE_HANDSHAKE_MS });
    assert_eq!(gate.handshake_step(phase, 51), phase, "the grab is still in force");
    gate.service_at(52, &recent, &mut devices);
    assert!(!devices[0].gate.grabbed);
    let next = gate.handshake_step(phase, 53);
    assert_eq!(next, Handshake::Grabbing { until_ms: 53 + HOLD_HANDSHAKE_MS });

    // Had the release never been seen, the wait running out arms anyway.
    let mut stuck = ready_gate();
    let mut held = vec![keyboard()];
    stuck.arm_until(10_000);
    stuck.service_at(0, &recent, &mut held);
    let phase = stuck.handshake_step(Handshake::Start, 0);
    let next = stuck.handshake_step(phase, RELEASE_HANDSHAKE_MS);
    assert_eq!(next, Handshake::Grabbing { until_ms: RELEASE_HANDSHAKE_MS + HOLD_HANDSHAKE_MS });
}

#[test]
fn a_release_settles_when_the_grab_is_gone_or_the_wait_runs_out() {
    let mut gate = ready_gate();
    let mut devices = vec![keyboard()];
    let recent = vec![true];
    gate.arm_until(10_000);
    gate.service_at(0, &recent, &mut devices);
    let until = gate.begin_release(5);
    assert_eq!(until, 5 + RELEASE_HANDSHAKE_MS);
    assert!(!gate.release_settled(until, 6));
    assert!(gate.release_settled(until, until));
    gate.service_at(7, &recent, &mut devices);
    assert!(gate.release_settled(until, 8));
    assert_eq!(devices[0].handle.ungrabs, 1);
}

#[test]
fn the_handle_model_follows_the_syscalls() {
    let mut gate = ready_gate();
    let mut devices = vec![keyboard(), busy(keyboard())];
    gate.hold_for_test();
    gate.service(&mut devices);
    assert_eq!((devices[0].handle.grabs(), devices[1].handle.grabs()), (1, 1));
    assert!(devices[0].handle.grab_held() && devices[0].gate.grabbed);
    assert!(!devices[1].handle.grab_held() && !devices[1].gate.grabbed);
    gate.want_release_for_test();
    gate.service(&mut devices);
    assert_eq!((devices[0].handle.ungrabs(), devices[1].handle.ungrabs()), (1, 0));
}
