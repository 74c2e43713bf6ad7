//! The evdev key gate: holding the user's keyboards back while a
//! correction burst is on the wire.
//!
//! A correction is a burst of injected keys, and the compositor
//! interleaves whatever the user types into it. The only real fix is to
//! keep the user's keys from reaching applications until the burst has
//! landed — `EVIOCGRAB` — while the device thread keeps reading them so
//! the engine can replay them behind the correction.
//!
//! This module is the key gate's bookkeeping: which device a poll grabs,
//! gives back or leaves alone, and what the key gate reports afterwards.
//! The grab syscalls themselves sit behind [`DeviceHandle`]; the device
//! thread and the engine share one gate and take turns on it.
//!
//! Two properties make the key gate safe to leave on:
//!
//! * the device thread enforces the deadline itself ([`MAX_HOLD_MS`]),
//!   so a correction that hangs cannot leave the keyboard dead;
//! * a device is never grabbed if it is our own emitter, not a
//!   keyboard, idle, or already tried during the current hold.

use std::time::Instant;
use vstd::prelude::*;

use crate::clock::{elapsed_ms, instant_now};

verus! {

/// `std::io::Error`, carried through opaquely.
#[verifier::external_type_specification]
#[verifier::external_body]
pub struct ExIoError(std::io::Error);

/// Ceiling on one hold, enforced by the device thread whatever the
/// engine is doing.
pub const MAX_HOLD_MS: u64 = 1200;

/// How recently a keyboard must have produced an event for the key gate to
/// bother holding it.
pub const RECENT_USE_WINDOW_MS: u64 = 30000;

/// How long a hold request waits for the device thread to take the grab.
pub const HOLD_HANDSHAKE_MS: u64 = 40;

/// How long a release waits for the device thread to confirm it.
pub const RELEASE_HANDSHAKE_MS: u64 = 250;

/// The part of a device the key gate reasons about.
#[derive(Debug, Default, Clone, PartialEq)]
pub struct GateState {
    /// Our own uinput emitter, echoing back. Never grabbed.
    pub is_ours: bool,
    /// Advertises letter keys. Mice and touchpads are read but never held.
    pub is_keyboard: bool,
    /// When this device last produced an event.
    pub last_event: Option<Instant>,
    /// The key gate currently holds this device exclusively.
    pub grabbed: bool,
    /// Hold generation this device was last tried in: each device is
    /// attempted at most once per hold.
    pub tried_epoch: u64,
}

/// The two grab syscalls of one device. Its model counts the calls made
/// on it (modulo 2^64) and remembers whether the latest `grab()` took;
/// an implementation keeps those counts as it makes the calls.
pub trait DeviceHandle {
    /// How many times `grab()` has been called on this handle.
    spec fn grabs(&self) -> u64;

    /// How many times `ungrab()` has been called on this handle.
    spec fn ungrabs(&self) -> u64;

    /// Whether the latest `grab()` succeeded.
    spec fn grab_held(&self) -> bool;

    /// Take the device exclusively (`EVIOCGRAB(1)`).
    fn grab(&mut self) -> (r: Result<(), std::io::Error>)
        ensures
            final(self).grabs() == old(self).grabs().wrapping_add(1),
            final(self).ungrabs() == old(self).ungrabs(),
            final(self).grab_held() == (r is Ok),
    ;

    /// Give the device back (`EVIOCGRAB(0)`).
    fn ungrab(&mut self) -> (r: Result<(), std::io::Error>)
        ensures
            final(self).ungrabs() == old(self).ungrabs().wrapping_add(1),
            final(self).grabs() == old(self).grabs(),
            final(self).grab_held() == old(self).grab_held(),
    ;
}

/// One opened device: the key gate's bookkeeping plus the handle its
/// syscalls go through.
pub struct GatedDevice<H> {
    pub gate: GateState,
    pub handle: H,
}

/// The key gate as plain values.
pub struct GateModel {
    /// The engine wants the user's keys held right now.
    pub want: bool,
    /// The device thread has actually taken the grabs.
    pub held: bool,
    /// Grabbing is safe on this stack.
    pub available: bool,
    /// Milliseconds since the key gate's origin past which the hold is void.
    pub deadline_ms: u64,
    /// Bumped by every hold request.
    pub epoch: u64,
}

/// What one poll did to one device, as its handle records it (see
/// [`handle_after_step`]).
#[derive(Debug, Clone, Copy, PartialEq, Eq)]
pub enum PollStep {
    /// No syscall: the device is left exactly as it was.
    Untouched,
    /// `grab()` was called once; `taken` is whether it succeeded.
    Attempt { taken: bool },
    /// `ungrab()` was called once.
    Release,
}

/// Where a hold request stands in its handshake with the device thread.
#[derive(Debug, Clone, Copy, PartialEq, Eq)]
pub enum Handshake {
    /// Not started.
    Start,
    /// A previous hold was still in force and has been withdrawn; waiting
    /// until the device thread gives the devices back, or until `until_ms`.
    Releasing { until_ms: u64 },
    /// The request is armed; waiting until the device thread takes the
    /// grabs, or until `until_ms`.
    Grabbing { until_ms: u64 },
    /// The hold is in force.
    Held,
    /// No hold: carry on unprotected.
    Unheld,
}

pub struct EvdevGate {
    want: bool,
    held: bool,
    available: bool,
    deadline_ms: u64,
    epoch: u64,
    /// The latest clock reading handed out.
    clock_ms: u64,
    origin: Instant,
}

impl View for EvdevGate {
    type V = GateModel;

    closed spec fn view(&self) -> GateModel {
        GateModel {
            want: self.want,
            held: self.held,
            available: self.available,
            deadline_ms: self.deadline_ms,
            epoch: self.epoch,
        }
    }
}

/// Whether a poll at `now_ms` holds: a request is armed and its
/// deadline has not passed.
pub open spec fn poll_wants(g: GateModel, now_ms: u64) -> bool {
    g.want && now_ms < g.deadline_ms
}

/// Whether a poll that holds tries to grab this device: not already
/// held, not our own emitter, not already tried during this hold, a
/// keyboard, and in recent use.
pub open spec fn eligible(s: GateState, epoch: u64, recent: bool) -> bool {
    &&& !s.grabbed
    &&& !s.is_ours
    &&& s.tried_epoch != epoch
    &&& s.is_keyboard
    &&& recent
}

/// Whether a poll makes a syscall on this device: a grab attempt when
/// it holds, an ungrab of a held device when it does not.
pub open spec fn touches(wants: bool, epoch: u64, recent: bool, s: GateState) -> bool {
    if wants {
        eligible(s, epoch, recent)
    } else {
        s.grabbed
    }
}

/// What one poll does to one device. A poll that holds calls `grab()` on
/// each eligible device exactly, marks it tried for this hold, and holds
/// it exactly when the grab succeeded; a poll that does not hold calls
/// `ungrab()` on each grabbed device exactly and gives it back. Every
/// other device is left as it was.
pub open spec fn device_after_poll(
    wants: bool,
    epoch: u64,
    recent: bool,
    old: GateState,
    new: GateState,
    step: PollStep,
) -> bool {
    if wants && eligible(old, epoch, recent) {
        step matches PollStep::Attempt { taken } && new == (GateState {
            tried_epoch: epoch,
            grabbed: taken,
            ..old
        })
    } else if !wants && old.grabbed {
        step == PollStep::Release && new == (GateState { grabbed: false, ..old })
    } else {
        step == PollStep::Untouched && new == old
    }
}

/// The handle of one device moved by one poll's step: one `grab()` for an
/// attempt, whose result is `taken`; one `ungrab()` for a release; no
/// change at all otherwise.
pub open spec fn handle_after_step<H: DeviceHandle>(old: H, new: H, step: PollStep) -> bool {
    match step {
        PollStep::Untouched => new == old,
        PollStep::Attempt { taken } => {
            &&& new.grabs() == old.grabs().wrapping_add(1)
            &&& new.ungrabs() == old.ungrabs()
            &&& new.grab_held() == taken
        },
        PollStep::Release => {
            &&& new.ungrabs() == old.ungrabs().wrapping_add(1)
            &&& new.grabs() == old.grabs()
            &&& new.grab_held() == old.grab_held()
        },
    }
}

/// Every device's handle moved by its step.
pub open spec fn polled_handles<H: DeviceHandle>(
    old: Seq<GatedDevice<H>>,
    new: Seq<GatedDevice<H>>,
    steps: Seq<PollStep>,
) -> bool {
    &&& new.len() == old.len()
    &&& steps.len() == old.len()
    &&& forall|i: int|
        0 <= i < old.len() ==> handle_after_step(
            #[trigger] old[i].handle,
            new[i].handle,
            steps[i],
        )
}

pub open spec fn gate_states<H>(devices: Seq<GatedDevice<H>>) -> Seq<GateState> {
    devices.map_values(|d: GatedDevice<H>| d.gate)
}

pub open spec fn any_grabbed(states: Seq<GateState>) -> bool {
    exists|i: int| 0 <= i < states.len() && #[trigger] states[i].grabbed
}

/// The key gate after one poll. It reports held exactly when a poll that
/// holds ended with some device grabbed; a poll with nothing grabbed
/// withdraws the request, so the correction knows to protect itself
/// the old way.
pub open spec fn gate_after_poll(
    old: GateModel,
    now_ms: u64,
    old_states: Seq<GateState>,
    new_states: Seq<GateState>,
) -> GateModel {
    let wants = poll_wants(old, now_ms);
    let taken = any_grabbed(new_states);
    GateModel {
        want: wants && taken,
        held: if wants {
            taken
        } else if any_grabbed(old_states) {
            false
        } else {
            old.held
        },
        available: old.available,
        deadline_ms: old.deadline_ms,
        epoch: old.epoch,
    }
}

/// One whole poll: the key gate and every device move as a poll at
/// `now_ms` with recent-use flags `recent` moves them, by the syscalls
/// `steps`.
pub open spec fn polled(
    old_gate: GateModel,
    old_states: Seq<GateState>,
    now_ms: u64,
    recent: Seq<bool>,
    new_gate: GateModel,
    new_states: Seq<GateState>,
    steps: Seq<PollStep>,
) -> bool {
    &&& recent.len() == old_states.len()
    &&& new_states.len() == old_states.len()
    &&& steps.len() == old_states.len()
    &&& new_gate == gate_after_poll(old_gate, now_ms, old_states, new_states)
    &&& forall|i: int|
        0 <= i < old_states.len() ==> device_after_poll(
            poll_wants(old_gate, now_ms),
            old_gate.epoch,
            recent[i],
            #[trigger] old_states[i],
            new_states[i],
            steps[i],
        )
}

/// The key gate with a hold request armed until `deadline_ms`.
pub open spec fn armed(g: GateModel, deadline_ms: u64) -> GateModel {
    GateModel {
        want: true,
        deadline_ms,
        epoch: g.epoch.wrapping_add(1),
        held: g.held,
        available: g.available,
    }
}

pub open spec fn withdrawn(g: GateModel) -> GateModel {
    GateModel { want: false, ..g }
}

/// `a + b`, stopping at `u64::MAX`.
pub open spec fn saturating(a: u64, b: u64) -> u64 {
    if a + b > u64::MAX {
        u64::MAX
    } else {
        (a + b) as u64
    }
}

/// Whether an event `age` milliseconds old (`None`: no event at all)
/// counts as recent use.
pub open spec fn recent_age(age: Option<u64>) -> bool {
    age matches Some(a) && a <= RECENT_USE_WINDOW_MS
}

pub open spec fn recents(ages: Seq<Option<u64>>) -> Seq<bool> {
    ages.map_values(|a: Option<u64>| recent_age(a))
}

/// Whether an event `elapsed_ms` milliseconds old is within
/// [`RECENT_USE_WINDOW_MS`].
pub fn is_recent(elapsed_ms: u64) -> (r: bool)
    ensures
        r == (elapsed_ms <= RECENT_USE_WINDOW_MS),
{
    elapsed_ms <= RECENT_USE_WINDOW_MS
}

/// How long ago this device produced its last event, by the clock;
/// `None` when it never did.
fn last_event_age(st: &GateState) -> (r: Option<u64>)
    ensures
        r is Some <==> st.last_event is Some,
{
    match &st.last_event {
        Some(t) => Some(elapsed_ms(t)),
        None => None,
    }
}

/// Whether this device produced an event within [`RECENT_USE_WINDOW_MS`]:
/// exactly when its last event's age, as the clock reads it, is within
/// the window. A device with no event at all is never recent.
pub fn recently_used(st: &GateState) -> (r: bool)
    ensures
        exists|age: Option<u64>| (age is Some <==> st.last_event is Some) && r == #[trigger] recent_age(age),
{
    let age = last_event_age(st);
    let r = match age {
        Some(a) => is_recent(a),
        None => false,
    };
    assert(r == recent_age(age));
    r
}

/// The next step of a hold request's handshake at clock reading
/// `now_ms` (see [`EvdevGate::handshake_step`]).
pub open spec fn handshake_next(g: GateModel, phase: Handshake, now_ms: u64) -> (Handshake, GateModel) {
    match phase {
        Handshake::Start => if !g.available {
            (Handshake::Unheld, g)
        } else if g.held {
            (Handshake::Releasing { until_ms: saturating(now_ms, RELEASE_HANDSHAKE_MS) }, withdrawn(g))
        } else {
            (
                Handshake::Grabbing { until_ms: saturating(now_ms, HOLD_HANDSHAKE_MS) },
                armed(g, saturating(now_ms, MAX_HOLD_MS)),
            )
        },
        Handshake::Releasing { until_ms } => if g.held && now_ms < until_ms {
            (phase, g)
        } else {
            (
                Handshake::Grabbing { until_ms: saturating(now_ms, HOLD_HANDSHAKE_MS) },
                armed(g, saturating(now_ms, MAX_HOLD_MS)),
            )
        },
        Handshake::Grabbing { until_ms } => if now_ms >= until_ms {
            (Handshake::Unheld, withdrawn(g))
        } else if g.held {
            (Handshake::Held, g)
        } else {
            (phase, g)
        },
        Handshake::Held => (phase, g),
        Handshake::Unheld => (phase, g),
    }
}

impl Default for EvdevGate {
    fn default() -> (g: Self)
        ensures
            g@ == (GateModel { want: false, held: false, available: false, deadline_ms: 0, epoch: 1 }),
            g.clock() == 0,
    {
        EvdevGate::new()
    }
}

impl EvdevGate {
    /// The latest clock reading the key gate has handed out.
    pub closed spec fn clock(&self) -> u64 {
        self.clock_ms
    }

    pub fn new() -> (g: Self)
        ensures
            g@ == (GateModel { want: false, held: false, available: false, deadline_ms: 0, epoch: 1 }),
            g.clock() == 0,
    {
        EvdevGate {
            want: false,
            held: false,
            available: false,
            deadline_ms: 0,
            epoch: 1,
            clock_ms: 0,
            origin: instant_now(),
        }
    }

    /// Milliseconds since the key gate was built. Readings never go back:
    /// one below the last handed out is given as the last.
    pub fn now_ms(&mut self) -> (r: u64)
        ensures
            r >= old(self).clock(),
            final(self).clock() == r,
            final(self)@ == old(self)@,
    {
        let t = elapsed_ms(&self.origin);
        let r = if t < self.clock_ms {
            self.clock_ms
        } else {
            t
        };
        self.clock_ms = r;
        r
    }

    pub fn available(&self) -> (r: bool)
        ensures
            r == self@.available,
    {
        self.available
    }

    /// Record the outcome of the availability probe: whether our own
    /// emitter could be grabbed, i.e. no input remapper sits between
    /// us and the compositor.
    pub fn set_available(&mut self, ok: bool)
        ensures
            final(self)@ == (GateModel { available: ok, ..old(self)@ }),
            final(self).clock() == old(self).clock(),
    {
        self.available = ok;
    }

    /// Whether the device thread reports the grabs taken.
    pub fn is_held(&self) -> (r: bool)
        ensures
            r == self@.held,
    {
        self.held
    }

    /// Arm a hold request void after `deadline_ms`, as a fresh hold:
    /// every device gets one new grab attempt.
    pub fn arm_until(&mut self, deadline_ms: u64)
        ensures
            final(self)@ == armed(old(self)@, deadline_ms),
            final(self).clock() == old(self).clock(),
    {
        self.deadline_ms = deadline_ms;
        self.epoch = self.epoch.wrapping_add(1);
        self.want = true;
    }

    /// Withdraw the hold request (the device thread gives the grabs back
    /// on its next poll).
    pub fn withdraw(&mut self)
        ensures
            final(self)@ == withdrawn(old(self)@),
            final(self).clock() == old(self).clock(),
    {
        self.want = false;
    }

    /// One step of a hold request's handshake with the device thread, at
    /// clock reading `now_ms`. From `Start`: an unavailable gate gives up
    /// at once; a hold still in force is withdrawn and its release awaited
    /// for [`RELEASE_HANDSHAKE_MS`]; otherwise a fresh request is armed for
    /// [`MAX_HOLD_MS`]. Once the release is seen, or its wait runs out, the
    /// request is armed anyway. An armed request that the device thread
    /// has not taken within [`HOLD_HANDSHAKE_MS`] is withdrawn: the
    /// correction proceeds unheld.
    pub fn handshake_step(&mut self, phase: Handshake, now_ms: u64) -> (next: Handshake)
        ensures
            (next, final(self)@) == handshake_next(old(self)@, phase, now_ms),
            final(self).clock() == old(self).clock(),
    {
        match phase {
            Handshake::Start => {
                if !self.available {
                    Handshake::Unheld
                } else if self.held {
                    self.withdraw();
                    Handshake::Releasing { until_ms: now_ms.saturating_add(RELEASE_HANDSHAKE_MS) }
                } else {
                    self.arm_until(now_ms.saturating_add(MAX_HOLD_MS));
                    Handshake::Grabbing { until_ms: now_ms.saturating_add(HOLD_HANDSHAKE_MS) }
                }
            },
            Handshake::Releasing { until_ms } => {
                if self.held && now_ms < until_ms {
                    phase
                } else {
                    self.arm_until(now_ms.saturating_add(MAX_HOLD_MS));
                    Handshake::Grabbing { until_ms: now_ms.saturating_add(HOLD_HANDSHAKE_MS) }
                }
            },
            Handshake::Grabbing { until_ms } => {
                if now_ms >= until_ms {
                    self.withdraw();
                    Handshake::Unheld
                } else if self.held {
                    Handshake::Held
                } else {
                    phase
                }
            },
            Handshake::Held => phase,
            Handshake::Unheld => phase,
        }
    }

    /// Start a release at clock reading `now_ms`: withdraw the request,
    /// and answer until when to wait for the device thread to confirm it
    /// ([`RELEASE_HANDSHAKE_MS`] on).
    pub fn begin_release(&mut self, now_ms: u64) -> (until_ms: u64)
        ensures
            final(self)@ == withdrawn(old(self)@),
            final(self).clock() == old(self).clock(),
            until_ms == saturating(now_ms, RELEASE_HANDSHAKE_MS),
    {
        self.withdraw();
        now_ms.saturating_add(RELEASE_HANDSHAKE_MS)
    }

    /// Whether a release started with [`Self::begin_release`] is over at clock
    /// reading `now_ms`: the device thread gave the devices back, or the
    /// wait until `until_ms` ran out.
    pub fn release_settled(&self, until_ms: u64, now_ms: u64) -> (r: bool)
        ensures
            r == (!self@.held || now_ms >= until_ms),
    {
        !self.held || now_ms >= until_ms
    }

    /// One poll of the device thread at clock reading `now_ms`: takes
    /// and drops the grabs and enforces the deadline. `recent[i]` says
    /// whether device `i` is in recent use. Reports the syscall made on
    /// each device.
    pub fn service_at<H: DeviceHandle>(
        &mut self,
        now_ms: u64,
        recent: &Vec<bool>,
        devices: &mut Vec<GatedDevice<H>>,
    ) -> (steps: Vec<PollStep>)
        requires
            recent.len() == old(devices).len(),
        ensures
            final(self).clock() == old(self).clock(),
            polled(
                old(self)@,
                gate_states(old(devices)@),
                now_ms,
                recent@,
                final(self)@,
                gate_states(final(devices)@),
                steps@,
            ),
            final(devices).len() == old(devices).len(),
            polled_handles(old(devices)@, final(devices)@, steps@),
            forall|i: int|
                0 <= i < old(devices).len() && steps@[i] == PollStep::Untouched
                    ==> #[trigger] final(devices)[i] == old(devices)[i],
    {
        let ghost old_devices = devices@;
        let expired = now_ms >= self.deadline_ms;
        let want = self.want && !expired;
        let n = devices.len();
        let mut steps: Vec<PollStep> = Vec::new();
        let mut i: usize = 0;
        if want {
            let epoch = self.epoch;
            let mut taken = false;
            while i < n
                invariant
                    n == devices.len(),
                    n == old_devices.len(),
                    n == recent.len(),
                    0 <= i <= n,
                    steps.len() == i,
                    want == poll_wants(old(self)@, now_ms),
                    want,
                    epoch == old(self)@.epoch,
                    forall|j: int|
                        0 <= j < i ==> device_after_poll(
                            want,
                            epoch,
                            recent[j],
                            #[trigger] old_devices[j].gate,
                            devices[j].gate,
                            steps@[j],
                        ),
                    forall|j: int|
                        0 <= j < i && steps@[j] == PollStep::Untouched ==> #[trigger] devices[j]
                            == old_devices[j],
                    forall|j: int|
                        0 <= j < i ==> handle_after_step(
                            #[trigger] old_devices[j].handle,
                            devices[j].handle,
                            steps@[j],
                        ),
                    forall|j: int| i <= j < n ==> #[trigger] devices[j] == old_devices[j],
                    taken == exists|j: int| 0 <= j < i && #[trigger] devices[j].gate.grabbed,
                decreases n - i,
            {
                let ghost before = devices@;
                let ghost taken_before = taken;
                if devices[i].gate.grabbed {
                    taken = true;
                    steps.push(PollStep::Untouched);
                } else if !devices[i].gate.is_ours && devices[i].gate.tried_epoch != epoch
                    && devices[i].gate.is_keyboard && recent[i] {
                    devices[i].gate.tried_epoch = epoch;
                    let got = match devices[i].handle.grab() {
                        Ok(()) => true,
                        Err(_) => false,
                    };
                    devices[i].gate.grabbed = got;
                    if got {
                        taken = true;
                    }
                    steps.push(PollStep::Attempt { taken: got });
                    assert(devices@[i as int].gate == (GateState {
                        tried_epoch: epoch,
                        grabbed: got,
                        ..before[i as int].gate
                    }));
                } else {
                    steps.push(PollStep::Untouched);
                }
                assert(forall|j: int| 0 <= j < n && j != i ==> devices@[j] == before[j]);
                assert(handle_after_step(
                    old_devices[i as int].handle,
                    devices[i as int].handle,
                    steps@[i as int],
                ));
                assert(device_after_poll(
                    want,
                    epoch,
                    recent[i as int],
                    old_devices[i as int].gate,
                    devices[i as int].gate,
                    steps@[i as int],
                ));
                proof {
                    if taken_before {
                        let w = choose|j: int| 0 <= j < i && #[trigger] before[j].gate.grabbed;
                        assert(devices[w].gate.grabbed);
                    } else if taken {
                        assert(devices[i as int].gate.grabbed);
                    }
                    if !taken {
                        assert forall|j: int| 0 <= j < i + 1 implies !(#[trigger] devices[j]).gate.grabbed by {
                            if j < i {
                                assert(devices[j] == before[j]);
                            }
                        }
                    }
                }
                i += 1;
            }
            proof {
                let fs = gate_states(devices@);
                assert(taken == any_grabbed(fs)) by {
                    if taken {
                        let j = choose|j: int| 0 <= j < n && #[trigger] devices[j].gate.grabbed;
                        assert(fs[j].grabbed);
                    }
                    if any_grabbed(fs) {
                        let j = choose|j: int| 0 <= j < fs.len() && #[trigger] fs[j].grabbed;
                        assert(devices[j].gate.grabbed);
                    }
                }
            }
            self.held = taken;
            if !taken {
                self.want = false;
            }
        } else {
            let mut released = false;
            while i < n
                invariant
                    n == devices.len(),
                    n == old_devices.len(),
                    n == recent.len(),
                    0 <= i <= n,
                    steps.len() == i,
                    want == poll_wants(old(self)@, now_ms),
                    !want,
                    forall|j: int|
                        0 <= j < i ==> device_after_poll(
                            want,
                            old(self)@.epoch,
                            recent[j],
                            #[trigger] old_devices[j].gate,
                            devices[j].gate,
                            steps@[j],
                        ),
                    forall|j: int|
                        0 <= j < i && steps@[j] == PollStep::Untouched ==> #[trigger] devices[j]
                            == old_devices[j],
                    forall|j: int|
                        0 <= j < i ==> handle_after_step(
                            #[trigger] old_devices[j].handle,
                            devices[j].handle,
                            steps@[j],
                        ),
                    forall|j: int| i <= j < n ==> #[trigger] devices[j] == old_devices[j],
                    released == exists|j: int| 0 <= j < i && #[trigger] old_devices[j].gate.grabbed,
                decreases n - i,
            {
                let ghost before = devices@;
                if devices[i].gate.grabbed {
                    let _ = devices[i].handle.ungrab();
                    devices[i].gate.grabbed = false;
                    released = true;
                    steps.push(PollStep::Release);
                    assert(devices@[i as int].gate == (GateState {
                        grabbed: false,
                        ..before[i as int].gate
                    }));
                } else {
                    steps.push(PollStep::Untouched);
                }
                assert(forall|j: int| 0 <= j < n && j != i ==> devices@[j] == before[j]);
                assert(handle_after_step(
                    old_devices[i as int].handle,
                    devices[i as int].handle,
                    steps@[i as int],
                ));
                i += 1;
            }
            proof {
                let os = gate_states(old_devices);
                let fs = gate_states(devices@);
                assert(released == any_grabbed(os)) by {
                    if released {
                        let j = choose|j: int| 0 <= j < n && #[trigger] old_devices[j].gate.grabbed;
                        assert(os[j].grabbed);
                    }
                    if any_grabbed(os) {
                        let j = choose|j: int| 0 <= j < os.len() && #[trigger] os[j].grabbed;
                        assert(old_devices[j].gate.grabbed);
                    }
                }
                assert(!any_grabbed(fs)) by {
                    if any_grabbed(fs) {
                        let j = choose|j: int| 0 <= j < fs.len() && #[trigger] fs[j].grabbed;
                        assert(device_after_poll(
                            want,
                            old(self)@.epoch,
                            recent[j],
                            old_devices[j].gate,
                            devices[j].gate,
                            steps@[j],
                        ));
                        assert(devices[j].gate.grabbed);
                    }
                }
            }
            if released {
                self.held = false;
            }
            if expired {
                self.want = false;
            }
        }
        proof {
            let os = gate_states(old_devices);
            let fs = gate_states(devices@);
            assert forall|j: int| 0 <= j < os.len() implies device_after_poll(
                poll_wants(old(self)@, now_ms),
                old(self)@.epoch,
                recent@[j],
                #[trigger] os[j],
                fs[j],
                steps@[j],
            ) by {
                assert(os[j] == old_devices[j].gate);
                assert(fs[j] == devices[j].gate);
            }
        }
        steps
    }

    /// One poll of the device thread, at the key gate's own clock, with
    /// each device's recent use read from the age of its last event.
    /// Reports the syscall made on each device.
    pub fn service<H: DeviceHandle>(&mut self, devices: &mut Vec<GatedDevice<H>>) -> (steps: Vec<
        PollStep,
    >)
        ensures
            final(devices).len() == old(devices).len(),
            final(self).clock() >= old(self).clock(),
            exists|ages: Seq<Option<u64>>|
                {
                    &&& ages.len() == old(devices).len()
                    &&& forall|i: int|
                        0 <= i < ages.len() ==> ((#[trigger] ages[i]) is Some
                            <==> old(devices)[i].gate.last_event is Some)
                    &&& #[trigger] polled(
                        old(self)@,
                        gate_states(old(devices)@),
                        final(self).clock(),
                        recents(ages),
                        final(self)@,
                        gate_states(final(devices)@),
                        steps@,
                    )
                },
            polled_handles(old(devices)@, final(devices)@, steps@),
            forall|i: int|
                0 <= i < old(devices).len() && steps@[i] == PollStep::Untouched
                    ==> #[trigger] final(devices)[i] == old(devices)[i],
    {
        let now = self.now_ms();
        let n = devices.len();
        let mut recent: Vec<bool> = Vec::new();
        let ghost mut ages: Seq<Option<u64>> = Seq::empty();
        let mut i: usize = 0;
        while i < n
            invariant
                n == devices.len(),
                0 <= i <= n,
                recent.len() == i,
                ages.len() == i,
                recent@ == recents(ages),
                forall|j: int|
                    0 <= j < i ==> ((#[trigger] ages[j]) is Some <==> devices[j].gate.last_event is Some),
            decreases n - i,
        {
            let age = last_event_age(&devices[i].gate);
            let r = match age {
                Some(a) => is_recent(a),
                None => false,
            };
            recent.push(r);
            proof {
                ages = ages.push(age);
            }
            assert(recent@ =~= recents(ages));
            i += 1;
        }
        let ghost old_devices = devices@;
        let steps = self.service_at(now, &recent, devices);
        assert(gate_states(old_devices) == gate_states(old(devices)@));
        steps
    }

    /// Drop any grab before the device thread lets the devices go, so a
    /// shutdown mid-correction cannot strand them: `ungrab()` on each
    /// grabbed device exactly, every other device left alone.
    pub fn release_all<H: DeviceHandle>(&mut self, devices: &mut Vec<GatedDevice<H>>) -> (steps: Vec<
        PollStep,
    >)
        ensures
            final(devices).len() == old(devices).len(),
            steps@.len() == old(devices).len(),
            forall|i: int|
                0 <= i < old(devices).len() ==> if (#[trigger] old(devices)[i]).gate.grabbed {
                    steps@[i] == PollStep::Release && final(devices)[i].gate == (GateState {
                        grabbed: false,
                        ..old(devices)[i].gate
                    })
                } else {
                    steps@[i] == PollStep::Untouched && final(devices)[i] == old(devices)[i]
                },
            polled_handles(old(devices)@, final(devices)@, steps@),
            !final(self)@.want,
            final(self)@.available == old(self)@.available,
            final(self)@.epoch == old(self)@.epoch,
            final(self)@.deadline_ms == old(self)@.deadline_ms,
    {
        self.withdraw();
        let ghost mid = self@;
        let steps = self.service(devices);
        proof {
            let ages = choose|ages: Seq<Option<u64>>|
                {
                    &&& ages.len() == old(devices)@.len()
                    &&& forall|i: int|
                        0 <= i < ages.len() ==> ((#[trigger] ages[i]) is Some
                            <==> old(devices)[i].gate.last_event is Some)
                    &&& #[trigger] polled(
                        mid,
                        gate_states(old(devices)@),
                        self.clock(),
                        recents(ages),
                        self@,
                        gate_states(devices@),
                        steps@,
                    )
                };
            let os = gate_states(old(devices)@);
            let fs = gate_states(devices@);
            assert forall|i: int| 0 <= i < old(devices).len() implies if (#[trigger] old(devices)[i]).gate.grabbed {
                steps@[i] == PollStep::Release && devices[i].gate == (GateState {
                    grabbed: false,
                    ..old(devices)[i].gate
                })
            } else {
                steps@[i] == PollStep::Untouched && devices[i] == old(devices)[i]
            } by {
                assert(device_after_poll(false, mid.epoch, recents(ages)[i], os[i], fs[i], steps@[i]));
                assert(os[i] == old(devices)[i].gate);
                assert(fs[i] == devices[i].gate);
            }
        }
        steps
    }

    /// Mark the key gate available, as the probe would on a stack with no
    /// remapper in the way.
    pub fn mark_available_for_test(&mut self)
        ensures
            final(self)@ == (GateModel { available: true, ..old(self)@ }),
            final(self).clock() == old(self).clock(),
    {
        self.set_available(true);
    }

    /// Arm a hold for [`MAX_HOLD_MS`] from now, without a device-thread
    /// handshake.
    pub fn hold_for_test(&mut self)
        ensures
            final(self).clock() >= old(self).clock(),
            final(self)@ == armed(old(self)@, saturating(final(self).clock(), MAX_HOLD_MS)),
    {
        self.hold_expiring_for_test(MAX_HOLD_MS);
    }

    /// Arm a hold that lapses `within_ms` from now.
    pub fn hold_expiring_for_test(&mut self, within_ms: u64)
        ensures
            final(self).clock() >= old(self).clock(),
            final(self)@ == armed(old(self)@, saturating(final(self).clock(), within_ms)),
    {
        let now = self.now_ms();
        self.arm_until(now.saturating_add(within_ms));
    }

    pub fn want_release_for_test(&mut self)
        ensures
            final(self)@ == withdrawn(old(self)@),
            final(self).clock() == old(self).clock(),
    {
        self.withdraw();
    }

    pub fn is_held_for_test(&self) -> (r: bool)
        ensures
            r == self@.held,
    {
        self.held
    }
}

/// The watchdog: a poll that finds the hold past its deadline attempts no
/// grab, releases exactly the grabbed devices, leaves none held and
/// withdraws the request, however the engine behaves. (What those steps
/// are in syscalls is [`lemma_poll_syscalls`].)
pub proof fn lemma_poll_past_deadline_releases(
    g0: GateModel,
    s0: Seq<GateState>,
    now_ms: u64,
    recent: Seq<bool>,
    g1: GateModel,
    s1: Seq<GateState>,
    steps: Seq<PollStep>,
)
    requires
        polled(g0, s0, now_ms, recent, g1, s1, steps),
        now_ms >= g0.deadline_ms,
    ensures
        !g1.want,
        !any_grabbed(s1),
        forall|i: int|
            0 <= i < s0.len() ==> (#[trigger] steps[i] == PollStep::Release <==> s0[i].grabbed)
                && !(steps[i] is Attempt),
{
    assert forall|i: int| 0 <= i < s1.len() implies !(#[trigger] s1[i]).grabbed by {
        assert(device_after_poll(false, g0.epoch, recent[i], s0[i], s1[i], steps[i]));
    }
    assert forall|i: int| 0 <= i < s0.len() implies (#[trigger] steps[i] == PollStep::Release
        <==> s0[i].grabbed) && !(steps[i] is Attempt) by {
        assert(device_after_poll(false, g0.epoch, recent[i], s0[i], s1[i], steps[i]));
    }
}

/// `grab()` is only ever called while a hold is in force, and only on a
/// keyboard in recent use that is not held yet, not our own emitter and
/// not yet tried during this hold; a device only becomes held by a grab
/// that succeeded.
pub proof fn lemma_only_eligible_devices_grabbed(
    g0: GateModel,
    s0: Seq<GateState>,
    now_ms: u64,
    recent: Seq<bool>,
    g1: GateModel,
    s1: Seq<GateState>,
    steps: Seq<PollStep>,
    i: int,
)
    requires
        polled(g0, s0, now_ms, recent, g1, s1, steps),
        0 <= i < s0.len(),
    ensures
        steps[i] is Attempt <==> poll_wants(g0, now_ms) && eligible(s0[i], g0.epoch, recent[i]),
        steps[i] is Attempt ==> !s0[i].is_ours && s0[i].is_keyboard && recent[i] && !s0[i].grabbed,
        s1[i].grabbed && !s0[i].grabbed ==> steps[i] == (PollStep::Attempt { taken: true }),
        steps[i] is Release <==> !poll_wants(g0, now_ms) && s0[i].grabbed,
{
    assert(device_after_poll(poll_wants(g0, now_ms), g0.epoch, recent[i], s0[i], s1[i], steps[i]));
}

/// A request that is not armed never grabs anything: a gate that was
/// never available, or whose request was withdrawn, calls no `grab()`.
pub proof fn lemma_unarmed_gate_never_grabs(
    g0: GateModel,
    s0: Seq<GateState>,
    now_ms: u64,
    recent: Seq<bool>,
    g1: GateModel,
    s1: Seq<GateState>,
    steps: Seq<PollStep>,
)
    requires
        polled(g0, s0, now_ms, recent, g1, s1, steps),
        !g0.want,
    ensures
        forall|i: int| 0 <= i < s0.len() ==> !(#[trigger] steps[i] is Attempt),
        !any_grabbed(s1),
{
    assert forall|i: int| 0 <= i < s0.len() implies !(#[trigger] steps[i] is Attempt) && !s1[i].grabbed by {
        assert(device_after_poll(false, g0.epoch, recent[i], s0[i], s1[i], steps[i]));
    }
    if any_grabbed(s1) {
        let j = choose|j: int| 0 <= j < s1.len() && #[trigger] s1[j].grabbed;
        assert(device_after_poll(false, g0.epoch, recent[j], s0[j], s1[j], steps[j]));
    }
}

/// A busy device is tried once per hold: one whose `grab()` failed is
/// not tried again by the next poll of the same hold, so a refused grab
/// is never hammered every tick.
pub proof fn lemma_busy_device_tried_once(
    g0: GateModel,
    s0: Seq<GateState>,
    t1: u64,
    r1: Seq<bool>,
    g1: GateModel,
    s1: Seq<GateState>,
    p1: Seq<PollStep>,
    t2: u64,
    r2: Seq<bool>,
    g2: GateModel,
    s2: Seq<GateState>,
    p2: Seq<PollStep>,
    i: int,
)
    requires
        polled(g0, s0, t1, r1, g1, s1, p1),
        polled(g1, s1, t2, r2, g2, s2, p2),
        0 <= i < s0.len(),
        p1[i] == (PollStep::Attempt { taken: false }),
    ensures
        !(p2[i] is Attempt),
        s2[i] == s1[i] || (!poll_wants(g1, t2) && !s2[i].grabbed),
{
    assert(device_after_poll(poll_wants(g0, t1), g0.epoch, r1[i], s0[i], s1[i], p1[i]));
    assert(device_after_poll(poll_wants(g1, t2), g1.epoch, r2[i], s1[i], s2[i], p2[i]));
}

/// A poll that ends with no device grabbed leaves no request armed: the
/// correction learns it is unprotected instead of waiting on a hold
/// that is not there.
pub proof fn lemma_nothing_grabbed_withdraws(
    g0: GateModel,
    s0: Seq<GateState>,
    now_ms: u64,
    recent: Seq<bool>,
    g1: GateModel,
    s1: Seq<GateState>,
    steps: Seq<PollStep>,
)
    requires
        polled(g0, s0, now_ms, recent, g1, s1, steps),
        !any_grabbed(s1),
    ensures
        !g1.want,
        poll_wants(g0, now_ms) ==> !g1.held,
{
}

/// A poll never changes whether the key gate is available, its deadline or
/// its hold epoch.
pub proof fn lemma_poll_keeps_settings(
    g0: GateModel,
    s0: Seq<GateState>,
    now_ms: u64,
    recent: Seq<bool>,
    g1: GateModel,
    s1: Seq<GateState>,
    steps: Seq<PollStep>,
)
    requires
        polled(g0, s0, now_ms, recent, g1, s1, steps),
    ensures
        g1.available == g0.available,
        g1.deadline_ms == g0.deadline_ms,
        g1.epoch == g0.epoch,
{
}

/// Every fresh hold gives each device a new grab attempt: arming moves
/// the epoch on, so a device tried during the previous hold is eligible
/// again.
pub proof fn lemma_fresh_hold_retries(g: GateModel, deadline_ms: u64, s: GateState, recent: bool)
    requires
        s.tried_epoch == g.epoch,
        !s.grabbed,
        !s.is_ours,
        s.is_keyboard,
        recent,
    ensures
        eligible(s, armed(g, deadline_ms).epoch, recent),
{
    let e = g.epoch;
    assert(e.wrapping_add(1) != e) by (bit_vector);
}

/// The hold handshake reports a hold only once the device thread has
/// taken the grabs; on an unavailable gate it gives up at once and
/// touches nothing; and an armed request still untaken when its wait
/// ([`HOLD_HANDSHAKE_MS`]) runs out is withdrawn, so the correction
/// proceeds unheld and no grab follows it.
pub proof fn lemma_handshake_holds_only_when_taken(g: GateModel, phase: Handshake, now_ms: u64)
    ensures
        handshake_next(g, phase, now_ms).0 == Handshake::Held ==> phase == Handshake::Held || g.held,
        phase == Handshake::Start && !g.available ==> handshake_next(g, phase, now_ms) == (
        Handshake::Unheld,
        g,
        ),
        phase matches Handshake::Grabbing { until_ms } && now_ms >= until_ms ==> handshake_next(
            g,
            phase,
            now_ms,
        ).0 == Handshake::Unheld && !handshake_next(g, phase, now_ms).1.want,
{
}

/// What one poll does to a device's syscalls: exactly one `grab()` on a
/// device eligible while the hold is in force and none on any other;
/// exactly one `ungrab()` on each held device when no hold is in force
/// (released, withdrawn or past its deadline) and none otherwise; and a
/// device only becomes held by a `grab()` that succeeded.
pub proof fn lemma_poll_syscalls<H: DeviceHandle>(
    g0: GateModel,
    d0: Seq<GatedDevice<H>>,
    now_ms: u64,
    recent: Seq<bool>,
    g1: GateModel,
    d1: Seq<GatedDevice<H>>,
    steps: Seq<PollStep>,
    i: int,
)
    requires
        polled(g0, gate_states(d0), now_ms, recent, g1, gate_states(d1), steps),
        polled_handles(d0, d1, steps),
        0 <= i < d0.len(),
    ensures
        d1[i].handle.grabs() == if poll_wants(g0, now_ms) && eligible(d0[i].gate, g0.epoch, recent[i]) {
            d0[i].handle.grabs().wrapping_add(1)
        } else {
            d0[i].handle.grabs()
        },
        d1[i].handle.ungrabs() == if !poll_wants(g0, now_ms) && d0[i].gate.grabbed {
            d0[i].handle.ungrabs().wrapping_add(1)
        } else {
            d0[i].handle.ungrabs()
        },
        d1[i].gate.grabbed && !d0[i].gate.grabbed ==> d1[i].handle.grab_held(),
        poll_wants(g0, now_ms) && eligible(d0[i].gate, g0.epoch, recent[i]) ==> d1[i].gate.grabbed
            == d1[i].handle.grab_held(),
{
    let s0 = gate_states(d0);
    let s1 = gate_states(d1);
    assert(s0[i] == d0[i].gate);
    assert(s1[i] == d1[i].gate);
    assert(device_after_poll(poll_wants(g0, now_ms), g0.epoch, recent[i], s0[i], s1[i], steps[i]));
    assert(handle_after_step(d0[i].handle, d1[i].handle, steps[i]));
}

/// A busy device is grabbed once per hold, not once per poll: after a
/// `grab()` that failed, the next poll of the same hold makes no further
/// `grab()` on it.
pub proof fn lemma_busy_device_grabbed_once<H: DeviceHandle>(
    g0: GateModel,
    d0: Seq<GatedDevice<H>>,
    t1: u64,
    r1: Seq<bool>,
    g1: GateModel,
    d1: Seq<GatedDevice<H>>,
    p1: Seq<PollStep>,
    t2: u64,
    r2: Seq<bool>,
    g2: GateModel,
    d2: Seq<GatedDevice<H>>,
    p2: Seq<PollStep>,
    i: int,
)
    requires
        polled(g0, gate_states(d0), t1, r1, g1, gate_states(d1), p1),
        polled_handles(d0, d1, p1),
        polled(g1, gate_states(d1), t2, r2, g2, gate_states(d2), p2),
        polled_handles(d1, d2, p2),
        0 <= i < d0.len(),
        d1[i].handle.grabs() != d0[i].handle.grabs(),
        !d1[i].handle.grab_held(),
    ensures
        d1[i].handle.grabs() == d0[i].handle.grabs().wrapping_add(1),
        d2[i].handle.grabs() == d1[i].handle.grabs(),
        !d2[i].gate.grabbed,
{
    let s0 = gate_states(d0);
    let s1 = gate_states(d1);
    let s2 = gate_states(d2);
    assert(s0[i] == d0[i].gate);
    assert(s1[i] == d1[i].gate);
    assert(s2[i] == d2[i].gate);
    assert(device_after_poll(poll_wants(g0, t1), g0.epoch, r1[i], s0[i], s1[i], p1[i]));
    assert(handle_after_step(d0[i].handle, d1[i].handle, p1[i]));
    assert(device_after_poll(poll_wants(g1, t2), g1.epoch, r2[i], s1[i], s2[i], p2[i]));
    assert(handle_after_step(d1[i].handle, d2[i].handle, p2[i]));
}

} // verus!
