//! The hook-based key gate's decision: whether to swallow a keystroke.
//!
//! The Windows hook callback and the macOS event-tap callback each do
//! nothing but read an event's flags and ask [`HoldState::swallow`].
//!
//! A dead or hung process cannot hold the keyboard on those platforms —
//! the OS removes the hook with it. That leaves one dangerous shape: a
//! healthy process that asks for a hold and never releases it. The
//! deadline is the answer, and it is checked inside the decision, so
//! the very next keystroke after expiry clears the hold and passes
//! through.

use std::time::Instant;
use vstd::prelude::*;

use crate::clock::{elapsed_ms, instant_now};
use crate::key_gate::{GateBackend, GateCall};

verus! {

/// Ceiling on one hold, matching the evdev gate's.
pub const MAX_HOLD_MS: u64 = 1200;

/// The hold as plain values.
pub struct HoldModel {
    /// The engine wants the user's keys held right now.
    pub want: bool,
    /// Milliseconds since the origin past which the hold is void.
    pub deadline_ms: u64,
}

pub struct HoldState {
    want: bool,
    deadline_ms: u64,
    origin: Instant,
}

impl View for HoldState {
    type V = HoldModel;

    closed spec fn view(&self) -> HoldModel {
        HoldModel { want: self.want, deadline_ms: self.deadline_ms }
    }
}

/// Whether a keystroke is kept from the focused application: only a
/// foreign keystroke, only while a hold is asked for, and only before
/// its deadline (the deadline itself is expiry).
pub open spec fn swallows(h: HoldModel, ours: bool, now_ms: u64) -> bool {
    !ours && h.want && now_ms < h.deadline_ms
}

/// The hold after one decision: a foreign keystroke that finds the hold
/// past its deadline clears it for good.
pub open spec fn after_decision(h: HoldModel, ours: bool, now_ms: u64) -> HoldModel {
    if !ours && h.want && now_ms >= h.deadline_ms {
        HoldModel { want: false, deadline_ms: h.deadline_ms }
    } else {
        h
    }
}

/// `now_ms + span_ms`, stopping at `u64::MAX`.
pub open spec fn saturating_deadline(now_ms: u64, span_ms: u64) -> u64 {
    if now_ms + span_ms > u64::MAX {
        u64::MAX
    } else {
        (now_ms + span_ms) as u64
    }
}

pub open spec fn released(h: HoldModel) -> HoldModel {
    HoldModel { want: false, deadline_ms: h.deadline_ms }
}

impl Default for HoldState {
    fn default() -> (h: Self)
        ensures
            h@ == (HoldModel { want: false, deadline_ms: 0 }),
    {
        HoldState::new()
    }
}

impl HoldState {
    pub fn new() -> (h: Self)
        ensures
            h@ == (HoldModel { want: false, deadline_ms: 0 }),
    {
        HoldState { want: false, deadline_ms: 0, origin: instant_now() }
    }

    /// Milliseconds since the state was built.
    pub fn now_ms(&self) -> u64 {
        elapsed_ms(&self.origin)
    }

    /// Start holding for [`MAX_HOLD_MS`] from now. There is no handshake
    /// to wait for: the decision is taken per event, so the store is the
    /// hold taking effect.
    pub fn hold(&mut self)
        ensures
            exists|now_ms: u64|
                final(self)@ == (HoldModel {
                    want: true,
                    deadline_ms: #[trigger] saturating_deadline(now_ms, MAX_HOLD_MS),
                }),
    {
        let now = self.now_ms();
        self.hold_until(now.saturating_add(MAX_HOLD_MS));
        assert(self@.deadline_ms == saturating_deadline(now, MAX_HOLD_MS));
    }

    /// Hold until `deadline_ms`, replacing any earlier deadline: a
    /// second correction gets its own full window.
    pub fn hold_until(&mut self, deadline_ms: u64)
        ensures
            final(self)@ == (HoldModel { want: true, deadline_ms }),
    {
        self.deadline_ms = deadline_ms;
        self.want = true;
    }

    /// Let the user's keys through again. Idempotent.
    pub fn release(&mut self)
        ensures
            final(self)@ == released(old(self)@),
    {
        self.want = false;
    }

    pub fn is_holding(&self) -> (r: bool)
        ensures
            r == self@.want,
    {
        self.want
    }

    /// Should this keystroke be kept from the focused application?
    /// `ours` is true for events we synthesised: swallowing those would
    /// keep the correction itself from reaching the application.
    pub fn swallow(&mut self, ours: bool, now_ms: u64) -> (r: bool)
        ensures
            r == swallows(old(self)@, ours, now_ms),
            final(self)@ == after_decision(old(self)@, ours, now_ms),
    {
        if ours {
            return false;
        }
        if !self.want {
            return false;
        }
        if now_ms >= self.deadline_ms {
            self.want = false;
            return false;
        }
        true
    }
}

/// The key gate on hook platforms (a low-level keyboard hook, an event
/// tap): the swallow decision of [`HoldState`], plus whether the key gate is
/// switched on at all and whether the hook is there to do the swallowing.
/// The engine must never believe keys are held when nothing listens, so
/// a hold is in force only while the key gate is on and the hook runs.
pub struct HookGate {
    state: HoldState,
    enabled: bool,
    hook_running: bool,
    requests: Ghost<Seq<GateCall>>,
}

impl HookGate {
    /// The hold behind the key gate.
    pub closed spec fn hold_model(&self) -> HoldModel {
        self.state@
    }

    /// Whether the key gate is switched on.
    pub closed spec fn is_enabled(&self) -> bool {
        self.enabled
    }

    /// Whether the hook reported itself running.
    pub closed spec fn is_hook_running(&self) -> bool {
        self.hook_running
    }

    /// A gate with no hook running yet; `enabled` is the user's switch.
    pub fn new(enabled: bool) -> (g: Self)
        ensures
            g.hold_model() == (HoldModel { want: false, deadline_ms: 0 }),
            g.is_enabled() == enabled,
            !g.is_hook_running(),
            g.calls() == Seq::<GateCall>::empty(),
    {
        HookGate { state: HoldState::new(), enabled, hook_running: false, requests: Ghost(Seq::empty()) }
    }

    /// Whether a hold is in force.
    pub fn is_holding(&self) -> (r: bool)
        ensures
            r == self.holding(),
    {
        self.enabled && self.hook_running && self.state.is_holding()
    }

    /// Whether the hook should be installed able to swallow: the key gate is
    /// switched on. Availability also needs the hook running.
    pub fn wants_active_hook(&self) -> (r: bool)
        ensures
            r == self.is_enabled(),
    {
        self.enabled
    }

    /// Called from the hook, once per keystroke, at the hold's own clock:
    /// should this keystroke be kept from the focused application?
    pub fn swallow(&mut self, ours: bool) -> (r: bool)
        ensures
            exists|now_ms: u64|
                r == swallows(old(self).hold_model(), ours, now_ms) && final(self).hold_model()
                    == #[trigger] after_decision(old(self).hold_model(), ours, now_ms),
            final(self).is_enabled() == old(self).is_enabled(),
            final(self).is_hook_running() == old(self).is_hook_running(),
            final(self).calls() == old(self).calls(),
    {
        let now = self.state.now_ms();
        let r = self.state.swallow(ours, now);
        assert(self.hold_model() == after_decision(old(self).hold_model(), ours, now));
        r
    }

    /// The hook reports its lifecycle here. When it stops nothing can
    /// swallow, so any armed hold is cleared: the next correction must
    /// not think keys are held while they reach applications.
    pub fn set_hook_running(&mut self, running: bool)
        ensures
            final(self).is_hook_running() == running,
            final(self).is_enabled() == old(self).is_enabled(),
            final(self).hold_model() == if running {
                old(self).hold_model()
            } else {
                released(old(self).hold_model())
            },
            final(self).calls() == old(self).calls(),
    {
        self.hook_running = running;
        if !running {
            self.state.release();
        }
    }
}

impl GateBackend for HookGate {
    open spec fn can_hold(&self) -> bool {
        self.is_enabled() && self.is_hook_running()
    }

    open spec fn holding(&self) -> bool {
        self.can_hold() && self.hold_model().want
    }

    closed spec fn calls(&self) -> Seq<GateCall> {
        self.requests@
    }

    fn available(&self) -> (r: bool) {
        self.enabled && self.hook_running
    }

    /// Holds for [`MAX_HOLD_MS`] when the key gate can hold; otherwise
    /// leaves the hold alone and answers `false`.
    fn hold(&mut self) -> (r: bool)
        ensures
            old(self).can_hold() ==> r && final(self).hold_model().want,
            !old(self).can_hold() ==> final(self).hold_model() == old(self).hold_model(),
    {
        self.requests = Ghost(self.requests@.push(GateCall::Hold));
        if !(self.enabled && self.hook_running) {
            return false;
        }
        self.state.hold();
        true
    }

    fn release(&mut self)
        ensures
            final(self).hold_model() == released(old(self).hold_model()),
    {
        self.requests = Ghost(self.requests@.push(GateCall::Release));
        self.state.release();
    }
}

/// Our own keystrokes always pass and never disturb the hold: the
/// correction must reach the application.
pub proof fn lemma_own_keystrokes_pass(h: HoldModel, now_ms: u64)
    ensures
        !swallows(h, true, now_ms),
        after_decision(h, true, now_ms) == h,
{
}

/// The deadline is a hard stop: from the deadline on nothing is
/// swallowed, and the first foreign keystroke there clears the hold,
/// after which nothing is swallowed at any time.
pub proof fn lemma_deadline_is_final(h: HoldModel, now_ms: u64, later_ms: u64, ours: bool)
    requires
        now_ms >= h.deadline_ms,
    ensures
        !swallows(h, ours, now_ms),
        !after_decision(h, false, now_ms).want,
        !swallows(after_decision(h, false, now_ms), ours, later_ms),
{
}

/// A hold in force swallows every foreign keystroke before its
/// deadline and stays in force.
pub proof fn lemma_hold_swallows_until_deadline(h: HoldModel, now_ms: u64)
    requires
        h.want,
        now_ms < h.deadline_ms,
    ensures
        swallows(h, false, now_ms),
        after_decision(h, false, now_ms) == h,
{
}

/// Releasing lets every keystroke through, and releasing twice is
/// releasing once.
pub proof fn lemma_release_lets_all_through(h: HoldModel, ours: bool, now_ms: u64)
    ensures
        !swallows(released(h), ours, now_ms),
        released(released(h)) == released(h),
{
}

} // verus!
