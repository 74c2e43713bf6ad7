//! `KeyGate` — the "hold the user's keystrokes back while we type" seam.
//!
//! Everything we inject travels the same path to the compositor as
//! everything the user types, so a key pressed while a correction burst
//! is on the wire lands inside our text. A gate holds the user's keys
//! back for the length of the burst; held keys still reach the engine,
//! which replays them behind the correction.
//!
//! A gate without a backend is a no-op: callers must treat `hold`
//! returning `false` as normal and stay correct without it.

use vstd::prelude::*;

verus! {

/// A request made of a gate backend.
#[derive(Debug, Clone, Copy, PartialEq, Eq)]
pub enum GateCall {
    Hold,
    Release,
}

/// What a platform gate offers: whether it can hold at all, a hold that
/// reports whether it took, and a release. Its model is whether it can
/// hold, whether a hold is in force, and the requests made of it so far.
/// [`HookGate`](crate::hold::HookGate) is the backend on hook platforms.
pub trait GateBackend {
    /// Whether this backend can hold keys at all right now.
    spec fn can_hold(&self) -> bool;

    /// Whether a hold is in force.
    spec fn holding(&self) -> bool;

    /// The hold and release requests made of this backend, oldest first.
    spec fn calls(&self) -> Seq<GateCall>;

    fn available(&self) -> (r: bool)
        ensures
            r == self.can_hold(),
    ;

    /// Returns whether the hold is in force; never on a backend that
    /// cannot hold.
    fn hold(&mut self) -> (r: bool)
        ensures
            r == final(self).holding(),
            r ==> old(self).can_hold(),
            final(self).can_hold() == old(self).can_hold(),
            final(self).calls() == old(self).calls().push(GateCall::Hold),
    ;

    fn release(&mut self)
        ensures
            !final(self).holding(),
            final(self).can_hold() == old(self).can_hold(),
            final(self).calls() == old(self).calls().push(GateCall::Release),
    ;
}

/// Holds physical keystrokes back from applications for a correction
/// burst, when a platform backend is there to do it.
#[derive(Clone, Default)]
pub struct KeyGate<B> {
    inner: Option<B>,
}

impl<B> KeyGate<B> {
    /// The backend behind this gate, if any.
    pub closed spec fn backend_spec(&self) -> Option<B> {
        self.inner
    }

    /// Whether this gate has no backend behind it.
    pub open spec fn is_disabled(&self) -> bool {
        self.backend_spec() is None
    }

    /// A gate that does nothing — the default on platforms without an
    /// implementation, and what tests use.
    pub fn disabled() -> (g: Self)
        ensures
            g.backend_spec() is None,
    {
        KeyGate { inner: None }
    }

    /// A gate backed by a platform implementation.
    pub fn with_backend(backend: B) -> (g: Self)
        ensures
            g.backend_spec() == Some(backend),
    {
        KeyGate { inner: Some(backend) }
    }

    /// The backend, for the listener that shares it.
    pub fn backend(&self) -> (r: Option<&B>)
        ensures
            match r {
                Some(b) => self.backend_spec() == Some(*b),
                None => self.backend_spec() is None,
            },
    {
        match &self.inner {
            Some(b) => Some(b),
            None => None,
        }
    }
}

impl<B: GateBackend> KeyGate<B> {
    /// Whether the backend can hold keys; a gate without one never can.
    pub open spec fn can_hold_now(&self) -> bool {
        match self.backend_spec() {
            Some(b) => b.can_hold(),
            None => false,
        }
    }

    /// Whether a hold is in force; never on a gate without a backend.
    pub open spec fn holding_now(&self) -> bool {
        match self.backend_spec() {
            Some(b) => b.holding(),
            None => false,
        }
    }

    /// The requests made of the backend so far; none on a gate without one.
    pub open spec fn calls_now(&self) -> Seq<GateCall> {
        match self.backend_spec() {
            Some(b) => b.calls(),
            None => Seq::empty(),
        }
    }

    /// Can this gate actually hold keys? Only meaningful once the
    /// listener has started.
    pub fn available(&self) -> (r: bool)
        ensures
            r == self.can_hold_now(),
    {
        match &self.inner {
            Some(g) => g.available(),
            None => false,
        }
    }

    /// Hold the user's keystrokes back: asks the backend once. Returns
    /// whether the hold is in force — `false` means carry on unprotected.
    /// A gate without a backend answers `false` and stays as it is.
    pub fn hold(&mut self) -> (r: bool)
        ensures
            r == final(self).holding_now(),
            r ==> old(self).can_hold_now(),
            final(self).can_hold_now() == old(self).can_hold_now(),
            final(self).is_disabled() == old(self).is_disabled(),
            old(self).is_disabled() ==> *final(self) == *old(self),
            !old(self).is_disabled() ==> final(self).calls_now() == old(self).calls_now().push(
                GateCall::Hold,
            ),
    {
        match &mut self.inner {
            Some(g) => g.hold(),
            None => false,
        }
    }

    /// Let the user's keystrokes through again: asks the backend once.
    /// Idempotent.
    pub fn release(&mut self)
        ensures
            gate_released(*old(self), *final(self)),
    {
        match &mut self.inner {
            Some(g) => g.release(),
            None => {},
        }
    }
}

/// A release of the key gate from `old` to `new`: nothing is held
/// afterwards, whether a hold can be taken is unchanged, and the backend
/// was asked once to release; a gate without a backend stays as it is.
pub open spec fn gate_released<B: GateBackend>(old: KeyGate<B>, new: KeyGate<B>) -> bool {
    &&& !new.holding_now()
    &&& new.can_hold_now() == old.can_hold_now()
    &&& new.is_disabled() == old.is_disabled()
    &&& old.is_disabled() ==> new == old
    &&& !old.is_disabled() ==> new.calls_now() == old.calls_now().push(GateCall::Release)
}

/// A guard's release, from an active flag and key gate to the next: the
/// guard is inactive afterwards; an active guard releases the key gate
/// once, an inactive one leaves it alone.
pub open spec fn guard_released<B: GateBackend>(
    was_active: bool,
    old: KeyGate<B>,
    is_active: bool,
    new: KeyGate<B>,
) -> bool {
    &&& !is_active
    &&& was_active ==> gate_released(old, new)
    &&& !was_active ==> new == old
}

/// Releasing the key gate is idempotent: after a second release nothing
/// is held and a hold can be taken exactly when it could before either.
pub proof fn lemma_gate_release_idempotent<B: GateBackend>(
    g0: KeyGate<B>,
    g1: KeyGate<B>,
    g2: KeyGate<B>,
)
    requires
        gate_released(g0, g1),
        gate_released(g1, g2),
    ensures
        !g2.holding_now(),
        g2.can_hold_now() == g0.can_hold_now(),
        g2.is_disabled() == g0.is_disabled(),
{
}

/// However often a guard taken active is released, the backend is asked
/// to release exactly once: every release after the first leaves the key
/// gate as the first left it.
pub proof fn lemma_guard_releases_once<B: GateBackend>(
    g0: KeyGate<B>,
    a1: bool,
    g1: KeyGate<B>,
    a2: bool,
    g2: KeyGate<B>,
)
    requires
        guard_released(true, g0, a1, g1),
        guard_released(a1, g1, a2, g2),
    ensures
        g2 == g1,
        !g2.holding_now(),
        !g0.is_disabled() ==> g2.calls_now() == g0.calls_now().push(GateCall::Release),
        g0.is_disabled() ==> g2 == g0,
{
}

/// A hold on the user's keyboard for the length of one emission burst.
/// `active()` reports whether the hold took; callers must stay correct
/// when it did not. The backend enforces its own ceiling, so a hold
/// nobody releases cannot leave the keyboard dead.
pub struct HeldKeys {
    active: bool,
}

impl HeldKeys {
    pub closed spec fn is_active(&self) -> bool {
        self.active
    }

    /// Ask the key gate to hold, once. The guard is active exactly when
    /// that hold took.
    pub fn acquire<B: GateBackend>(gate: &mut KeyGate<B>) -> (h: Self)
        ensures
            h.is_active() == final(gate).holding_now(),
            h.is_active() ==> old(gate).can_hold_now(),
            final(gate).can_hold_now() == old(gate).can_hold_now(),
            final(gate).is_disabled() == old(gate).is_disabled(),
            old(gate).is_disabled() ==> *final(gate) == *old(gate),
            !old(gate).is_disabled() ==> final(gate).calls_now() == old(gate).calls_now().push(
                GateCall::Hold,
            ),
    {
        let active = gate.hold();
        HeldKeys { active }
    }

    pub fn active(&self) -> (r: bool)
        ensures
            r == self.is_active(),
    {
        self.active
    }

    /// Let the user's keys through again before the guard goes away.
    /// Idempotent: an active hold is released once, through the key gate it
    /// was taken on; an inactive guard leaves the key gate alone.
    pub fn release<B: GateBackend>(&mut self, gate: &mut KeyGate<B>)
        ensures
            guard_released(old(self).is_active(), *old(gate), final(self).is_active(), *final(gate)),
    {
        if self.active {
            gate.release();
            self.active = false;
        }
    }
}

} // verus!
