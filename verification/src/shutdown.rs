//! The fire-once shutdown signal and its per-connection subscribers.
//!
//! One signal is created per server run. Firing it is idempotent, and a
//! subscriber that has observed it stays in the observed state for the
//! rest of its life; further waits return at once.

use vstd::prelude::*;

verus! {

/// The state a firing always produces, whatever the signal held before:
/// firing is idempotent.
pub open spec fn spec_fire(s: ShutdownSignal) -> ShutdownSignal {
    ShutdownSignal { fired: true }
}

/// The sending side of the shutdown broadcast: a fire-once flag.
pub struct ShutdownSignal {
    pub fired: bool,
}

impl ShutdownSignal {
    /// A fresh signal that has not fired.
    pub fn new() -> (s: ShutdownSignal)
        ensures
            !s.fired,
    {
        ShutdownSignal { fired: false }
    }

    /// Fire the signal. Firing an already-fired signal changes nothing:
    /// subscribers can never tell how often it was fired.
    pub fn fire(&mut self)
        ensures
            *final(self) == spec_fire(*old(self)),
    {
        self.fired = true;
    }

    pub fn is_fired(&self) -> (b: bool)
        ensures
            b == self.fired,
    {
        self.fired
    }
}

/// Firing the signal twice produces exactly the state one firing
/// produces: no subscriber can observe a difference.
pub proof fn lemma_fire_idempotent(s: ShutdownSignal)
    ensures
        spec_fire(spec_fire(s)) == spec_fire(s),
        spec_fire(s).fired,
{
}

/// One subscriber's view of the shutdown signal.
///
/// `shutdown` records that the signal has been observed; once true it
/// never becomes false again, and [`Shutdown::recv`] returns immediately
/// thereafter.
pub struct Shutdown {
    pub shutdown: bool,
}

impl Shutdown {
    /// A fresh subscriber that has not yet observed the signal.
    pub fn new() -> (s: Shutdown)
        ensures
            !s.shutdown,
    {
        Shutdown { shutdown: false }
    }

    /// Whether the shutdown signal has been observed.
    pub fn is_shutdown(&self) -> (b: bool)
        ensures
            b == self.shutdown,
    {
        self.shutdown
    }

    /// Observe the shutdown notice. A wait on the signal returns only
    /// once the signal has fired, so this requires the signal to have
    /// fired unless the subscriber has already observed it; afterwards
    /// the subscriber is permanently in the observed state.
    pub fn recv(&mut self, signal: &ShutdownSignal)
        requires
            old(self).shutdown || signal.fired,
        ensures
            *final(self) == (Shutdown { shutdown: true }),
    {
        self.shutdown = true;
    }
}

} // verus!
