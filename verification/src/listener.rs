//! The accept loop's decision logic.
//!
//! The surrounding process waits on three things at once — a new
//! connection, an external interrupt, and the shutdown acknowledgment —
//! and feeds whichever resolves first to [`Listener::on_wake`]; the
//! returned action says whether to wire up a fresh handler and keep
//! accepting, or to leave the loop and let in-flight tasks finish.

use vstd::prelude::*;

verus! {

/// What woke the accept loop.
pub enum ListenerWake {
    /// A new transport connection was accepted.
    Incoming,
    /// An external interrupt was observed.
    Interrupted,
    /// The shutdown signal was acknowledged.
    ShutdownObserved,
}

/// What the accept loop must do next.
pub enum ListenerAction {
    /// Split the connection, subscribe a fresh shutdown handle, and
    /// spawn a handler bound to a clone of the event queue's sender.
    SpawnHandler,
    /// Leave the accept loop; running tasks finish on their own.
    Stop,
}

/// The accept loop's state: whether it is still taking connections.
pub struct Listener {
    pub accepting: bool,
}

impl Listener {
    /// A listener that is accepting connections.
    pub fn new() -> (l: Listener)
        ensures
            l.accepting,
    {
        Listener { accepting: true }
    }

    /// Decide on one wake-up: a new connection gets a handler while the
    /// loop is accepting; an interrupt or the shutdown acknowledgment
    /// stops it for good.
    pub fn on_wake(&mut self, wake: ListenerWake) -> (a: ListenerAction)
        ensures
            wake is Incoming && old(self).accepting ==> a is SpawnHandler && final(self).accepting,
            wake is Incoming && !old(self).accepting ==> a is Stop && !final(self).accepting,
            wake is Interrupted || wake is ShutdownObserved ==> a is Stop && !final(self).accepting,
    {
        match wake {
            ListenerWake::Incoming => {
                if self.accepting {
                    ListenerAction::SpawnHandler
                } else {
                    ListenerAction::Stop
                }
            },
            ListenerWake::Interrupted => {
                self.accepting = false;
                ListenerAction::Stop
            },
            ListenerWake::ShutdownObserved => {
                self.accepting = false;
                ListenerAction::Stop
            },
        }
    }
}

} // verus!
