//! The per-connection actor, as a pure state machine.
//!
//! The handler walks `AwaitingName -> Active -> Terminated`. The
//! surrounding connection task performs the reads and the race against
//! the shutdown signal, and feeds each outcome to the step functions
//! here; every event the connection produces, and the state it moves
//! to, is decided by these functions alone. A terminated handler has no
//! step left, so it can never produce another event.

use vstd::prelude::*;

use crate::error::ChatError;
use crate::event::{parse_line_spec, Event, EventView};

verus! {

/// Where the handler stands in its life cycle.
pub enum HandlerPhase {
    /// Waiting for the peer's first line, its display name.
    AwaitingName,
    /// Named and relaying lines as events.
    Active,
    /// Done: disconnected, failed, or shut down. No further events.
    Terminated,
}

/// What one attempted read of the connection produced.
pub enum ReadOutcome {
    /// A full line arrived.
    Line(String),
    /// The peer closed the connection cleanly.
    Eof,
    /// The transport failed.
    Failed,
}

/// What the race between reading a line and waiting for shutdown
/// resolved to first.
pub enum RaceOutcome {
    Received(ReadOutcome),
    ShutdownNotice,
}

/// The per-connection actor: turns one client's line stream into events.
pub struct Handler {
    pub phase: HandlerPhase,
    pub name: Option<String>,
}

impl Handler {
    /// A handler for a freshly accepted connection, waiting for the
    /// peer's name.
    pub fn new() -> (h: Handler)
        ensures
            h.phase is AwaitingName,
            h.name is None,
    {
        Handler { phase: HandlerPhase::AwaitingName, name: None }
    }

    /// React to the first read: the line is the peer's display name and
    /// yields the `NewPeer` event that carries the connection's outbound
    /// write handle to the broker. An empty stream means the peer never
    /// joined; a transport failure ends the connection.
    pub fn on_name(&mut self, outcome: ReadOutcome, outbound: u64) -> (r: Result<
        Option<Event>,
        ChatError,
    >)
        requires
            old(self).phase is AwaitingName,
        ensures
            outcome matches ReadOutcome::Line(name) ==> {
                &&& final(self).phase is Active
                &&& final(self).name matches Some(n) && n@ == name@
                &&& r matches Ok(Some(e)) && e@ == (EventView::NewPeer {
                    name: name@,
                    outbound,
                })
            },
            outcome is Eof ==> {
                &&& final(self).phase is Terminated
                &&& r matches Err(err) && err is PeerDisconnectedError
            },
            outcome is Failed ==> {
                &&& final(self).phase is Terminated
                &&& r matches Err(err) && err is IOError
            },
    {
        match outcome {
            ReadOutcome::Line(name) => {
                self.phase = HandlerPhase::Active;
                self.name = Some(name.clone());
                Ok(Some(Event::NewPeer { name, outbound }))
            },
            ReadOutcome::Eof => {
                self.phase = HandlerPhase::Terminated;
                Err(ChatError::PeerDisconnectedError)
            },
            ReadOutcome::Failed => {
                self.phase = HandlerPhase::Terminated;
                Err(ChatError::IOError)
            },
        }
    }

    /// React to one round of the read-or-shutdown race while active.
    ///
    /// A shutdown notice terminates the handler at once and discards any
    /// partial input; a full line is classified by the parser and keeps
    /// the handler active, the literal `shutdown` line included; end of
    /// stream terminates it cleanly; a transport failure terminates it
    /// and surfaces the error.
    pub fn on_race(&mut self, outcome: RaceOutcome) -> (r: Result<Option<Event>, ChatError>)
        requires
            old(self).phase is Active,
            old(self).name is Some,
        ensures
            outcome is ShutdownNotice ==> {
                &&& final(self).phase is Terminated
                &&& r matches Ok(e) && e is None
            },
            outcome matches RaceOutcome::Received(ReadOutcome::Line(l)) ==> {
                &&& final(self).phase is Active
                &&& final(self).name == old(self).name
                &&& r matches Ok(Some(e)) && e@ == parse_line_spec(old(self).name->0@, l@)
            },
            (outcome matches RaceOutcome::Received(o) && o is Eof) ==> {
                &&& final(self).phase is Terminated
                &&& r matches Ok(e) && e is None
            },
            (outcome matches RaceOutcome::Received(o) && o is Failed) ==> {
                &&& final(self).phase is Terminated
                &&& r matches Err(err) && err is IOError
            },
    {
        match outcome {
            RaceOutcome::ShutdownNotice => {
                self.phase = HandlerPhase::Terminated;
                Ok(None)
            },
            RaceOutcome::Received(ReadOutcome::Line(l)) => {
                let name = match &self.name {
                    Some(n) => n.clone(),
                    None => String::new(),
                };
                Ok(Some(Event::from_line(name, l)))
            },
            RaceOutcome::Received(ReadOutcome::Eof) => {
                self.phase = HandlerPhase::Terminated;
                Ok(None)
            },
            RaceOutcome::Received(ReadOutcome::Failed) => {
                self.phase = HandlerPhase::Terminated;
                Err(ChatError::IOError)
            },
        }
    }
}

} // verus!
