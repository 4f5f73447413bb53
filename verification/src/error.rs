//! The library's error taxonomy.

use vstd::prelude::*;

verus! {

/// What can go wrong around one connection.
///
/// `PeerDisconnectedError` is reported only when the very first line (the
/// peer's name) never arrives, so callers can tell "never joined" from
/// "left after joining". `IOError` stands for a failed transport read or
/// write; it is fatal to that one connection only. `TelemetryError` is
/// reported by the process bootstrap when logging cannot be installed.
#[derive(Debug, Clone, Copy, PartialEq, Eq, Structural)]
pub enum ChatError {
    TelemetryError,
    IOError,
    PeerDisconnectedError,
}

impl ChatError {
    /// A short human-readable description of the error.
    pub fn describe(&self) -> (s: &'static str)
        ensures
            *self is PeerDisconnectedError ==> s@ == "Peer disconnected immediately"@,
            *self is IOError ==> s@ == "I/O error on the connection"@,
            *self is TelemetryError ==> s@ == "telemetry setup failed"@,
    {
        match self {
            ChatError::TelemetryError => "telemetry setup failed",
            ChatError::IOError => "I/O error on the connection",
            ChatError::PeerDisconnectedError => "Peer disconnected immediately",
        }
    }
}

} // verus!
