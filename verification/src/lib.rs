//! Core coordination logic of a line-based chat relay.
//!
//! The broker owns the peer registry and performs message fan-out, the
//! handler turns a client's input lines into events, and the shutdown
//! types model the fire-once cancellation signal. All routing decisions
//! are pure functions of the current state and the incoming event; the
//! surrounding process wires them to sockets and task queues.

pub mod message;
pub mod broker;
pub mod error;
pub mod event;
pub mod handler;
pub mod laws;
pub mod listener;
pub mod shutdown;
pub mod text;

pub use broker::Broker;
pub use error::ChatError;
pub use event::Event;
pub use handler::Handler;
pub use listener::Listener;
pub use message::Message;
pub use shutdown::Shutdown;
