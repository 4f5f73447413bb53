//! Events a connection handler reports to the broker, and the parser that
//! classifies a raw input line into one.

use vstd::prelude::*;
use vstd::string::StrSliceExecFns;

use crate::message::Message;
use crate::text::{find_char, find_spec, split_trim_commas, split_trim_spec, trim, trim_spec};

verus! {

/// Mathematical image of an [`Event`]: strings become character sequences.
#[verifier::ext_equal]
pub enum EventView {
    NewPeer { name: Seq<char>, outbound: u64 },
    DirectMessage { from: Seq<char>, text: Seq<char>, to: Seq<Seq<char>> },
    BroadcastMessage { from: Seq<char>, text: Seq<char> },
    Shutdown,
}

/// A unit of work a handler hands to the broker.
///
/// `NewPeer` carries the identifier of the connection's outbound write
/// handle; ownership of that handle passes to the broker with the event,
/// and the handler never touches it again.
#[derive(Debug)]
pub enum Event {
    NewPeer { name: String, outbound: u64 },
    DirectMessage { message: Message, to: Vec<String> },
    BroadcastMessage(Message),
    Shutdown,
}

impl View for Event {
    type V = EventView;

    open spec fn view(&self) -> EventView {
        match self {
            Event::NewPeer { name, outbound } => EventView::NewPeer {
                name: name@,
                outbound: *outbound,
            },
            Event::DirectMessage { message, to } => EventView::DirectMessage {
                from: message.from@,
                text: message.text@,
                to: to@.map_values(|t: String| t@),
            },
            Event::BroadcastMessage(message) => EventView::BroadcastMessage {
                from: message.from@,
                text: message.text@,
            },
            Event::Shutdown => EventView::Shutdown,
        }
    }
}

/// What a raw input line from the peer named `name` means.
///
/// The literal line `shutdown` requests a server-wide shutdown. Otherwise
/// the line is split at its first `:`; with a left side present, the left
/// side names the recipients (comma-separated, each trimmed) and the
/// trimmed right side is the text of a direct message; with no `:` at all
/// the trimmed line is the text of a broadcast.
pub open spec fn parse_line_spec(name: Seq<char>, line: Seq<char>) -> EventView {
    if line == "shutdown"@ {
        EventView::Shutdown
    } else {
        match find_spec(line, ':') {
            None => EventView::BroadcastMessage { from: name, text: trim_spec(line) },
            Some(i) => EventView::DirectMessage {
                from: name,
                text: trim_spec(line.subrange(i + 1, line.len() as int)),
                to: split_trim_spec(line.subrange(0, i), ','),
            },
        }
    }
}

impl Event {
    /// Classify one raw input line from the peer named `name`.
    pub fn from_line(name: String, line: String) -> (e: Event)
        ensures
            e@ == parse_line_spec(name@, line@),
    {
        let shutdown_word: String = "shutdown".to_owned();
        if line == shutdown_word {
            return Event::Shutdown;
        }
        match find_char(line.as_str(), ':') {
            Some(i) => {
                proof {
                    crate::text::lemma_find_spec(line@, ':');
                }
                let n = line.as_str().unicode_len();
                let text = trim(line.as_str().substring_char(i + 1, n)).to_owned();
                let to = split_trim_commas(line.as_str().substring_char(0, i));
                Event::DirectMessage { message: Message::new(name, text), to }
            },
            None => {
                let text = trim(line.as_str()).to_owned();
                Event::BroadcastMessage(Message::new(name, text))
            },
        }
    }
}

} // verus!
