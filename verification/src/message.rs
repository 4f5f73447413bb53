//! The immutable chat message value: a sender name and a text body.

use vstd::prelude::*;
use vstd::string::StringExecFns;

verus! {

/// What a message looks like on the wire: `<from>: <text>` followed by a
/// newline. Every line a peer receives has exactly this shape.
pub open spec fn render_spec(from: Seq<char>, text: Seq<char>) -> Seq<char> {
    from + ": "@ + text + "\n"@
}

/// An immutable chat message: who sent it and what it says.
#[derive(Debug)]
pub struct Message {
    pub from: String,
    pub text: String,
}

impl Message {
    pub fn new(from: String, text: String) -> (m: Message)
        ensures
            m.from@ == from@,
            m.text@ == text@,
    {
        Message { from, text }
    }

    /// The line transmitted to a recipient of this message, newline included.
    pub fn render_line(&self) -> (line: String)
        ensures
            line@ == render_spec(self.from@, self.text@),
    {
        let mut line = self.from.clone();
        line.append(": ");
        line.append(self.text.as_str());
        line.append("\n");
        line
    }
}

} // verus!
