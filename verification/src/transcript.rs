//! How the messages of the merged stream read as lines of text. The first
//! message to arrive is taken for a name, and every later message is shown as
//! said under that name.

use crate::incoming_message::IncomingMessage;
use vstd::prelude::*;
use vstd::string::*;
use vstd::utf8::{decode_utf8, valid_utf8};

verus! {

/// The text of a payload: what it spells as UTF-8, or a placeholder where it
/// is not UTF-8.
pub open spec fn text_of(content: Seq<u8>) -> Seq<char> {
    if valid_utf8(content) {
        decode_utf8(content)
    } else {
        "<invalid utf8>"@
    }
}

/// The line that tells that the sender `from` goes by `name`.
pub open spec fn announcement(from: Seq<char>, name: Seq<char>) -> Seq<char> {
    "["@ + from + "] is now known as \""@ + name + "\""@
}

/// The line that shows `text` as sent by `from` under `name`.
pub open spec fn utterance(from: Seq<char>, name: Seq<char>, text: Seq<char>) -> Seq<char> {
    "["@ + from + "] <"@ + name + "> "@ + text
}

/// Calls `String::from_utf8`, which turns bytes into a string if they are
/// valid UTF-8 and fails otherwise. The claim made here is that of its
/// documentation: it succeeds exactly on well-formed UTF-8, and the string
/// then holds the characters that the bytes encode.
#[verifier::external_body]
fn read_utf8(bytes: Vec<u8>) -> (text: Option<String>)
    ensures
        match text {
            Some(text) => valid_utf8(bytes@) && text@ == decode_utf8(bytes@),
            None => !valid_utf8(bytes@),
        },
{
    match String::from_utf8(bytes) {
        Ok(text) => Some(text),
        Err(_) => None,
    }
}

/// The running text of a conversation.
#[derive(Debug)]
pub struct Transcript {
    name: Option<String>,
}

impl Transcript {
    /// The name that the first message gave, once there has been one.
    pub closed spec fn name(&self) -> Option<Seq<char>> {
        match self.name {
            Some(name) => Some(name@),
            None => None,
        }
    }

    /// A transcript before the first message.
    pub fn new() -> (transcript: Transcript)
        ensures
            transcript.name() is None,
    {
        Transcript { name: None }
    }

    /// Takes the next message of the merged stream and returns the line that
    /// shows it.
    pub fn record(&mut self, msg: IncomingMessage) -> (line: String)
        ensures
            match old(self).name() {
                None => {
                    &&& line@ == announcement(msg.from@, text_of(msg.content@))
                    &&& final(self).name() == Some(text_of(msg.content@))
                },
                Some(name) => {
                    &&& line@ == utterance(msg.from@, name, text_of(msg.content@))
                    &&& final(self).name() == Some(name)
                },
            },
    {
        let IncomingMessage { from, content } = msg;
        let text = match read_utf8(content) {
            Some(text) => text,
            None => "<invalid utf8>".to_owned(),
        };
        let mut line = "[".to_owned();
        line.append(from.as_str());
        match &self.name {
            None => {
                line.append("] is now known as \"");
                line.append(text.as_str());
                line.append("\"");
                self.name = Some(text);
            },
            Some(name) => {
                line.append("] <");
                line.append(name.as_str());
                line.append("> ");
                line.append(text.as_str());
            },
        }
        line
    }
}

} // verus!
