//! What the application receives from the bus.

use crate::peer::PeerId;
use vstd::prelude::*;

verus! {

/// One payload read off a peer's stream, tagged with the peer it came from.
#[derive(Debug, PartialEq, Eq)]
pub struct IncomingMessage {
    pub from: PeerId,
    pub content: Vec<u8>,
}

impl IncomingMessage {
    /// Tags a payload with its sender.
    pub fn tagged(from: &PeerId, content: Vec<u8>) -> (msg: IncomingMessage)
        ensures
            msg.from@ == from@,
            msg.content == content,
    {
        IncomingMessage { from: from.clone(), content }
    }
}

} // verus!
