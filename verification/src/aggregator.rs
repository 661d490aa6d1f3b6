//! The single stream into which the payloads of all peers are merged.

use crate::channel::{offer, Refusal};
use crate::incoming_message::IncomingMessage;
use crate::peer::PeerId;
use async_std::channel::Sender;
use vstd::prelude::*;

verus! {

/// A message that the merged stream did not take.
#[derive(Debug, PartialEq, Eq)]
pub struct ForwardError {
    /// The message, handed back.
    pub message: IncomingMessage,
    /// Why the stream did not take it: the application has given up reading,
    /// or, with a bounded queue, the queue is full.
    pub cause: Refusal,
}

/// The feeding end of the merged stream. Payloads enter it in the order in
/// which they are forwarded, whichever peer they come from.
#[derive(Debug)]
pub struct Aggregator {
    incoming_tx: Sender<IncomingMessage>,
}

impl Aggregator {
    /// The queue that carries the merged stream to the application.
    pub closed spec fn feed(&self) -> Sender<IncomingMessage> {
        self.incoming_tx
    }

    /// An aggregator that feeds the queue `incoming_tx`. The queue may be
    /// bounded: a message that is forwarded while it is full comes back with
    /// the cause `Full`, as one that is forwarded after it was closed comes
    /// back with the cause `Closed`.
    pub fn new(incoming_tx: Sender<IncomingMessage>) -> (aggregator: Aggregator)
        ensures
            aggregator.feed() == incoming_tx,
    {
        Aggregator { incoming_tx }
    }

    /// Forwards one payload, read from the stream of `from`, into the merged
    /// stream, as one message tagged with `from`. Where the stream does not
    /// take the message, it comes back in the error with the cause.
    pub fn forward(&self, from: &PeerId, content: Vec<u8>) -> (outcome: Result<
        (),
        ForwardError,
    >)
        ensures
            outcome matches Err(e) ==> e.message.from@ == from@ && e.message.content == content,
    {
        Aggregator::forwarded(offer(&self.incoming_tx, IncomingMessage::tagged(from, content)))
    }

    /// What `forward` returns once the merged stream has answered: `Ok` where
    /// the stream took the message, the message inside the error where it did
    /// not.
    pub fn forwarded(refused: Option<(Refusal, IncomingMessage)>) -> (outcome: Result<
        (),
        ForwardError,
    >)
        ensures
            outcome == match refused {
                None => Ok::<(), ForwardError>(()),
                Some((cause, message)) => Err::<(), ForwardError>(ForwardError { message, cause }),
            },
    {
        match refused {
            None => Ok(()),
            Some((cause, message)) => Err(ForwardError { message, cause }),
        }
    }
}

} // verus!
