//! One connected remote endpoint.

use crate::channel::{offer, Refusal};
use async_std::channel::Sender;
use vstd::prelude::*;
use vstd::string::*;

verus! {

/// The name a peer goes by in the registry and on the messages it sends:
/// its protocol, a colon, its address.
pub type PeerId = String;

/// A payload that a peer's outbound queue did not take.
#[derive(Debug, PartialEq, Eq)]
pub struct SendError {
    /// The payload, handed back.
    pub payload: Vec<u8>,
    /// Why the queue did not take it: the connection that drains the queue is
    /// gone, or, with a bounded queue, the queue is full.
    pub cause: Refusal,
}

/// A connected peer: where it is, how it is reached, and the queue of the
/// payloads that are to be written to it.
#[derive(Debug)]
pub struct Peer {
    /// The queue of the payloads to write. The broadcaster gives each peer an
    /// unbounded queue, which refuses only when it is closed; a bounded one
    /// also refuses while it is full, and says so.
    pub outbound_tx: Sender<Vec<u8>>,
    pub addr: String,
    pub protocol: String,
}

/// The bytes that travel for the text `msg`: its UTF-8 encoding.
pub open spec fn payload_of(msg: Seq<char>) -> Seq<u8> {
    vstd::utf8::encode_utf8(msg)
}

/// The identity of a peer at `addr` reached over `protocol`.
pub open spec fn peer_id_of(protocol: Seq<char>, addr: Seq<char>) -> Seq<char> {
    protocol + seq![':'] + addr
}

impl Peer {
    /// The identity of this peer.
    pub open spec fn spec_id(&self) -> Seq<char> {
        peer_id_of(self.protocol@, self.addr@)
    }

    /// The identity of this peer: `protocol:address`.
    pub fn id(&self) -> (id: PeerId)
        ensures
            id@ == self.spec_id(),
    {
        proof {
            reveal_strlit(":");
        }
        let mut id: String = self.protocol.clone();
        id.append(":");
        id.append(self.addr.as_str());
        id
    }

    /// What `send_msg` returns once the queue has answered: `Ok` where the
    /// queue took the payload, the payload inside the error where it did not.
    pub fn sent(refused: Option<(Refusal, Vec<u8>)>) -> (outcome: Result<(), SendError>)
        ensures
            outcome == match refused {
                None => Ok::<(), SendError>(()),
                Some((cause, payload)) => Err::<(), SendError>(SendError { payload, cause }),
            },
    {
        match refused {
            None => Ok(()),
            Some((cause, payload)) => Err(SendError { payload, cause }),
        }
    }

    /// Offers `payload` to the outbound queue of this peer. The queue decides:
    /// it refuses once the connection that drains it has ended, or, if it is
    /// bounded, while it is full, and then the payload comes back in the error
    /// with the cause.
    pub fn enqueue(&self, payload: Vec<u8>) -> (outcome: Result<(), SendError>)
        ensures
            outcome matches Err(e) ==> e.payload == payload,
    {
        Peer::sent(offer(&self.outbound_tx, payload))
    }

    /// Queues the bytes of `msg` for this peer.
    pub fn send_msg(&self, msg: &str) -> (outcome: Result<(), SendError>)
        ensures
            outcome matches Err(e) ==> e.payload@ == payload_of(msg@),
    {
        self.enqueue(msg.as_bytes_vec())
    }
}

} // verus!
