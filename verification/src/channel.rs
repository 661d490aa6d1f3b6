//! The queues between the broadcaster and its connections are `async_std`
//! channels. Those that the broadcaster opens are unbounded; one that is handed
//! in from outside may be bounded. The verifier does not look inside them: this
//! file holds everything that is taken on trust about them.

use async_std::channel::{Receiver, Sender, TrySendError};
use vstd::prelude::*;
use vstd::string::*;

verus! {

/// Why a queue did not take an item.
#[derive(Clone, Copy, Debug, PartialEq, Eq, Structural)]
pub enum Refusal {
    /// The queue is bounded and holds as many items as it can. This never
    /// comes from an unbounded queue.
    Full,
    /// The queue is closed: its other half is gone.
    Closed,
}

/// The words for a refusal.
pub open spec fn refusal_text(refusal: Refusal) -> Seq<char> {
    match refusal {
        Refusal::Full => "sending into a full channel"@,
        Refusal::Closed => "sending into a closed channel"@,
    }
}

impl Refusal {
    /// Says in words why the queue did not take the item.
    pub fn describe(&self) -> (text: String)
        ensures
            text@ == refusal_text(*self),
    {
        match self {
            Refusal::Full => "sending into a full channel".to_owned(),
            Refusal::Closed => "sending into a closed channel".to_owned(),
        }
    }
}

/// `async_std::channel::Sender`, the half of a channel that puts items in.
/// Nothing of its state is visible to the verifier: a value of it is carried
/// through and handed to `offer`.
#[verifier::external_type_specification]
#[verifier::external_body]
#[verifier::reject_recursive_types(T)]
pub struct ExSender<T>(Sender<T>);

/// `async_std::channel::Receiver`, the half of a channel that takes items out.
/// It is only carried through to whoever awaits on it.
#[verifier::external_type_specification]
#[verifier::external_body]
#[verifier::reject_recursive_types(T)]
pub struct ExReceiver<T>(Receiver<T>);

/// Calls `async_std::channel::unbounded`, which makes a new channel without a
/// capacity limit and returns its two halves. Nothing is claimed of them.
#[verifier::external_body]
pub(crate) fn open_queue<T>() -> (ends: (Sender<T>, Receiver<T>)) {
    async_std::channel::unbounded()
}

/// Calls `async_std::channel::Sender::try_send`, which puts `item` into the
/// channel unless the channel is full or closed, and in that case hands the
/// item back inside an error that tells which of the two it was. Whether the
/// channel takes the item depends on what the other half has done, so the
/// only claim is that a refused item comes back as it went in.
#[verifier::external_body]
pub(crate) fn offer<T>(tx: &Sender<T>, item: T) -> (refused: Option<(Refusal, T)>)
    ensures
        refused matches Some((_, back)) ==> back == item,
{
    match tx.try_send(item) {
        Ok(()) => None,
        Err(TrySendError::Full(item)) => Some((Refusal::Full, item)),
        Err(TrySendError::Closed(item)) => Some((Refusal::Closed, item)),
    }
}

} // verus!
