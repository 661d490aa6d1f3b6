//! The framer of one connection, as a state machine. Whoever owns the stream
//! awaits on it and on the peer's outbound queue, hands each outcome in as an
//! event, and carries out the action that comes back. The framer itself never
//! waits and never touches the stream.
//!
//! Bytes may come off the stream in pieces of any size: the framer keeps what
//! does not yet make a whole message and goes on from there with the next
//! piece.
//!
//! A `Framer` only says what is to be done. An `Endpoint` is a framer that
//! also holds the inbound queue of its connection and puts what it reads on
//! that queue itself.

use crate::channel::{offer, refusal_text, Refusal};
use crate::framing::{be32_bytes, be32_value, decode_frames, decode_length, encode_frame};
use crate::framing::{first_frame, frame, length_modulus, payloads_of, split_frames, wire_of};
use crate::framing::{lemma_frame_round_trip, lemma_prefix_round_trip, lemma_split_goes_on};
use crate::framing::{lemma_split_is_complete, lemma_wire_round_trip, HEADER_LEN};
use crate::peer::PeerId;
use async_std::channel::Sender;
use vstd::prelude::*;
use vstd::string::*;

verus! {

/// Why a connection ended.
#[derive(Clone, Copy, Debug, PartialEq, Eq, Structural)]
pub enum Termination {
    /// The stream failed on a read, or ended.
    ReadFailed,
    /// The stream failed on a write.
    WriteFailed,
    /// The outbound queue is closed for good: nothing will be sent any more.
    OutboundClosed,
    /// The inbound queue is closed: nobody forwards what is read any more.
    InboundClosed,
    /// The inbound queue is bounded and was full when a payload came in.
    InboundFull,
    /// The outbound queue yielded a payload of 2^32 bytes or more, which no
    /// frame can carry. Nothing of it was written.
    PayloadTooLong,
}

/// The cause for which a connection ends when its inbound queue refuses a
/// payload.
pub open spec fn inbound_refused(refusal: Refusal) -> Termination {
    match refusal {
        Refusal::Full => Termination::InboundFull,
        Refusal::Closed => Termination::InboundClosed,
    }
}

/// The words for the end of a connection.
pub open spec fn cause_text(cause: Termination) -> Seq<char> {
    match cause {
        Termination::ReadFailed => "the stream failed on a read"@,
        Termination::WriteFailed => "the stream failed on a write"@,
        Termination::OutboundClosed => "Remote connection closed?"@,
        Termination::InboundClosed => refusal_text(Refusal::Closed),
        Termination::InboundFull => refusal_text(Refusal::Full),
        Termination::PayloadTooLong => "payload too long for a frame"@,
    }
}

impl Termination {
    /// Says in words why the connection ended.
    pub fn describe(&self) -> (text: String)
        ensures
            text@ == cause_text(*self),
    {
        match self {
            Termination::ReadFailed => "the stream failed on a read".to_owned(),
            Termination::WriteFailed => "the stream failed on a write".to_owned(),
            Termination::OutboundClosed => "Remote connection closed?".to_owned(),
            Termination::InboundClosed => Refusal::Closed.describe(),
            Termination::InboundFull => Refusal::Full.describe(),
            Termination::PayloadTooLong => "payload too long for a frame".to_owned(),
        }
    }
}

/// What happened on the stream or on the queues of a connection.
#[derive(Debug, PartialEq, Eq)]
pub enum FramerEvent {
    /// The stream yielded these bytes.
    Received(Vec<u8>),
    /// The stream failed on a read, or ended.
    ReadFailed,
    /// The outbound queue yielded its next payload.
    Outbound(Vec<u8>),
    /// The outbound queue is closed and empty.
    OutboundClosed,
    /// The bytes handed out for writing could not be written.
    WriteFailed,
    /// The inbound queue refused a payload handed out for delivery.
    DeliveryFailed(Refusal),
}

/// What the owner of the stream is to do next.
#[derive(Debug, PartialEq, Eq)]
pub enum FramerAction {
    /// Await the next event.
    Wait,
    /// Put these payloads, each read whole from the stream, on the inbound
    /// queue, in this order.
    Deliver(Vec<Vec<u8>>),
    /// Write these bytes to the stream.
    Write(Vec<u8>),
    /// Stop serving the connection and remove `peer` from the registry.
    Stop { peer: PeerId, cause: Termination },
}

/// An event with its bytes as a plain sequence.
pub enum FramerEventView {
    Received(Seq<u8>),
    ReadFailed,
    Outbound(Seq<u8>),
    OutboundClosed,
    WriteFailed,
    DeliveryFailed(Refusal),
}

/// An action with its bytes and its peer as plain sequences.
pub enum FramerActionView {
    Wait,
    Deliver(Seq<Seq<u8>>),
    Write(Seq<u8>),
    Stop { peer: Seq<char>, cause: Termination },
}

impl View for FramerEvent {
    type V = FramerEventView;

    open spec fn view(&self) -> FramerEventView {
        match *self {
            FramerEvent::Received(bytes) => FramerEventView::Received(bytes@),
            FramerEvent::ReadFailed => FramerEventView::ReadFailed,
            FramerEvent::Outbound(payload) => FramerEventView::Outbound(payload@),
            FramerEvent::OutboundClosed => FramerEventView::OutboundClosed,
            FramerEvent::WriteFailed => FramerEventView::WriteFailed,
            FramerEvent::DeliveryFailed(refusal) => FramerEventView::DeliveryFailed(refusal),
        }
    }
}

impl View for FramerAction {
    type V = FramerActionView;

    open spec fn view(&self) -> FramerActionView {
        match *self {
            FramerAction::Wait => FramerActionView::Wait,
            FramerAction::Deliver(payloads) => FramerActionView::Deliver(payloads_of(payloads@)),
            FramerAction::Write(bytes) => FramerActionView::Write(bytes@),
            FramerAction::Stop { peer, cause } => FramerActionView::Stop { peer: peer@, cause },
        }
    }
}

/// Where a connection stands: the bytes that have come off the stream and do
/// not yet make a whole message, and, once the connection has ended, why.
/// While `ended` is `None` the connection is active.
pub struct FramerState {
    pub pending: Seq<u8>,
    pub ended: Option<Termination>,
}

/// The number of bytes that the message at the head of `pending` still lacks:
/// what is missing of its prefix while that is not whole, of its payload
/// after that.
pub open spec fn missing(pending: Seq<u8>) -> int {
    if pending.len() < 4 {
        4 - pending.len()
    } else {
        4 + be32_value(pending) - pending.len()
    }
}

/// The rule of the framer: the state that follows `state` on `event`, and the
/// action that goes with the step, for the connection of `peer`.
///
/// * An ended connection stays as it is and says again that it has ended.
/// * Bytes from the stream are added to the pending ones; every message that
///   is whole by then is delivered, in order, and the rest stays pending.
/// * An outbound payload shorter than 2^32 bytes is framed for writing,
///   wherever the reading stands. A longer one has no frame: nothing is
///   written, and the connection ends.
/// * A failure, or the end of the outbound queue, ends the connection.
pub open spec fn react(peer: Seq<char>, state: FramerState, event: FramerEventView) -> (
    FramerState,
    FramerActionView,
) {
    let end = |cause: Termination|
        (
            FramerState { pending: state.pending, ended: Some(cause) },
            FramerActionView::Stop { peer, cause },
        );
    match state.ended {
        Some(cause) => (state, FramerActionView::Stop { peer, cause }),
        None => match event {
            FramerEventView::Received(bytes) => {
                let (payloads, rest) = split_frames(state.pending + bytes);
                (
                    FramerState { pending: rest, ended: None },
                    if payloads.len() == 0 {
                        FramerActionView::Wait
                    } else {
                        FramerActionView::Deliver(payloads)
                    },
                )
            },
            FramerEventView::Outbound(payload) => if payload.len() < length_modulus() {
                (state, FramerActionView::Write(frame(payload)))
            } else {
                end(Termination::PayloadTooLong)
            },
            FramerEventView::ReadFailed => end(Termination::ReadFailed),
            FramerEventView::OutboundClosed => end(Termination::OutboundClosed),
            FramerEventView::WriteFailed => end(Termination::WriteFailed),
            FramerEventView::DeliveryFailed(refusal) => end(inbound_refused(refusal)),
        },
    }
}

/// The framer of the connection to one peer.
#[derive(Debug)]
pub struct Framer {
    peer: PeerId,
    pending: Vec<u8>,
    ended: Option<Termination>,
}

impl View for Framer {
    type V = FramerState;

    closed spec fn view(&self) -> FramerState {
        FramerState { pending: self.pending@, ended: self.ended }
    }
}

impl Framer {
    /// Between two steps the pending bytes never hold a whole message: every
    /// message is handed out in the step that completes it.
    #[verifier::type_invariant]
    spec fn nothing_whole_is_pending(self) -> bool {
        first_frame(self.pending@) is None
    }

    /// The peer whose connection this is.
    pub closed spec fn peer(&self) -> Seq<char> {
        self.peer@
    }

    /// The framer of a connection that has just been made.
    pub fn new(peer: PeerId) -> (framer: Framer)
        ensures
            framer.peer() == peer@,
            framer@ == (FramerState { pending: Seq::<u8>::empty(), ended: None }),
    {
        Framer { peer, pending: Vec::new(), ended: None }
    }

    /// Why the connection has ended, or `None` while it is active.
    pub fn ended(&self) -> (ended: Option<Termination>)
        ensures
            ended == self@.ended,
    {
        self.ended
    }

    /// How many bytes the message that is being read still lacks, for an
    /// owner that reads the stream in exact amounts: always at least one
    /// while the connection is active, and `None` once it has ended.
    pub fn wanted(&self) -> (n: Option<usize>)
        ensures
            match n {
                Some(n) => self@.ended is None && n == missing(self@.pending) && n > 0,
                None => self@.ended is Some,
            },
    {
        proof {
            use_type_invariant(self);
        }
        if self.ended.is_some() {
            None
        } else if self.pending.len() < HEADER_LEN {
            Some(HEADER_LEN - self.pending.len())
        } else {
            let header: [u8; 4] = [
                self.pending[0],
                self.pending[1],
                self.pending[2],
                self.pending[3],
            ];
            let len: usize = decode_length(&header) as usize;
            Some(len - (self.pending.len() - HEADER_LEN))
        }
    }

    /// Takes one event and says what to do about it.
    pub fn step(&mut self, event: FramerEvent) -> (action: FramerAction)
        ensures
            final(self).peer() == old(self).peer(),
            (final(self)@, action@) == react(old(self).peer(), old(self)@, event@),
    {
        match self.ended {
            Some(cause) => FramerAction::Stop { peer: self.peer.clone(), cause },
            None => match event {
                FramerEvent::Received(bytes) => self.take_in(bytes),
                FramerEvent::Outbound(payload) => match encode_frame(payload.as_slice()) {
                    Some(bytes) => FramerAction::Write(bytes),
                    None => self.end(Termination::PayloadTooLong),
                },
                FramerEvent::ReadFailed => self.end(Termination::ReadFailed),
                FramerEvent::OutboundClosed => self.end(Termination::OutboundClosed),
                FramerEvent::WriteFailed => self.end(Termination::WriteFailed),
                FramerEvent::DeliveryFailed(Refusal::Full) => self.end(Termination::InboundFull),
                FramerEvent::DeliveryFailed(Refusal::Closed) => self.end(
                    Termination::InboundClosed,
                ),
            },
        }
    }

    /// The step on bytes from the stream, while the connection is active.
    fn take_in(&mut self, bytes: Vec<u8>) -> (action: FramerAction)
        requires
            old(self)@.ended is None,
        ensures
            final(self).peer() == old(self).peer(),
            (final(self)@, action@) == react(
                old(self).peer(),
                old(self)@,
                FramerEventView::Received(bytes@),
            ),
    {
        let mut all: Vec<u8> = Vec::new();
        std::mem::swap(&mut all, &mut self.pending);
        all.extend_from_slice(bytes.as_slice());
        let ghost arrived = all@;
        assert(arrived =~= old(self)@.pending + bytes@);
        let (payloads, used) = decode_frames(all.as_slice());
        let rest = all.split_off(used);
        proof {
            lemma_split_is_complete(arrived);
        }
        self.pending = rest;
        if payloads.len() == 0 {
            FramerAction::Wait
        } else {
            FramerAction::Deliver(payloads)
        }
    }

    /// Ends the connection for `cause`.
    fn end(&mut self, cause: Termination) -> (action: FramerAction)
        ensures
            final(self).peer() == old(self).peer(),
            final(self)@ == (FramerState { pending: old(self)@.pending, ended: Some(cause) }),
            action@ == (FramerActionView::Stop { peer: old(self).peer(), cause }),
    {
        proof {
            use_type_invariant(&*self);
        }
        self.ended = Some(cause);
        FramerAction::Stop { peer: self.peer.clone(), cause }
    }
}

/// What a step comes to once the inbound queue has answered to the payloads
/// that the step read: the step as it was where the queue took them all, the
/// end of the connection where it refused one. `refused` is the answer of the
/// queue: `None` where it took every payload.
pub open spec fn settle(
    peer: Seq<char>,
    step: (FramerState, FramerActionView),
    refused: Option<Refusal>,
) -> (FramerState, FramerActionView) {
    if !(step.1 is Deliver) {
        step
    } else {
        match refused {
            None => (step.0, FramerActionView::Wait),
            Some(refusal) => react(peer, step.0, FramerEventView::DeliveryFailed(refusal)),
        }
    }
}

/// The near end of one connection: the framer of its stream together with
/// the inbound queue that takes the payloads it reads.
#[derive(Debug)]
pub struct Endpoint {
    framer: Framer,
    inbound_tx: Sender<Vec<u8>>,
}

impl Endpoint {
    /// The peer whose connection this is.
    pub closed spec fn peer(&self) -> Seq<char> {
        self.framer.peer()
    }

    /// Where the connection stands.
    pub closed spec fn state(&self) -> FramerState {
        self.framer@
    }

    /// The inbound queue of the connection.
    pub closed spec fn inbound(&self) -> Sender<Vec<u8>> {
        self.inbound_tx
    }

    /// The near end of a connection that has just been made, with
    /// `inbound_tx` as the queue for what it will read. The queue may be
    /// bounded: a payload that is read while it is full ends the connection as
    /// `InboundFull`, as one that is read after it was closed ends the
    /// connection as `InboundClosed`.
    pub fn new(peer: PeerId, inbound_tx: Sender<Vec<u8>>) -> (endpoint: Endpoint)
        ensures
            endpoint.peer() == peer@,
            endpoint.inbound() == inbound_tx,
            endpoint.state() == (FramerState { pending: Seq::<u8>::empty(), ended: None }),
    {
        Endpoint { framer: Framer::new(peer), inbound_tx }
    }

    /// Why the connection has ended, or `None` while it is active.
    pub fn ended(&self) -> (ended: Option<Termination>)
        ensures
            ended == self.state().ended,
    {
        self.framer.ended()
    }

    /// How many bytes the message that is being read still lacks, or `None`
    /// once the connection has ended.
    pub fn wanted(&self) -> (n: Option<usize>)
        ensures
            match n {
                Some(n) => {
                    &&& self.state().ended is None
                    &&& n == missing(self.state().pending)
                    &&& n > 0
                },
                None => self.state().ended is Some,
            },
    {
        self.framer.wanted()
    }

    /// Offers payloads to the inbound queue, in their order, up to the first
    /// that the queue refuses. Returns what was not taken, which is the
    /// refused payload and those behind it, and why the queue refused: nothing
    /// and `None` where it took them all.
    fn hand_over(&self, payloads: Vec<Vec<u8>>) -> (answer: (Vec<Vec<u8>>, Option<Refusal>))
        ensures
            exists|taken: int|
                0 <= taken <= payloads@.len() && answer.0@ == payloads@.skip(taken),
            answer.1 is None <==> answer.0@.len() == 0,
    {
        let mut left = payloads;
        let ghost mut taken: int = 0;
        while left.len() > 0
            invariant
                0 <= taken <= payloads@.len(),
                left@ == payloads@.skip(taken),
            decreases left@.len(),
        {
            let payload = left.remove(0);
            match offer(&self.inbound_tx, payload) {
                None => {
                    proof {
                        taken = taken + 1;
                    }
                },
                Some((refusal, back)) => {
                    left.insert(0, back);
                    return (left, Some(refusal));
                },
            }
        }
        (left, None)
    }

    /// The step that follows the answer of the inbound queue to a delivery:
    /// none where the queue took every payload, the end of the connection
    /// where it refused one.
    pub fn delivered(&mut self, refused: Option<Refusal>) -> (action: FramerAction)
        ensures
            final(self).peer() == old(self).peer(),
            final(self).inbound() == old(self).inbound(),
            (final(self).state(), action@) == match refused {
                None => (old(self).state(), FramerActionView::Wait),
                Some(refusal) => react(
                    old(self).peer(),
                    old(self).state(),
                    FramerEventView::DeliveryFailed(refusal),
                ),
            },
    {
        match refused {
            None => FramerAction::Wait,
            Some(refusal) => self.framer.step(FramerEvent::DeliveryFailed(refusal)),
        }
    }

    /// Takes one event and says what is left to do about it. What the stream
    /// yielded is framed and handed to the inbound queue here, so the action
    /// that comes back is never a delivery: it is the action of the framer, or,
    /// after a delivery, what the answer of the queue makes of it.
    pub fn step(&mut self, event: FramerEvent) -> (action: FramerAction)
        ensures
            final(self).peer() == old(self).peer(),
            final(self).inbound() == old(self).inbound(),
            !(action@ is Deliver),
            exists|refused: Option<Refusal>|
                (final(self).state(), action@) == #[trigger] settle(
                    old(self).peer(),
                    react(old(self).peer(), old(self).state(), event@),
                    refused,
                ),
    {
        let ghost peer = self.peer();
        let ghost planned = react(self.peer(), self.state(), event@);
        match self.framer.step(event) {
            FramerAction::Deliver(payloads) => {
                let (_, refused) = self.hand_over(payloads);
                let action = self.delivered(refused);
                assert((self.state(), action@) == settle(peer, planned, refused));
                action
            },
            action => {
                assert((self.state(), action@) == settle(peer, planned, None));
                action
            },
        }
    }
}

/// An ended connection is never resumed: whatever event comes, it stays
/// ended for the same cause and only says so again.
pub proof fn lemma_terminated_stays(peer: Seq<char>, state: FramerState, event: FramerEventView)
    requires
        state.ended is Some,
    ensures
        react(peer, state, event) == (
            state,
            FramerActionView::Stop { peer, cause: state.ended.unwrap() },
        ),
{
}

/// Writing does not disturb reading: an outbound payload shorter than 2^32
/// bytes leaves the state of an active connection as it was and is written
/// as exactly one frame.
pub proof fn lemma_outbound_is_framed(peer: Seq<char>, state: FramerState, payload: Seq<u8>)
    requires
        state.ended is None,
        payload.len() < length_modulus(),
    ensures
        react(peer, state, FramerEventView::Outbound(payload)) == (
            state,
            FramerActionView::Write(frame(payload)),
        ),
{
}

/// Every write is a frame: whatever the state and the event, the bytes that a
/// step hands out for writing are a four-byte prefix followed by exactly as
/// many payload bytes as the prefix tells, so that the reader at the other end
/// takes them for that payload and nothing else.
pub proof fn lemma_every_write_is_a_frame(
    peer: Seq<char>,
    state: FramerState,
    event: FramerEventView,
)
    ensures
        react(peer, state, event).1 matches FramerActionView::Write(bytes) ==> {
            &&& event matches FramerEventView::Outbound(payload)
            &&& bytes == frame(payload)
            &&& bytes.len() == 4 + payload.len()
            &&& be32_value(bytes) == payload.len()
            &&& first_frame(bytes) == Some((payload, bytes.len()))
        },
{
    if let FramerEventView::Outbound(payload) = event {
        if state.ended is None && payload.len() < length_modulus() {
            lemma_frame_round_trip(payload, Seq::empty());
            lemma_prefix_round_trip(payload.len());
            assert(be32_value(frame(payload)) == be32_value(be32_bytes(payload.len())));
        }
    }
}

/// A payload of 2^32 bytes or more is never written: on an active connection
/// it ends the connection for a cause of its own.
pub proof fn lemma_long_payload_is_not_written(
    peer: Seq<char>,
    state: FramerState,
    payload: Seq<u8>,
)
    requires
        state.ended is None,
        payload.len() >= length_modulus(),
    ensures
        react(peer, state, FramerEventView::Outbound(payload)) == (
            FramerState { pending: state.pending, ended: Some(Termination::PayloadTooLong) },
            FramerActionView::Stop { peer, cause: Termination::PayloadTooLong },
        ),
{
}

/// Nothing is delivered but what was read: the payloads that a step hands
/// out are the messages that stand whole in the pending bytes followed by the
/// bytes just received, and a step on any other event hands out none.
pub proof fn lemma_only_what_was_read_is_delivered(
    peer: Seq<char>,
    state: FramerState,
    event: FramerEventView,
)
    ensures
        react(peer, state, event).1 matches FramerActionView::Deliver(payloads) ==> {
            &&& state.ended is None
            &&& event matches FramerEventView::Received(bytes)
            &&& payloads == split_frames(state.pending + bytes).0
            &&& payloads.len() > 0
        },
{
}

/// The payloads that an action hands out for delivery.
pub open spec fn delivered_by(action: FramerActionView) -> Seq<Seq<u8>> {
    match action {
        FramerActionView::Deliver(payloads) => payloads,
        _ => Seq::empty(),
    }
}

/// What one side writes, the other side reads: a connection that has nothing
/// pending and receives the frames of some payloads, each shorter than 2^32
/// bytes, delivers exactly these payloads, in their order, each once, and has
/// nothing pending afterwards.
pub proof fn lemma_written_frames_are_delivered(peer: Seq<char>, payloads: Seq<Seq<u8>>)
    requires
        forall|i: int|
            0 <= i < payloads.len() ==> (#[trigger] payloads[i]).len() < length_modulus(),
    ensures
        ({
            let fresh = FramerState { pending: Seq::<u8>::empty(), ended: None };
            let after = react(peer, fresh, FramerEventView::Received(wire_of(payloads)));
            after.0 == fresh && delivered_by(after.1) == payloads
        }),
{
    lemma_wire_round_trip(payloads);
}

/// Reading in exact amounts: a connection that has nothing pending and is
/// given the four bytes of a prefix lacks exactly the payload that the prefix
/// announces, and delivers that payload, and no other, when it is given these
/// bytes. This holds of every payload that is not empty and shorter than 2^32
/// bytes; the prefix of an empty payload is a whole message by itself.
pub proof fn lemma_exact_reads_deliver(peer: Seq<char>, payload: Seq<u8>)
    requires
        payload.len() < length_modulus(),
    ensures
        ({
            let fresh = FramerState { pending: Seq::<u8>::empty(), ended: None };
            let prefix = be32_bytes(payload.len());
            let after_prefix = react(peer, fresh, FramerEventView::Received(prefix));
            let after_payload = react(peer, after_prefix.0, FramerEventView::Received(payload));
            if payload.len() == 0 {
                after_prefix == (fresh, FramerActionView::Deliver(seq![payload]))
            } else {
                &&& after_prefix == (
                    FramerState { pending: prefix, ended: None },
                    FramerActionView::Wait,
                )
                &&& missing(prefix) == payload.len()
                &&& after_payload == (fresh, FramerActionView::Deliver(seq![payload]))
            }
        }),
{
    let nothing = Seq::<u8>::empty();
    let prefix = be32_bytes(payload.len());
    let wire = frame(payload);
    lemma_prefix_round_trip(payload.len());
    lemma_frame_round_trip(payload, nothing);
    assert(nothing + prefix =~= prefix);
    assert(split_frames(nothing) == (Seq::<Seq<u8>>::empty(), nothing));
    assert(wire.skip(wire.len() as int) =~= nothing);
    assert(split_frames(wire) == (seq![payload] + Seq::<Seq<u8>>::empty(), nothing));
    assert(seq![payload] + Seq::<Seq<u8>>::empty() =~= seq![payload]);
    if payload.len() == 0 {
        assert(wire =~= prefix);
    } else {
        assert(first_frame(prefix) is None);
        assert(prefix + payload =~= wire);
    }
}

/// The pieces in which the bytes arrive do not matter: an active connection
/// that receives bytes in two pieces delivers, over the two steps, the same
/// payloads in the same order as it would on receiving them in one piece, and
/// ends in the same state.
pub proof fn lemma_pieces_add_up(
    peer: Seq<char>,
    state: FramerState,
    first: Seq<u8>,
    second: Seq<u8>,
)
    requires
        state.ended is None,
    ensures
        ({
            let one = react(peer, state, FramerEventView::Received(first));
            let two = react(peer, one.0, FramerEventView::Received(second));
            let whole = react(peer, state, FramerEventView::Received(first + second));
            two.0 == whole.0 && delivered_by(one.1) + delivered_by(two.1) == delivered_by(whole.1)
        }),
{
    lemma_split_goes_on(state.pending + first, second);
    assert((state.pending + first) + second =~= state.pending + (first + second));
}

} // verus!
