//! The broadcaster: it takes in the streams that the swarm yields, gives each
//! its queues and its place in the registry, and fans a message out to every
//! registered peer.

use crate::channel::open_queue;
use crate::connection::{Endpoint, FramerState};
use crate::peer::{payload_of, peer_id_of, Peer, PeerId, SendError};
use crate::registry::{lemma_removed_id_is_gone, without_id, PeerRegistry};
use async_std::channel::Receiver;
use vstd::prelude::*;
use vstd::slice::*;
use vstd::string::*;

verus! {

/// One payload on its way to one registered peer.
#[derive(Debug, PartialEq, Eq)]
pub struct Delivery {
    /// The place of the peer in the registry.
    pub to: usize,
    /// The identity of the peer.
    pub peer: PeerId,
    /// The bytes for its outbound queue.
    pub payload: Vec<u8>,
}

/// A delivery as plain values.
pub struct DeliveryView {
    pub to: nat,
    pub peer: Seq<char>,
    pub payload: Seq<u8>,
}

impl View for Delivery {
    type V = DeliveryView;

    open spec fn view(&self) -> DeliveryView {
        DeliveryView { to: self.to as nat, peer: self.peer@, payload: self.payload@ }
    }
}

/// A series of deliveries as plain values.
pub open spec fn plan_of(deliveries: Seq<Delivery>) -> Seq<DeliveryView> {
    Seq::new(deliveries.len(), |i: int| deliveries[i]@)
}

/// How a delivery ended at the queue of one peer.
#[derive(Debug, PartialEq, Eq)]
pub struct SendReport {
    /// The identity of the peer.
    pub peer: PeerId,
    /// `Ok` where the queue took the payload.
    pub outcome: Result<(), SendError>,
}

impl SendReport {
    /// Whether this report answers to `delivery`: it names the peer of the
    /// delivery, and where the queue refused, what it hands back is the payload
    /// of the delivery.
    pub open spec fn answers(&self, delivery: DeliveryView) -> bool {
        &&& self.peer@ == delivery.peer
        &&& self.outcome matches Err(e) ==> e.payload@ == delivery.payload
    }
}

/// The fan-out of one payload: one delivery for each registered peer, in
/// registry order, each with the same bytes.
pub open spec fn fan_out(peers: Seq<Peer>, payload: Seq<u8>) -> Seq<DeliveryView> {
    Seq::new(
        peers.len(),
        |i: int| DeliveryView { to: i as nat, peer: peers[i].spec_id(), payload },
    )
}

/// The delivery that greets a newcomer: the initial message, addressed to the
/// place that the newcomer takes when it is appended to `peers`.
pub open spec fn welcome_of(
    peers: Seq<Peer>,
    newcomer: Peer,
    initial_msg: Seq<u8>,
) -> DeliveryView {
    DeliveryView { to: peers.len(), peer: newcomer.spec_id(), payload: initial_msg }
}

/// The deliveries of a series of broadcasts to the same peers, one broadcast
/// after the other.
pub open spec fn broadcasts(peers: Seq<Peer>, payloads: Seq<Seq<u8>>) -> Seq<DeliveryView>
    decreases payloads.len(),
{
    if payloads.len() == 0 {
        Seq::empty()
    } else {
        broadcasts(peers, payloads.drop_last()) + fan_out(peers, payloads.last())
    }
}

/// What the swarm yielded when it was asked for the next stream.
#[derive(Debug)]
pub enum SwarmEvent {
    /// A connected stream to the endpoint `addr`, over the transport `protocol`.
    Connected { addr: String, protocol: String },
    /// The swarm failed to hand over a stream.
    Failed,
    /// The swarm has no more streams.
    Exhausted,
}

/// Why the accept loop gave up.
#[derive(Debug, PartialEq, Eq)]
pub enum RunError {
    /// The swarm failed.
    SwarmFailed,
    /// The queue of a new peer refused the initial message.
    GreetingRefused(SendError),
}

/// What belongs to one accepted stream: the identity of its peer, the near
/// end of the connection, and the ends of its queues that are awaited on.
#[derive(Debug)]
pub struct Connection {
    /// The identity under which the peer was registered.
    pub peer_id: PeerId,
    /// The near end of the connection, with nothing read yet.
    pub endpoint: Endpoint,
    /// Where the payloads to write to the stream come out.
    pub outbound_rx: Receiver<Vec<u8>>,
    /// Where the payloads read from the stream come out, to be forwarded.
    pub inbound_rx: Receiver<Vec<u8>>,
}

/// What the accept loop is to do next.
#[derive(Debug)]
pub enum RunStep {
    /// Serve this connection, then ask the swarm for the next stream.
    Serve(Connection),
    /// Leave the loop with this result.
    Finish(Result<(), RunError>),
}

/// The broadcaster.
#[derive(Debug)]
pub struct HyperBroadcast {
    initial_msg: Vec<u8>,
    peers: PeerRegistry,
}

impl HyperBroadcast {
    /// The payload that every new peer is sent first.
    pub closed spec fn initial_msg(&self) -> Seq<u8> {
        self.initial_msg@
    }

    /// The registered peers, in the order in which they connected.
    pub closed spec fn registered(&self) -> Seq<Peer> {
        self.peers@
    }

    /// A broadcaster without peers that will greet each new peer with
    /// `initial_msg`.
    pub fn new(initial_msg: Vec<u8>) -> (bus: HyperBroadcast)
        ensures
            bus.initial_msg() == initial_msg@,
            bus.registered() == Seq::<Peer>::empty(),
    {
        HyperBroadcast { initial_msg, peers: PeerRegistry::new() }
    }

    /// The registry, for reading.
    pub fn registry(&self) -> (registry: &PeerRegistry)
        ensures
            registry@ == self.registered(),
    {
        &self.peers
    }

    /// A copy of the initial message, to be the first payload of a new peer.
    pub fn greeting(&self) -> (payload: Vec<u8>)
        ensures
            payload@ == self.initial_msg(),
    {
        let payload = self.initial_msg.clone();
        payload
    }

    /// The delivery that greets `newcomer`, a peer that is about to be
    /// registered: a copy of the initial message for its queue.
    pub fn welcome(&self, newcomer: &Peer) -> (greeting: Delivery)
        ensures
            greeting@ == welcome_of(self.registered(), *newcomer, self.initial_msg()),
    {
        Delivery { to: self.peers.len(), peer: newcomer.id(), payload: self.greeting() }
    }

    /// The deliveries that make up the broadcast of `payload`: the same bytes,
    /// whatever they are, once for each peer that is registered now.
    pub fn deliveries_of(&self, payload: &[u8]) -> (plan: Vec<Delivery>)
        ensures
            plan_of(plan@) == fan_out(self.registered(), payload@),
            plan@.len() == self.registered().len(),
            forall|i: int|
                0 <= i < plan@.len() ==> (#[trigger] plan@[i])@ == fan_out(
                    self.registered(),
                    payload@,
                )[i],
    {
        let peers = self.peers.peers();
        let mut plan: Vec<Delivery> = Vec::new();
        let mut i: usize = 0;
        while i < peers.len()
            invariant
                i <= peers.len(),
                peers@ == self.registered(),
                plan@.len() == i,
                forall|j: int|
                    0 <= j < i ==> (#[trigger] plan@[j])@ == fan_out(
                        self.registered(),
                        payload@,
                    )[j],
            decreases peers.len() - i,
        {
            plan.push(Delivery { to: i, peer: peers[i].id(), payload: slice_to_vec(payload) });
            i = i + 1;
        }
        plan
    }

    /// The deliveries that make up the broadcast of the text `msg`: those of
    /// its bytes.
    pub fn deliveries(&self, msg: &str) -> (plan: Vec<Delivery>)
        ensures
            plan_of(plan@) == fan_out(self.registered(), payload_of(msg@)),
            plan@.len() == self.registered().len(),
            forall|i: int|
                0 <= i < plan@.len() ==> (#[trigger] plan@[i])@ == fan_out(
                    self.registered(),
                    payload_of(msg@),
                )[i],
    {
        self.deliveries_of(msg.as_bytes())
    }

    /// Sends `payload` to every registered peer: each delivery of
    /// `deliveries_of` is offered to the queue of its peer, in registry order.
    /// A queue that refuses does not keep the others from being served. The
    /// reports answer to the deliveries one for one and say how each went.
    pub fn send_to_all(&self, payload: &[u8]) -> (reports: Vec<SendReport>)
        ensures
            reports@.len() == self.registered().len(),
            forall|i: int|
                0 <= i < reports@.len() ==> (#[trigger] reports@[i]).answers(
                    fan_out(self.registered(), payload@)[i],
                ),
    {
        let peers = self.peers.peers();
        let plan = self.deliveries_of(payload);
        let mut reports: Vec<SendReport> = Vec::new();
        for delivery in it: plan
            invariant
                peers@ == self.registered(),
                plan_of(it.seq()) == fan_out(self.registered(), payload@),
                reports@.len() == it.index(),
                forall|j: int|
                    0 <= j < reports@.len() ==> (#[trigger] reports@[j]).answers(
                        fan_out(self.registered(), payload@)[j],
                    ),
        {
            assert(it.seq().len() == plan_of(it.seq()).len());
            assert(delivery@ == plan_of(it.seq())[it.index()]);
            let Delivery { to, peer, payload } = delivery;
            let outcome = peers[to].enqueue(payload);
            reports.push(SendReport { peer, outcome });
        }
        reports
    }

    /// Sends the text `msg` to every registered peer, as `send_to_all` sends
    /// its bytes.
    pub fn broadcast(&self, msg: String) -> (reports: Vec<SendReport>)
        ensures
            reports@.len() == self.registered().len(),
            forall|i: int|
                0 <= i < reports@.len() ==> (#[trigger] reports@[i]).answers(
                    fan_out(self.registered(), payload_of(msg@))[i],
                ),
    {
        self.send_to_all(msg.as_str().as_bytes())
    }

    /// Registers `peer` once its queue has answered to the initial message:
    /// the peer joins the registry where the queue took the message, and stays
    /// out where it did not.
    pub fn register(&mut self, peer: Peer, greeted: Result<(), SendError>) -> (registered: Result<
        PeerId,
        RunError,
    >)
        ensures
            final(self).initial_msg() == old(self).initial_msg(),
            match greeted {
                Ok(_) => {
                    &&& registered matches Ok(id)
                    &&& id@ == peer.spec_id()
                    &&& final(self).registered() == old(self).registered().push(peer)
                },
                Err(refusal) => {
                    &&& registered == Err::<PeerId, RunError>(RunError::GreetingRefused(refusal))
                    &&& final(self).registered() == old(self).registered()
                },
            },
    {
        match greeted {
            Ok(_) => {
                let id = peer.id();
                self.peers.add(peer);
                Ok(id)
            },
            Err(refusal) => Err(RunError::GreetingRefused(refusal)),
        }
    }

    /// One turn of the accept loop: takes what the swarm yielded and says how
    /// the loop goes on.
    ///
    /// For a connected stream the queues of the connection are opened, the
    /// initial message is put on the outbound queue before anything else can
    /// be, and the peer is appended to the registry. A failure of the swarm
    /// ends the loop with an error, its exhaustion ends the loop without one.
    pub fn run(&mut self, event: SwarmEvent) -> (step: RunStep)
        ensures
            final(self).initial_msg() == old(self).initial_msg(),
            match event {
                SwarmEvent::Connected { addr, protocol } => match step {
                    RunStep::Serve(connection) => {
                        &&& connection.peer_id@ == peer_id_of(protocol@, addr@)
                        &&& connection.endpoint.peer() == connection.peer_id@
                        &&& connection.endpoint.state() == (FramerState {
                            pending: Seq::<u8>::empty(),
                            ended: None,
                        })
                        &&& final(self).registered().len() == old(self).registered().len() + 1
                        &&& final(self).registered().drop_last() == old(self).registered()
                        &&& final(self).registered().last().addr == addr
                        &&& final(self).registered().last().protocol == protocol
                    },
                    RunStep::Finish(Err(RunError::GreetingRefused(refusal))) => {
                        &&& refusal.payload@ == old(self).initial_msg()
                        &&& final(self).registered() == old(self).registered()
                    },
                    _ => false,
                },
                SwarmEvent::Failed => {
                    &&& step matches RunStep::Finish(Err(RunError::SwarmFailed))
                    &&& final(self).registered() == old(self).registered()
                },
                SwarmEvent::Exhausted => {
                    &&& step matches RunStep::Finish(Ok(_))
                    &&& final(self).registered() == old(self).registered()
                },
            },
    {
        match event {
            SwarmEvent::Connected { addr, protocol } => {
                let (outbound_tx, outbound_rx) = open_queue::<Vec<u8>>();
                let (inbound_tx, inbound_rx) = open_queue::<Vec<u8>>();
                let peer = Peer { outbound_tx, addr, protocol };
                let greeted = peer.enqueue(self.welcome(&peer).payload);
                match self.register(peer, greeted) {
                    Ok(peer_id) => {
                        let endpoint = Endpoint::new(peer_id.clone(), inbound_tx);
                        RunStep::Serve(Connection { peer_id, endpoint, outbound_rx, inbound_rx })
                    },
                    Err(e) => RunStep::Finish(Err(e)),
                }
            },
            SwarmEvent::Failed => RunStep::Finish(Err(RunError::SwarmFailed)),
            SwarmEvent::Exhausted => RunStep::Finish(Ok(())),
        }
    }

    /// Takes the peers of the identity `peer` out of the registry, as is due
    /// when the connection of one of them has ended.
    pub fn disconnect(&mut self, peer: &PeerId)
        ensures
            final(self).initial_msg() == old(self).initial_msg(),
            final(self).registered() == without_id(old(self).registered(), peer@),
    {
        self.peers.remove_by_id(peer);
    }
}

/// The payloads that a series of deliveries puts on the queue of the peer at
/// the place `to`, in the order of the series.
pub open spec fn payloads_for(deliveries: Seq<DeliveryView>, to: nat) -> Seq<Seq<u8>>
    decreases deliveries.len(),
{
    if deliveries.len() == 0 {
        Seq::empty()
    } else {
        let earlier = payloads_for(deliveries.drop_last(), to);
        if deliveries.last().to == to {
            earlier.push(deliveries.last().payload)
        } else {
            earlier
        }
    }
}

/// Fan-out: one broadcast puts exactly one copy of the payload on the queue of
/// each registered peer, and nothing anywhere else.
pub proof fn lemma_fan_out_is_one_copy_each(peers: Seq<Peer>, payload: Seq<u8>, to: nat)
    ensures
        payloads_for(fan_out(peers, payload), to) == if to < peers.len() {
            seq![payload]
        } else {
            Seq::<Seq<u8>>::empty()
        },
    decreases peers.len(),
{
    if peers.len() > 0 {
        let rest = peers.drop_last();
        lemma_fan_out_is_one_copy_each(rest, payload, to);
        assert(fan_out(peers, payload).drop_last() =~= fan_out(rest, payload));
    }
}

/// What two series of deliveries put on a queue, one after the other, is what
/// the first puts there followed by what the second puts there.
pub proof fn lemma_payloads_follow_the_series(
    first: Seq<DeliveryView>,
    second: Seq<DeliveryView>,
    to: nat,
)
    ensures
        payloads_for(first + second, to) == payloads_for(first, to) + payloads_for(second, to),
    decreases second.len(),
{
    if second.len() > 0 {
        lemma_payloads_follow_the_series(first, second.drop_last(), to);
        assert((first + second).drop_last() =~= first + second.drop_last());
    }
}

/// Order: whatever series of broadcasts goes out to the same peers, the queue
/// of every one of them gets the payloads of the series, each once and in
/// the order in which they were issued.
pub proof fn lemma_broadcasts_arrive_in_order(
    peers: Seq<Peer>,
    payloads: Seq<Seq<u8>>,
    to: nat,
)
    requires
        to < peers.len(),
    ensures
        payloads_for(broadcasts(peers, payloads), to) == payloads,
    decreases payloads.len(),
{
    if payloads.len() > 0 {
        let earlier = payloads.drop_last();
        lemma_broadcasts_arrive_in_order(peers, earlier, to);
        lemma_payloads_follow_the_series(
            broadcasts(peers, earlier),
            fan_out(peers, payloads.last()),
            to,
        );
        lemma_fan_out_is_one_copy_each(peers, payloads.last(), to);
    }
}

/// Greeting: the initial message is the first payload on the queue of a
/// newcomer, before the payload of any broadcast that follows its
/// registration, and it is on no other queue.
pub proof fn lemma_greeting_comes_first(
    peers: Seq<Peer>,
    newcomer: Peer,
    initial_msg: Seq<u8>,
    later: Seq<Seq<u8>>,
    to: nat,
)
    requires
        to <= peers.len(),
    ensures
        ({
            let series = seq![welcome_of(peers, newcomer, initial_msg)] + broadcasts(
                peers.push(newcomer),
                later,
            );
            payloads_for(series, to) == if to == peers.len() {
                seq![initial_msg] + later
            } else {
                later
            }
        }),
{
    let greeting = seq![welcome_of(peers, newcomer, initial_msg)];
    let after = broadcasts(peers.push(newcomer), later);
    lemma_payloads_follow_the_series(greeting, after, to);
    lemma_broadcasts_arrive_in_order(peers.push(newcomer), later, to);
    assert(payloads_for(greeting.drop_last(), to) =~= Seq::<Seq<u8>>::empty());
}

/// Cleanup: once the peers of an identity have been taken out of the
/// registry, no delivery of a later broadcast is addressed to that identity.
pub proof fn lemma_no_delivery_after_disconnect(peers: Seq<Peer>, id: Seq<char>, payload: Seq<u8>)
    ensures
        forall|i: int|
            0 <= i < fan_out(without_id(peers, id), payload).len() ==> (#[trigger] fan_out(
                without_id(peers, id),
                payload,
            )[i]).peer != id,
{
    lemma_removed_id_is_gone(peers, id);
}

} // verus!
