use async_std::channel::unbounded;
use hyperbroadcast::connection::{FramerAction, FramerEvent};
use hyperbroadcast::framing::encode_frame;
use hyperbroadcast::{
    Aggregator, Connection, HyperBroadcast, IncomingMessage, RunStep, SwarmEvent, Transcript,
};

fn framed(payload: &[u8]) -> Vec<u8> {
    encode_frame(payload).unwrap()
}

fn join(bus: &mut HyperBroadcast, addr: &str) -> Connection {
    let event = SwarmEvent::Connected { addr: addr.to_string(), protocol: "tcp".to_string() };
    match bus.run(event) {
        RunStep::Serve(connection) => connection,
        other => panic!("unexpected step {:?}", other),
    }
}

/// Carries everything that waits on the outbound queue of `from` over the
/// wire to the endpoint of `to`, cut into pieces of `piece` bytes.
fn carry(from: &Connection, to: &mut Connection, piece: usize) {
    let mut wire = Vec::new();
    while let Ok(payload) = from.outbound_rx.try_recv() {
        wire.extend(framed(&payload));
    }
    for bytes in wire.chunks(piece) {
        assert_eq!(to.endpoint.step(FramerEvent::Received(bytes.to_vec())), FramerAction::Wait);
    }
}

fn forward_all(connection: &Connection, aggregator: &Aggregator) {
    while let Ok(payload) = connection.inbound_rx.try_recv() {
        aggregator.forward(&connection.peer_id, payload).unwrap();
    }
}

fn message(from: &str, content: &[u8]) -> IncomingMessage {
    IncomingMessage { from: from.to_string(), content: content.to_vec() }
}

#[test]
fn two_nodes_hear_each_other() {
    let mut alice = HyperBroadcast::new(b"alice".to_vec());
    let mut bob = HyperBroadcast::new(b"bob".to_vec());
    let mut at_alice = join(&mut alice, "bob:2");
    let mut at_bob = join(&mut bob, "alice:1");

    alice.broadcast("hello bob\n".to_string());
    bob.broadcast("hello alice\n".to_string());
    alice.broadcast("how are you?\n".to_string());

    let (incoming_tx, heard_by_bob) = unbounded();
    let bobs_ear = Aggregator::new(incoming_tx);
    carry(&at_alice, &mut at_bob, 3);
    forward_all(&at_bob, &bobs_ear);

    let (incoming_tx, heard_by_alice) = unbounded();
    let alices_ear = Aggregator::new(incoming_tx);
    carry(&at_bob, &mut at_alice, 1000);
    forward_all(&at_alice, &alices_ear);

    let mut by_bob = Vec::new();
    while let Ok(msg) = heard_by_bob.try_recv() {
        by_bob.push(msg);
    }
    assert_eq!(
        by_bob,
        vec![
            message("tcp:alice:1", b"alice"),
            message("tcp:alice:1", b"hello bob\n"),
            message("tcp:alice:1", b"how are you?\n"),
        ]
    );

    let mut by_alice = Vec::new();
    while let Ok(msg) = heard_by_alice.try_recv() {
        by_alice.push(msg);
    }
    assert_eq!(
        by_alice,
        vec![message("tcp:bob:2", b"bob"), message("tcp:bob:2", b"hello alice\n")]
    );

    let mut transcript = Transcript::new();
    let lines: Vec<String> = by_alice.into_iter().map(|msg| transcript.record(msg)).collect();
    assert_eq!(
        lines,
        vec!["[tcp:bob:2] is now known as \"bob\"", "[tcp:bob:2] <bob> hello alice\n"]
    );
}

#[test]
fn payloads_of_two_peers_keep_their_senders_when_merged() {
    let mut hub = HyperBroadcast::new(Vec::new());
    let mut first = join(&mut hub, "a:1");
    let mut second = join(&mut hub, "b:2");
    let (incoming_tx, merged) = unbounded();
    let aggregator = Aggregator::new(incoming_tx);

    let mut from_first = framed(b"a-1");
    from_first.extend(framed(b"a-2"));
    let from_second = framed(b"b-1");

    first.endpoint.step(FramerEvent::Received(from_first[..5].to_vec()));
    second.endpoint.step(FramerEvent::Received(from_second));
    first.endpoint.step(FramerEvent::Received(from_first[5..].to_vec()));
    forward_all(&second, &aggregator);
    forward_all(&first, &aggregator);

    let mut heard = Vec::new();
    while let Ok(msg) = merged.try_recv() {
        heard.push(msg);
    }
    assert_eq!(
        heard,
        vec![message("tcp:b:2", b"b-1"), message("tcp:a:1", b"a-1"), message("tcp:a:1", b"a-2")]
    );
}
