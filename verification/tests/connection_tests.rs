use async_std::channel::{bounded, unbounded, Receiver, TryRecvError};
use hyperbroadcast::connection::{Endpoint, Framer, FramerAction, FramerEvent, Termination};
use hyperbroadcast::channel::Refusal;
use hyperbroadcast::framing::encode_frame;

fn framed(payload: &[u8]) -> Vec<u8> {
    encode_frame(payload).unwrap()
}

fn framer() -> Framer {
    Framer::new("tcp:127.0.0.1:4000".to_string())
}

fn stop(cause: Termination) -> FramerAction {
    FramerAction::Stop { peer: "tcp:127.0.0.1:4000".to_string(), cause }
}

fn received(bytes: &[u8]) -> FramerEvent {
    FramerEvent::Received(bytes.to_vec())
}

fn deliver(payloads: &[&[u8]]) -> FramerAction {
    FramerAction::Deliver(payloads.iter().map(|payload| payload.to_vec()).collect())
}

#[test]
fn new_framer_is_active_and_wants_a_prefix() {
    let framer = framer();
    assert_eq!(framer.ended(), None);
    assert_eq!(framer.wanted(), Some(4));
}

#[test]
fn prefix_then_payload_is_delivered() {
    let mut framer = framer();
    assert_eq!(framer.step(received(&[0, 0, 0, 5])), FramerAction::Wait);
    assert_eq!(framer.wanted(), Some(5));
    assert_eq!(framer.step(received(b"hello")), deliver(&[b"hello"]));
    assert_eq!(framer.wanted(), Some(4));
    assert_eq!(framer.ended(), None);
}

#[test]
fn wanted_counts_down_as_bytes_arrive() {
    let mut framer = framer();
    assert_eq!(framer.step(received(&[0])), FramerAction::Wait);
    assert_eq!(framer.wanted(), Some(3));
    assert_eq!(framer.step(received(&[0, 1])), FramerAction::Wait);
    assert_eq!(framer.wanted(), Some(1));
    assert_eq!(framer.step(received(&[2])), FramerAction::Wait);
    assert_eq!(framer.wanted(), Some(258));
    assert_eq!(framer.step(received(&[7; 200])), FramerAction::Wait);
    assert_eq!(framer.wanted(), Some(58));
    assert_eq!(framer.step(received(&[7; 58])), deliver(&[&[7; 258]]));
    assert_eq!(framer.wanted(), Some(4));
}

#[test]
fn no_bytes_change_nothing() {
    let mut framer = framer();
    assert_eq!(framer.step(received(&[])), FramerAction::Wait);
    assert_eq!(framer.wanted(), Some(4));
    assert_eq!(framer.step(received(&[0, 0])), FramerAction::Wait);
    assert_eq!(framer.step(received(&[])), FramerAction::Wait);
    assert_eq!(framer.wanted(), Some(2));
}

#[test]
fn what_is_written_is_what_is_read() {
    let mut writer = framer();
    let mut reader = framer();
    let payload = b"over the wire".to_vec();

    let wire = match writer.step(FramerEvent::Outbound(payload.clone())) {
        FramerAction::Write(bytes) => bytes,
        other => panic!("unexpected action {:?}", other),
    };
    assert_eq!(reader.step(FramerEvent::Received(wire)), FramerAction::Deliver(vec![payload]));
    assert_eq!(reader.wanted(), Some(4));
}

#[test]
fn every_split_of_the_wire_gives_the_same_payloads() {
    let payloads: Vec<Vec<u8>> = vec![b"alpha".to_vec(), vec![], b"gamma and more".to_vec()];
    let mut wire = Vec::new();
    for payload in &payloads {
        wire.extend(framed(payload));
    }
    for cut in 0..=wire.len() {
        let mut framer = framer();
        let mut got = Vec::new();
        for piece in [&wire[..cut], &wire[cut..]] {
            if let FramerAction::Deliver(read) = framer.step(received(piece)) {
                got.extend(read);
            }
        }
        assert_eq!(got, payloads);
        assert_eq!(framer.wanted(), Some(4));
    }
}

#[test]
fn bytes_that_arrive_one_by_one_give_the_same_payloads() {
    let mut wire = framed(b"one");
    wire.extend(framed(b"two"));
    let mut framer = framer();
    let mut got = Vec::new();
    for byte in wire {
        match framer.step(received(&[byte])) {
            FramerAction::Deliver(read) => got.extend(read),
            FramerAction::Wait => {}
            other => panic!("unexpected action {:?}", other),
        }
    }
    assert_eq!(got, vec![b"one".to_vec(), b"two".to_vec()]);
}

#[test]
fn several_messages_in_one_piece_are_delivered_in_order() {
    let mut wire = framed(b"first");
    wire.extend(framed(b"second"));
    wire.extend(&[0, 0]);
    let mut framer = framer();
    assert_eq!(framer.step(FramerEvent::Received(wire)), deliver(&[b"first", b"second"]));
    assert_eq!(framer.wanted(), Some(2));
}

#[test]
fn empty_payload_is_delivered() {
    let mut framer = framer();
    assert_eq!(framer.step(received(&[0, 0, 0, 0])), deliver(&[b""]));
    assert_eq!(framer.wanted(), Some(4));
}

#[test]
fn outbound_payload_is_framed() {
    let mut framer = framer();
    assert_eq!(
        framer.step(FramerEvent::Outbound(b"hi".to_vec())),
        FramerAction::Write(vec![0, 0, 0, 2, b'h', b'i'])
    );
    assert_eq!(framer.ended(), None);
}

#[test]
fn outbound_payloads_are_written_in_order() {
    let mut framer = framer();
    let mut written = Vec::new();
    for payload in [b"first".to_vec(), b"second".to_vec(), b"third".to_vec()] {
        match framer.step(FramerEvent::Outbound(payload)) {
            FramerAction::Write(bytes) => written.extend(bytes),
            other => panic!("unexpected action {:?}", other),
        }
    }
    let mut expected = framed(b"first");
    expected.extend(framed(b"second"));
    expected.extend(framed(b"third"));
    assert_eq!(written, expected);
}

#[test]
fn writing_does_not_disturb_reading() {
    let mut framer = framer();
    assert_eq!(framer.step(received(&[0, 0, 0, 3, b'a'])), FramerAction::Wait);
    assert_eq!(
        framer.step(FramerEvent::Outbound(b"x".to_vec())),
        FramerAction::Write(vec![0, 0, 0, 1, b'x'])
    );
    assert_eq!(framer.wanted(), Some(2));
    assert_eq!(framer.step(received(b"bc")), deliver(&[b"abc"]));
}

#[test]
fn failed_read_ends_the_connection() {
    let mut framer = framer();
    assert_eq!(framer.step(FramerEvent::ReadFailed), stop(Termination::ReadFailed));
    assert_eq!(framer.ended(), Some(Termination::ReadFailed));
    assert_eq!(framer.wanted(), None);
}

#[test]
fn stream_that_ends_within_a_message_ends_the_connection() {
    let mut framer = framer();
    assert_eq!(framer.step(received(&[0, 0, 0, 5, b'h', b'e'])), FramerAction::Wait);
    assert_eq!(framer.step(FramerEvent::ReadFailed), stop(Termination::ReadFailed));
    assert_eq!(framer.ended(), Some(Termination::ReadFailed));
}

#[test]
fn closed_outbound_queue_ends_the_connection() {
    let mut framer = framer();
    assert_eq!(framer.step(FramerEvent::OutboundClosed), stop(Termination::OutboundClosed));
    assert_eq!(framer.ended(), Some(Termination::OutboundClosed));
}

#[test]
fn failed_write_ends_the_connection() {
    let mut framer = framer();
    assert!(matches!(
        framer.step(FramerEvent::Outbound(b"lost".to_vec())),
        FramerAction::Write(_)
    ));
    assert_eq!(framer.step(FramerEvent::WriteFailed), stop(Termination::WriteFailed));
    assert_eq!(framer.ended(), Some(Termination::WriteFailed));
}

#[test]
fn refused_delivery_ends_the_connection() {
    let mut framer = framer();
    assert_eq!(framer.step(received(&[0, 0, 0, 1, 9])), deliver(&[&[9]]));
    assert_eq!(
        framer.step(FramerEvent::DeliveryFailed(Refusal::Closed)),
        stop(Termination::InboundClosed)
    );
    assert_eq!(framer.ended(), Some(Termination::InboundClosed));
}

#[test]
fn ended_connection_stays_ended() {
    let mut framer = framer();
    assert_eq!(framer.step(FramerEvent::OutboundClosed), stop(Termination::OutboundClosed));
    let later = vec![
        received(&[0, 0, 0, 1, 1]),
        FramerEvent::ReadFailed,
        FramerEvent::Outbound(b"late".to_vec()),
        FramerEvent::OutboundClosed,
        FramerEvent::WriteFailed,
        FramerEvent::DeliveryFailed(Refusal::Closed),
    ];
    for event in later {
        assert_eq!(framer.step(event), stop(Termination::OutboundClosed));
        assert_eq!(framer.ended(), Some(Termination::OutboundClosed));
        assert_eq!(framer.wanted(), None);
    }
}

fn endpoint() -> (Endpoint, Receiver<Vec<u8>>) {
    let (inbound_tx, inbound_rx) = unbounded();
    (Endpoint::new("tcp:127.0.0.1:4000".to_string(), inbound_tx), inbound_rx)
}

fn drain(inbound: &Receiver<Vec<u8>>) -> Vec<Vec<u8>> {
    let mut payloads = Vec::new();
    while let Ok(payload) = inbound.try_recv() {
        payloads.push(payload);
    }
    payloads
}

#[test]
fn endpoint_puts_what_it_reads_on_the_inbound_queue() {
    let (mut endpoint, inbound) = endpoint();
    assert_eq!(endpoint.step(received(&[0, 0, 0, 5, b'h'])), FramerAction::Wait);
    assert_eq!(inbound.try_recv(), Err(TryRecvError::Empty));
    assert_eq!(endpoint.wanted(), Some(4));
    assert_eq!(endpoint.step(received(b"ello")), FramerAction::Wait);
    assert_eq!(drain(&inbound), vec![b"hello".to_vec()]);
    assert_eq!(endpoint.ended(), None);
}

#[test]
fn endpoint_keeps_the_order_of_what_it_reads() {
    let (mut endpoint, inbound) = endpoint();
    let mut wire = framed(b"one");
    wire.extend(framed(b""));
    wire.extend(framed(b"three"));
    wire.extend(framed(b"four"));
    let (head, tail) = wire.split_at(17);
    assert_eq!(endpoint.step(received(head)), FramerAction::Wait);
    assert_eq!(endpoint.step(received(tail)), FramerAction::Wait);
    assert_eq!(
        drain(&inbound),
        vec![b"one".to_vec(), vec![], b"three".to_vec(), b"four".to_vec()]
    );
}

#[test]
fn endpoint_frames_what_goes_out() {
    let (mut endpoint, inbound) = endpoint();
    assert_eq!(
        endpoint.step(FramerEvent::Outbound(b"out".to_vec())),
        FramerAction::Write(vec![0, 0, 0, 3, b'o', b'u', b't'])
    );
    assert!(drain(&inbound).is_empty());
}

#[test]
fn endpoint_ends_when_the_inbound_queue_is_gone() {
    let (mut endpoint, inbound) = endpoint();
    drop(inbound);
    assert_eq!(endpoint.step(received(&[0, 0, 0, 1])), FramerAction::Wait);
    assert_eq!(endpoint.step(received(&[7])), stop(Termination::InboundClosed));
    assert_eq!(endpoint.ended(), Some(Termination::InboundClosed));
    assert_eq!(endpoint.wanted(), None);
    assert_eq!(endpoint.step(received(&[0, 0, 0, 0])), stop(Termination::InboundClosed));
}

#[test]
fn endpoint_ends_on_failures() {
    for (event, cause) in [
        (FramerEvent::ReadFailed, Termination::ReadFailed),
        (FramerEvent::WriteFailed, Termination::WriteFailed),
        (FramerEvent::OutboundClosed, Termination::OutboundClosed),
        (FramerEvent::DeliveryFailed(Refusal::Closed), Termination::InboundClosed),
        (FramerEvent::DeliveryFailed(Refusal::Full), Termination::InboundFull),
    ] {
        let (mut endpoint, _inbound) = endpoint();
        assert_eq!(endpoint.step(event), stop(cause));
        assert_eq!(endpoint.ended(), Some(cause));
    }
}

#[test]
fn delivered_follows_the_answer_of_the_queue() {
    let (mut endpoint, _inbound) = endpoint();
    assert_eq!(endpoint.delivered(None), FramerAction::Wait);
    assert_eq!(endpoint.ended(), None);
    assert_eq!(endpoint.delivered(Some(Refusal::Closed)), stop(Termination::InboundClosed));
    assert_eq!(endpoint.ended(), Some(Termination::InboundClosed));
}

#[test]
fn delivered_tells_a_full_queue_from_a_closed_one() {
    let (mut endpoint, _inbound) = endpoint();
    assert_eq!(endpoint.delivered(Some(Refusal::Full)), stop(Termination::InboundFull));
    assert_eq!(endpoint.ended(), Some(Termination::InboundFull));
}

#[test]
fn endpoint_ends_when_a_bounded_inbound_queue_is_full() {
    let (inbound_tx, inbound) = bounded(1);
    let mut endpoint = Endpoint::new("tcp:127.0.0.1:4000".to_string(), inbound_tx);
    assert_eq!(endpoint.step(FramerEvent::Received(framed(b"fits"))), FramerAction::Wait);
    assert_eq!(
        endpoint.step(FramerEvent::Received(framed(b"does not"))),
        stop(Termination::InboundFull)
    );
    assert_eq!(endpoint.ended(), Some(Termination::InboundFull));
    assert_eq!(drain(&inbound), vec![b"fits".to_vec()]);
}

#[test]
fn delivery_refused_by_a_full_queue_ends_the_framer_for_that_cause() {
    let mut framer = framer();
    assert_eq!(
        framer.step(FramerEvent::DeliveryFailed(Refusal::Full)),
        stop(Termination::InboundFull)
    );
    assert_eq!(framer.ended(), Some(Termination::InboundFull));
}

#[test]
fn causes_are_told_in_words() {
    assert_eq!(Termination::ReadFailed.describe(), "the stream failed on a read");
    assert_eq!(Termination::WriteFailed.describe(), "the stream failed on a write");
    assert_eq!(Termination::OutboundClosed.describe(), "Remote connection closed?");
    assert_eq!(Termination::InboundClosed.describe(), "sending into a closed channel");
    assert_eq!(Termination::InboundFull.describe(), "sending into a full channel");
    assert_eq!(Termination::PayloadTooLong.describe(), "payload too long for a frame");
}

#[test]
fn refusals_are_told_in_words() {
    assert_eq!(Refusal::Closed.describe(), "sending into a closed channel");
    assert_eq!(Refusal::Full.describe(), "sending into a full channel");
}
