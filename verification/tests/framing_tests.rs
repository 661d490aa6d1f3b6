use hyperbroadcast::framing::{decode_frame, decode_frames, decode_length};
use hyperbroadcast::framing::{encode_frame, encode_length};

fn framed(payload: &[u8]) -> Vec<u8> {
    encode_frame(payload).unwrap()
}

#[test]
fn frame_of_hello() {
    assert_eq!(encode_frame(b"hello"), Some(vec![0, 0, 0, 5, b'h', b'e', b'l', b'l', b'o']));
}

#[test]
fn frame_of_empty_payload_is_a_bare_prefix() {
    let wire = framed(&[]);
    assert_eq!(wire, vec![0, 0, 0, 0]);
    assert_eq!(decode_frame(&wire), Some((vec![], 4)));
}

#[test]
fn length_prefix_is_big_endian() {
    assert_eq!(encode_length(0), [0, 0, 0, 0]);
    assert_eq!(encode_length(1), [0, 0, 0, 1]);
    assert_eq!(encode_length(256), [0, 0, 1, 0]);
    assert_eq!(encode_length(0x0102_0304), [1, 2, 3, 4]);
    assert_eq!(encode_length(0xffff_ffff), [0xff, 0xff, 0xff, 0xff]);
}

#[test]
fn length_prefix_is_read_big_endian() {
    assert_eq!(decode_length(&[0, 0, 0, 0]), 0);
    assert_eq!(decode_length(&[0, 0, 0, 5]), 5);
    assert_eq!(decode_length(&[0, 0, 1, 0]), 256);
    assert_eq!(decode_length(&[1, 2, 3, 4]), 0x0102_0304);
    assert_eq!(decode_length(&[0xff, 0xff, 0xff, 0xff]), u32::MAX);
}

#[test]
fn length_prefix_round_trip() {
    for len in [0u32, 1, 255, 256, 65_535, 65_536, 16_777_215, 16_777_216, 0xffff_ffff] {
        assert_eq!(decode_length(&encode_length(len)), len);
    }
}

#[test]
fn frame_round_trip() {
    let payloads: Vec<Vec<u8>> = vec![
        vec![],
        vec![0],
        vec![0xff; 3],
        b"a line of text\n".to_vec(),
        (0..=255u8).collect(),
        vec![7; 70_000],
    ];
    for payload in payloads {
        let wire = framed(&payload);
        assert_eq!(wire.len(), payload.len() + 4);
        assert_eq!(decode_frame(&wire), Some((payload, wire.len())));
    }
}

#[test]
fn decoder_waits_for_the_whole_prefix() {
    assert_eq!(decode_frame(&[]), None);
    assert_eq!(decode_frame(&[0]), None);
    assert_eq!(decode_frame(&[0, 0, 0]), None);
}

#[test]
fn decoder_waits_for_the_whole_payload() {
    let wire = framed(b"hello");
    for arrived in 0..wire.len() {
        assert_eq!(decode_frame(&wire[..arrived]), None);
    }
    assert_eq!(decode_frame(&wire), Some((b"hello".to_vec(), 9)));
}

#[test]
fn decoder_takes_only_the_first_frame() {
    let mut wire = framed(b"one");
    wire.extend(framed(b"three"));
    wire.push(0);

    let (first, used) = decode_frame(&wire).unwrap();
    assert_eq!(first, b"one".to_vec());
    assert_eq!(used, 7);

    let (second, used_again) = decode_frame(&wire[used..]).unwrap();
    assert_eq!(second, b"three".to_vec());
    assert_eq!(used_again, 9);

    assert_eq!(decode_frame(&wire[used + used_again..]), None);
}

#[test]
fn decode_frames_takes_every_whole_message() {
    let mut wire = framed(b"one");
    wire.extend(framed(b""));
    wire.extend(framed(b"three"));
    let whole = wire.len();
    wire.extend(&[0, 0, 0, 9, b'x']);
    assert_eq!(
        decode_frames(&wire),
        (vec![b"one".to_vec(), vec![], b"three".to_vec()], whole)
    );
}

#[test]
fn decode_frames_of_an_unfinished_message_takes_nothing() {
    assert_eq!(decode_frames(&[]), (Vec::<Vec<u8>>::new(), 0));
    assert_eq!(decode_frames(&[0, 0, 0]), (Vec::<Vec<u8>>::new(), 0));
    assert_eq!(decode_frames(&[0, 0, 0, 2, 1]), (Vec::<Vec<u8>>::new(), 0));
}
