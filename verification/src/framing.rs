//! The wire format of one connection: every message travels as a four-byte
//! big-endian length followed by that many payload bytes, the same in both
//! directions.

use vstd::prelude::*;
use vstd::slice::*;

verus! {

/// Number of bytes in a length prefix.
pub const HEADER_LEN: usize = 4;

/// The least length that no prefix can express: a payload can be framed when
/// it is shorter than this.
pub open spec fn length_modulus() -> nat {
    0x1_0000_0000
}

/// The number that the first four bytes of `bytes` denote, most significant
/// byte first.
pub open spec fn be32_value(bytes: Seq<u8>) -> nat
    recommends
        bytes.len() >= 4,
{
    (bytes[0] as nat) * 0x100_0000 + (bytes[1] as nat) * 0x1_0000 + (bytes[2] as nat) * 0x100
        + (bytes[3] as nat)
}

/// The four bytes that denote `n`, most significant byte first. Only a number
/// below 2^32 has such bytes.
pub open spec fn be32_bytes(n: nat) -> Seq<u8>
    recommends
        n < length_modulus(),
{
    seq![
        (n / 0x100_0000) as u8,
        ((n / 0x1_0000) % 0x100) as u8,
        ((n / 0x100) % 0x100) as u8,
        (n % 0x100) as u8,
    ]
}

/// The bytes that carry `payload` on the wire: its length as a prefix, then the
/// payload itself. Only a payload shorter than 2^32 bytes has a frame.
pub open spec fn frame(payload: Seq<u8>) -> Seq<u8>
    recommends
        payload.len() < length_modulus(),
{
    be32_bytes(payload.len()) + payload
}

/// The first message at the head of `bytes` and the number of bytes it
/// occupies, or `None` while the bytes do not yet hold a whole frame.
pub open spec fn first_frame(bytes: Seq<u8>) -> Option<(Seq<u8>, nat)> {
    if bytes.len() >= 4 && bytes.len() - 4 >= be32_value(bytes) {
        let len = be32_value(bytes);
        Some((bytes.subrange(4, 4 + len as int), 4 + len))
    } else {
        None
    }
}

/// A prefix read back gives the number it was written for.
pub proof fn lemma_prefix_round_trip(n: nat)
    requires
        n < length_modulus(),
    ensures
        be32_bytes(n).len() == 4,
        be32_value(be32_bytes(n)) == n,
{
    let b0 = n / 0x100_0000;
    let b1 = (n / 0x1_0000) % 0x100;
    let b2 = (n / 0x100) % 0x100;
    let b3 = n % 0x100;
    assert(be32_bytes(n) =~= seq![b0 as u8, b1 as u8, b2 as u8, b3 as u8]);
    assert(b0 * 0x100_0000 + b1 * 0x1_0000 + b2 * 0x100 + b3 == n);
}

/// Four bytes written again from the number they denote are the same four
/// bytes: distinct prefixes denote distinct lengths.
pub proof fn lemma_value_round_trip(header: Seq<u8>)
    requires
        header.len() == 4,
    ensures
        be32_value(header) < length_modulus(),
        be32_bytes(be32_value(header)) == header,
{
    let n = be32_value(header);
    assert(n / 0x100_0000 == header[0]);
    assert((n / 0x1_0000) % 0x100 == header[1]);
    assert((n / 0x100) % 0x100 == header[2]);
    assert(n % 0x100 == header[3]);
    assert(be32_bytes(n) =~= header);
}

/// Framing round trip: a payload shorter than 2^32 bytes, once framed, is read
/// back unchanged, whatever follows it on the stream, and the reader consumes
/// exactly the frame.
pub proof fn lemma_frame_round_trip(payload: Seq<u8>, rest: Seq<u8>)
    requires
        payload.len() < length_modulus(),
    ensures
        first_frame(frame(payload) + rest) == Some((payload, 4 + payload.len())),
        first_frame(frame(payload)) == Some((payload, frame(payload).len())),
{
    lemma_prefix_round_trip(payload.len());
    assert(be32_value(frame(payload) + rest) == be32_value(be32_bytes(payload.len())));
    assert(be32_value(frame(payload)) == be32_value(be32_bytes(payload.len())));
}

/// A whole frame is never mistaken for an unfinished one, and an unfinished
/// one never yields a message: while fewer bytes than the frame needs have
/// arrived, the reader waits.
pub proof fn lemma_partial_frame_waits(payload: Seq<u8>, arrived: int)
    requires
        payload.len() < length_modulus(),
        0 <= arrived < frame(payload).len(),
    ensures
        first_frame(frame(payload).subrange(0, arrived)) is None,
{
    lemma_prefix_round_trip(payload.len());
    if arrived >= 4 {
        assert(be32_value(frame(payload).subrange(0, arrived)) == be32_value(
            be32_bytes(payload.len()),
        ));
    }
}

/// Writes a length as the four-byte prefix of a frame.
pub fn encode_length(len: u32) -> (header: [u8; 4])
    ensures
        header@ == be32_bytes(len as nat),
{
    let b0: u8 = (len / 0x100_0000) as u8;
    let b1: u8 = ((len / 0x1_0000) % 0x100) as u8;
    let b2: u8 = ((len / 0x100) % 0x100) as u8;
    let b3: u8 = (len % 0x100) as u8;
    let header: [u8; 4] = [b0, b1, b2, b3];
    assert(header@ =~= be32_bytes(len as nat));
    header
}

/// Reads the length that the four-byte prefix of a frame announces.
pub fn decode_length(header: &[u8; 4]) -> (len: u32)
    ensures
        len as nat == be32_value(header@),
{
    let b0: u32 = header[0] as u32;
    let b1: u32 = header[1] as u32;
    let b2: u32 = header[2] as u32;
    let b3: u32 = header[3] as u32;
    b0 * 0x100_0000 + b1 * 0x1_0000 + b2 * 0x100 + b3
}

/// Frames one payload for the wire. A payload of 2^32 bytes or more has no
/// frame, because no prefix can tell its length: for such a payload the
/// answer is `None`.
pub fn encode_frame(payload: &[u8]) -> (bytes: Option<Vec<u8>>)
    ensures
        match bytes {
            Some(bytes) => payload@.len() < length_modulus() && bytes@ == frame(payload@),
            None => payload@.len() >= length_modulus(),
        },
{
    if payload.len() > 0xffff_ffff {
        return None;
    }
    let header = encode_length(payload.len() as u32);
    let mut bytes: Vec<u8> = Vec::new();
    bytes.extend_from_slice(header.as_slice());
    bytes.extend_from_slice(payload);
    Some(bytes)
}

/// Takes the first message off the head of a byte stream. Returns the payload
/// and the number of bytes the frame occupied, or `None` while `bytes` ends
/// before the frame does.
pub fn decode_frame(bytes: &[u8]) -> (found: Option<(Vec<u8>, usize)>)
    ensures
        match found {
            Some((payload, used)) => first_frame(bytes@) == Some((payload@, used as nat)),
            None => first_frame(bytes@) is None,
        },
{
    if bytes.len() < HEADER_LEN {
        return None;
    }
    let header: [u8; 4] = [bytes[0], bytes[1], bytes[2], bytes[3]];
    let len: usize = decode_length(&header) as usize;
    assert(len as nat == be32_value(bytes@));
    if bytes.len() - HEADER_LEN < len {
        return None;
    }
    let end: usize = HEADER_LEN + len;
    let payload = slice_to_vec(slice_subrange(bytes, HEADER_LEN, end));
    Some((payload, end))
}

/// The payloads of a series of exec byte vectors.
pub open spec fn payloads_of(items: Seq<Vec<u8>>) -> Seq<Seq<u8>> {
    Seq::new(items.len(), |i: int| items[i]@)
}

/// The bytes that carry a series of payloads on the wire: the frame of each,
/// one after the other.
pub open spec fn wire_of(payloads: Seq<Seq<u8>>) -> Seq<u8>
    decreases payloads.len(),
{
    if payloads.len() == 0 {
        Seq::empty()
    } else {
        frame(payloads.first()) + wire_of(payloads.drop_first())
    }
}

/// The messages that stand whole at the head of `bytes`, in their order, and
/// the bytes that are left behind the last of them.
pub open spec fn split_frames(bytes: Seq<u8>) -> (Seq<Seq<u8>>, Seq<u8>)
    decreases bytes.len(),
{
    match first_frame(bytes) {
        Some((payload, used)) => {
            let (more, rest) = split_frames(bytes.skip(used as int));
            (seq![payload] + more, rest)
        },
        None => (Seq::empty(), bytes),
    }
}

/// What is left behind the whole messages holds no whole message, and the
/// messages together with what is left account for every byte.
pub proof fn lemma_split_is_complete(bytes: Seq<u8>)
    ensures
        first_frame(split_frames(bytes).1) is None,
        split_frames(split_frames(bytes).1) == (Seq::<Seq<u8>>::empty(), split_frames(bytes).1),
        split_frames(bytes).1.len() <= bytes.len(),
    decreases bytes.len(),
{
    match first_frame(bytes) {
        Some((payload, used)) => {
            lemma_split_is_complete(bytes.skip(used as int));
        },
        None => {},
    }
}

/// A message that stands whole at the head of some bytes is the same message
/// whatever arrives after them.
pub proof fn lemma_first_frame_is_settled(bytes: Seq<u8>, more: Seq<u8>)
    requires
        first_frame(bytes) is Some,
    ensures
        first_frame(bytes + more) == first_frame(bytes),
        (bytes + more).skip(first_frame(bytes).unwrap().1 as int) == bytes.skip(
            first_frame(bytes).unwrap().1 as int,
        ) + more,
{
    assert(be32_value(bytes + more) == be32_value(bytes));
}

/// Chunking does not matter: bytes that arrive in two pieces yield the same
/// messages, in the same order, and leave the same remainder as the same
/// bytes arriving at once. The second piece is read on from what the first
/// piece left.
pub proof fn lemma_split_goes_on(bytes: Seq<u8>, more: Seq<u8>)
    ensures
        split_frames(bytes + more) == (
            split_frames(bytes).0 + split_frames(split_frames(bytes).1 + more).0,
            split_frames(split_frames(bytes).1 + more).1,
        ),
    decreases bytes.len(),
{
    match first_frame(bytes) {
        Some((payload, used)) => {
            lemma_first_frame_is_settled(bytes, more);
            lemma_split_goes_on(bytes.skip(used as int), more);
        },
        None => {},
    }
}

/// Stream round trip: payloads shorter than 2^32 bytes each, framed one after
/// the other, are read back as the same payloads in the same order, each
/// once, and nothing is left over.
pub proof fn lemma_wire_round_trip(payloads: Seq<Seq<u8>>)
    requires
        forall|i: int|
            0 <= i < payloads.len() ==> (#[trigger] payloads[i]).len() < length_modulus(),
    ensures
        split_frames(wire_of(payloads)) == (payloads, Seq::<u8>::empty()),
    decreases payloads.len(),
{
    if payloads.len() > 0 {
        let head = payloads.first();
        let tail = payloads.drop_first();
        lemma_wire_round_trip(tail);
        lemma_frame_round_trip(head, wire_of(tail));
        assert(wire_of(payloads).skip(4 + head.len() as int) =~= wire_of(tail));
    }
}

/// Takes every whole message off the head of a byte stream. Returns the
/// payloads in their order and the number of bytes they occupied together.
pub fn decode_frames(bytes: &[u8]) -> (found: (Vec<Vec<u8>>, usize))
    ensures
        found.1 <= bytes@.len(),
        payloads_of(found.0@) == split_frames(bytes@).0,
        bytes@.skip(found.1 as int) == split_frames(bytes@).1,
{
    let mut payloads: Vec<Vec<u8>> = Vec::new();
    let mut start: usize = 0;
    proof {
        assert(bytes@.skip(0) =~= bytes@);
        assert(payloads_of(payloads@) + split_frames(bytes@).0 =~= split_frames(bytes@).0);
    }
    loop
        invariant
            start <= bytes@.len(),
            split_frames(bytes@).0 == payloads_of(payloads@) + split_frames(
                bytes@.skip(start as int),
            ).0,
            split_frames(bytes@).1 == split_frames(bytes@.skip(start as int)).1,
        ensures
            start <= bytes@.len(),
            payloads_of(payloads@) == split_frames(bytes@).0,
            bytes@.skip(start as int) == split_frames(bytes@).1,
        decreases bytes@.len() - start,
    {
        let ghost ahead = bytes@.skip(start as int);
        assert(bytes@.subrange(start as int, bytes@.len() as int) =~= ahead);
        match decode_frame(slice_subrange(bytes, start, bytes.len())) {
            Some((payload, used)) => {
                assert(ahead.skip(used as int) =~= bytes@.skip(start + used));
                payloads.push(payload);
                start = start + used;
            },
            None => {
                assert(payloads_of(payloads@) + Seq::<Seq<u8>>::empty() =~= payloads_of(
                    payloads@,
                ));
                break ;
            },
        }
    }
    (payloads, start)
}

} // verus!
