//! The wire format: nine-byte request frames and four-byte responses.
//!
//! A request is a tag byte followed by two signed 32-bit integers, most
//! significant byte first. There is no length prefix, checksum or escaping.

use vstd::prelude::*;

verus! {

/// Length in bytes of one request frame.
pub const FRAME_LEN: usize = 9;

/// Length in bytes of one response.
pub const RESPONSE_LEN: usize = 4;

/// Tag of a frame that records an observation.
pub const INSERT_TAG: char = 'I';

/// Tag of a frame that asks for a mean.
pub const QUERY_TAG: char = 'Q';

/// Why bytes could not be decoded.
#[derive(Debug, Clone, Copy, PartialEq, Eq, Structural)]
pub enum FrameError {
    /// The stream ended before a whole message was available.
    IncompleteFrame,
}

/// The first four bytes of `b` read as an unsigned big-endian number.
pub open spec fn be_u32(b: Seq<u8>) -> int
    recommends
        b.len() >= 4,
{
    b[0] as int * 0x100_0000 + b[1] as int * 0x1_0000 + b[2] as int * 0x100 + b[3] as int
}

/// The first four bytes of `b` read as a two's complement big-endian number.
pub open spec fn be_i32(b: Seq<u8>) -> i32
    recommends
        b.len() >= 4,
{
    let u = be_u32(b);
    if u >= 0x8000_0000 {
        (u - 0x1_0000_0000) as i32
    } else {
        u as i32
    }
}

/// The four big-endian bytes of `v` in two's complement.
pub open spec fn i32_be_bytes(v: i32) -> Seq<u8> {
    let u: int = if v < 0 {
        v + 0x1_0000_0000
    } else {
        v as int
    };
    seq![
        (u / 0x100_0000) as u8,
        (u / 0x1_0000 % 0x100) as u8,
        (u / 0x100 % 0x100) as u8,
        (u % 0x100) as u8,
    ]
}

/// The frame that the first nine bytes of `b` hold.
pub open spec fn decode_frame(b: Seq<u8>) -> (char, i32, i32)
    recommends
        b.len() >= FRAME_LEN,
{
    (b[0] as char, be_i32(b.subrange(1, 5)), be_i32(b.subrange(5, 9)))
}

/// The nine bytes of the frame `(tag, field1, field2)`.
pub open spec fn encode_frame(tag: u8, field1: i32, field2: i32) -> Seq<u8> {
    seq![tag] + i32_be_bytes(field1) + i32_be_bytes(field2)
}

/// Decoding undoes encoding, for every `i32`.
pub proof fn lemma_i32_round_trip(v: i32)
    ensures
        i32_be_bytes(v).len() == RESPONSE_LEN,
        be_i32(i32_be_bytes(v)) == v,
{
}

/// Encoding undoes decoding, for every four bytes.
pub proof fn lemma_i32_bytes_round_trip(b: Seq<u8>)
    requires
        b.len() == 4,
    ensures
        i32_be_bytes(be_i32(b)) == b,
{
    assert(i32_be_bytes(be_i32(b)) =~= b);
}

/// Encoding a frame and decoding the bytes gives the same tag and fields
/// back, for every tag byte and every pair of `i32`s.
pub proof fn lemma_frame_round_trip(tag: u8, field1: i32, field2: i32)
    ensures
        encode_frame(tag, field1, field2).len() == FRAME_LEN,
        decode_frame(encode_frame(tag, field1, field2)) == (tag as char, field1, field2),
        (tag as char) as u8 == tag,
{
    let bytes = encode_frame(tag, field1, field2);
    assert(bytes.subrange(1, 5) =~= i32_be_bytes(field1));
    assert(bytes.subrange(5, 9) =~= i32_be_bytes(field2));
    lemma_i32_round_trip(field1);
    lemma_i32_round_trip(field2);
}

/// Decoding nine bytes and encoding the frame gives the same bytes back.
pub proof fn lemma_frame_bytes_round_trip(b: Seq<u8>)
    requires
        b.len() == FRAME_LEN,
    ensures
        ({
            let (tag, field1, field2) = decode_frame(b);
            encode_frame(tag as u8, field1, field2) == b
        }),
{
    lemma_i32_bytes_round_trip(b.subrange(1, 5));
    lemma_i32_bytes_round_trip(b.subrange(5, 9));
    let (tag, field1, field2) = decode_frame(b);
    assert(encode_frame(tag as u8, field1, field2) =~= b);
}

/// Reads the big-endian `i32` that starts at `at`.
fn i32_at(bytes: &[u8], at: usize) -> (v: i32)
    requires
        at + 4 <= bytes@.len(),
    ensures
        v == be_i32(bytes@.subrange(at as int, at + 4)),
{
    let u: i64 = bytes[at] as i64 * 0x100_0000 + bytes[at + 1] as i64 * 0x1_0000 + bytes[at
        + 2] as i64 * 0x100 + bytes[at + 3] as i64;
    if u >= 0x8000_0000 {
        (u - 0x1_0000_0000) as i32
    } else {
        u as i32
    }
}

/// Decodes the frame at the start of `stream`.
///
/// Fails with [`FrameError::IncompleteFrame`] exactly when fewer than nine
/// bytes are there, an empty stream included. Bytes after the ninth are not
/// looked at.
pub fn read_message(stream: &[u8]) -> (message: Result<(char, i32, i32), FrameError>)
    ensures
        stream@.len() >= FRAME_LEN ==> message == Ok::<(char, i32, i32), FrameError>(
            decode_frame(stream@),
        ),
        stream@.len() < FRAME_LEN ==> message == Err::<(char, i32, i32), FrameError>(
            FrameError::IncompleteFrame,
        ),
{
    if stream.len() < FRAME_LEN {
        return Err(FrameError::IncompleteFrame);
    }
    let tag = stream[0] as char;
    let field1 = i32_at(stream, 1);
    let field2 = i32_at(stream, 5);
    Ok((tag, field1, field2))
}

/// Encodes a frame: the tag byte, then both fields big-endian.
///
/// [`read_message`] gives the same tag and fields back.
pub fn write_message(tag: u8, field1: i32, field2: i32) -> (bytes: [u8; 9])
    ensures
        bytes@ == encode_frame(tag, field1, field2),
        decode_frame(bytes@) == (tag as char, field1, field2),
{
    let a = write_response(field1);
    let b = write_response(field2);
    let bytes: [u8; 9] = [tag, a[0], a[1], a[2], a[3], b[0], b[1], b[2], b[3]];
    proof {
        assert(bytes@ =~= encode_frame(tag, field1, field2));
        lemma_frame_round_trip(tag, field1, field2);
    }
    bytes
}

/// Decodes a response: the big-endian `i32` at the start of `stream`.
///
/// Fails exactly when fewer than four bytes are there.
pub fn read_response(stream: &[u8]) -> (value: Result<i32, FrameError>)
    ensures
        stream@.len() >= RESPONSE_LEN ==> value == Ok::<i32, FrameError>(be_i32(stream@)),
        stream@.len() < RESPONSE_LEN ==> value == Err::<i32, FrameError>(
            FrameError::IncompleteFrame,
        ),
{
    if stream.len() < RESPONSE_LEN {
        return Err(FrameError::IncompleteFrame);
    }
    Ok(i32_at(stream, 0))
}

/// Encodes a response: the four big-endian bytes of `value`.
///
/// [`read_response`] gives `value` back.
pub fn write_response(value: i32) -> (bytes: [u8; 4])
    ensures
        bytes@ == i32_be_bytes(value),
        be_i32(bytes@) == value,
{
    let u: u64 = if value < 0 {
        (value as i64 + 0x1_0000_0000) as u64
    } else {
        value as u64
    };
    let bytes: [u8; 4] = [
        (u / 0x100_0000) as u8,
        (u / 0x1_0000 % 0x100) as u8,
        (u / 0x100 % 0x100) as u8,
        (u % 0x100) as u8,
    ];
    assert(bytes@ =~= i32_be_bytes(value));
    bytes
}

} // verus!
