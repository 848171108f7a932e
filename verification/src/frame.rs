//! Length-prefixed framing: a four-byte big-endian length, then that many
//! payload bytes.

use vstd::prelude::*;
use vstd::slice::{slice_subrange, slice_to_vec};
use crate::error::AncError;

verus! {

/// The number of bytes in a frame's length prefix.
pub const HEADER_LEN: usize = 4;

/// The number that four bytes spell, most significant byte first.
pub open spec fn be32(b: Seq<u8>) -> int
    recommends
        b.len() == 4,
{
    b[0] * 0x100_0000 + b[1] * 0x1_0000 + b[2] * 0x100 + b[3]
}

/// The four bytes that spell `n`, most significant byte first.
pub open spec fn be32_bytes(n: int) -> Seq<u8>
    recommends
        0 <= n <= u32::MAX,
{
    seq![
        (n / 0x100_0000) as u8,
        (n / 0x1_0000 % 0x100) as u8,
        (n / 0x100 % 0x100) as u8,
        (n % 0x100) as u8,
    ]
}

/// The bytes of one frame around `payload`.
pub open spec fn framed(payload: Seq<u8>) -> Seq<u8>
    recommends
        payload.len() <= u32::MAX,
{
    be32_bytes(payload.len() as int) + payload
}

/// Reads the payload length that a frame's prefix declares.
pub fn frame_length(header: &[u8; 4]) -> (len: u32)
    ensures
        len == be32(header@),
{
    let b0: u32 = header[0] as u32;
    let b1: u32 = header[1] as u32;
    let b2: u32 = header[2] as u32;
    let b3: u32 = header[3] as u32;
    b0 * 0x100_0000 + b1 * 0x1_0000 + b2 * 0x100 + b3
}

/// Writes the prefix that declares a payload of `len` bytes.
pub fn frame_header(len: u32) -> (header: [u8; 4])
    ensures
        header@ == be32_bytes(len as int),
{
    let header: [u8; 4] = [
        (len / 0x100_0000) as u8,
        (len / 0x1_0000 % 0x100) as u8,
        (len / 0x100 % 0x100) as u8,
        (len % 0x100) as u8,
    ];
    assert(header@ =~= be32_bytes(len as int));
    header
}

/// A prefix read back gives the length it was written for, and a length
/// written from a prefix gives that prefix back.
pub proof fn lemma_header_round_trip(n: int, b: Seq<u8>)
    ensures
        0 <= n <= u32::MAX ==> be32(be32_bytes(n)) == n,
        b.len() == 4 ==> 0 <= be32(b) <= u32::MAX && be32_bytes(be32(b)) == b,
{
    if b.len() == 4 {
        assert(be32_bytes(be32(b)) =~= b);
    }
}

/// Puts `payload` in a frame. Fails with `IOError` where the payload is too
/// long for the prefix to declare.
pub fn encode_frame(payload: &[u8]) -> (frame: Result<Vec<u8>, AncError>)
    ensures
        payload@.len() <= u32::MAX ==> frame is Ok && frame->Ok_0@ == framed(payload@),
        payload@.len() > u32::MAX ==> frame == Err::<Vec<u8>, AncError>(AncError::IOError),
{
    if payload.len() > u32::MAX as usize {
        return Err(AncError::IOError);
    }
    let header: [u8; 4] = frame_header(payload.len() as u32);
    let mut frame: Vec<u8> = Vec::new();
    let mut i: usize = 0;
    while i < 4
        invariant
            i <= 4,
            frame@ == header@.take(i as int),
        decreases 4 - i,
    {
        frame.push(header[i]);
        assert(frame@ =~= header@.take(i + 1));
        i = i + 1;
    }
    assert(header@.take(4) =~= header@);
    let mut j: usize = 0;
    while j < payload.len()
        invariant
            j <= payload@.len(),
            frame@ == header@ + payload@.take(j as int),
        decreases payload@.len() - j,
    {
        frame.push(payload[j]);
        assert(frame@ =~= header@ + payload@.take(j + 1));
        j = j + 1;
    }
    assert(payload@.take(payload@.len() as int) =~= payload@);
    Ok(frame)
}

/// What stands at the head of a stream that has ended.
pub enum FrameRead {
    /// Fewer bytes than a length prefix: the stream ends here, cleanly.
    End,
    /// A whole frame: its payload, and how many bytes of the stream it took.
    Frame { payload: Vec<u8>, used: usize },
    /// A length prefix that declares more bytes than follow.
    Truncated,
}

/// What stands at the head of a stream that has ended, as a value.
pub open spec fn head_of(stream: Seq<u8>) -> Option<Result<(Seq<u8>, int), AncError>> {
    if stream.len() < 4 {
        None
    } else if stream.len() - 4 < be32(stream.take(4)) {
        Some(Err(AncError::IOError))
    } else {
        Some(Ok((stream.subrange(4, 4 + be32(stream.take(4))), 4 + be32(stream.take(4)))))
    }
}

impl View for FrameRead {
    type V = Option<Result<(Seq<u8>, int), AncError>>;

    open spec fn view(&self) -> Option<Result<(Seq<u8>, int), AncError>> {
        match self {
            FrameRead::End => None,
            FrameRead::Frame { payload, used } => Some(Ok((payload@, *used as int))),
            FrameRead::Truncated => Some(Err(AncError::IOError)),
        }
    }
}

/// Takes the frame at the head of a stream that has ended. A stream too
/// short for a prefix ends cleanly; a prefix that declares more bytes than
/// follow is a truncated frame, never a shorter one.
pub fn read_frame(stream: &[u8]) -> (head: FrameRead)
    ensures
        head@ == head_of(stream@),
{
    if stream.len() < HEADER_LEN {
        return FrameRead::End;
    }
    let header: [u8; 4] = [stream[0], stream[1], stream[2], stream[3]];
    assert(header@ =~= stream@.take(4));
    let len: usize = frame_length(&header) as usize;
    if stream.len() - HEADER_LEN < len {
        return FrameRead::Truncated;
    }
    let payload = slice_to_vec(slice_subrange(stream, HEADER_LEN, HEADER_LEN + len));
    FrameRead::Frame { payload, used: HEADER_LEN + len }
}

/// A frame, whatever follows it, reads back as its payload.
pub proof fn lemma_frame_round_trip(payload: Seq<u8>, rest: Seq<u8>)
    requires
        payload.len() <= u32::MAX,
    ensures
        head_of(framed(payload) + rest) == Some(
            Ok::<(Seq<u8>, int), AncError>((payload, 4 + payload.len() as int)),
        ),
{
    let stream = framed(payload) + rest;
    lemma_header_round_trip(payload.len() as int, Seq::empty());
    assert(stream.take(4) =~= be32_bytes(payload.len() as int));
    assert(stream.subrange(4, 4 + payload.len() as int) =~= payload);
}

} // verus!
