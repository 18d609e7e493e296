//! Framing of the byte stream between two peers: a big-endian `u32`
//! length, then a kind byte (request 1, response 2), a big-endian `u64`
//! correlation id and the payload. The length counts every byte after it.
use vstd::prelude::*;

verus! {

/// Bytes of the header after the length: kind and correlation id.
pub const FRAME_BODY_HEADER: usize = 9;

/// Bytes of the whole header.
pub const FRAME_HEADER: usize = 13;

#[derive(Clone, Copy, Debug, PartialEq, Eq, Structural)]
pub enum FrameKind {
    Request,
    Response,
}

/// One message on a peer stream.
#[derive(Clone, Debug, PartialEq, Eq)]
pub struct Frame {
    pub kind: FrameKind,
    pub correlation_id: u64,
    pub payload: Vec<u8>,
}

#[derive(Clone, Copy, Debug, PartialEq, Eq, Structural)]
pub enum FrameError {
    /// The buffer does not yet hold the whole frame.
    Incomplete,
    /// The length field is smaller than the header it must cover.
    LengthTooShort,
    /// The kind byte is neither 1 nor 2.
    UnknownKind(u8),
}

pub open spec fn kind_byte(k: FrameKind) -> u8 {
    match k {
        FrameKind::Request => 1,
        FrameKind::Response => 2,
    }
}

pub open spec fn u32_be(n: u32) -> Seq<u8> {
    seq![(n >> 24u32) as u8, (n >> 16u32) as u8, (n >> 8u32) as u8, n as u8]
}

pub open spec fn u64_be(n: u64) -> Seq<u8> {
    seq![
        (n >> 56u64) as u8,
        (n >> 48u64) as u8,
        (n >> 40u64) as u8,
        (n >> 32u64) as u8,
        (n >> 24u64) as u8,
        (n >> 16u64) as u8,
        (n >> 8u64) as u8,
        n as u8,
    ]
}

/// The `u32` that four big-endian bytes spell.
pub open spec fn be_u32(b0: u8, b1: u8, b2: u8, b3: u8) -> u32 {
    ((b0 as u32) << 24u32) | ((b1 as u32) << 16u32) | ((b2 as u32) << 8u32) | (b3 as u32)
}

/// The `u64` that eight big-endian bytes starting at `i` spell.
pub open spec fn be_u64_at(s: Seq<u8>, i: int) -> u64 {
    ((s[i] as u64) << 56u64) | ((s[i + 1] as u64) << 48u64) | ((s[i + 2] as u64) << 40u64) | ((s[i + 3] as u64)
        << 32u64) | ((s[i + 4] as u64) << 24u64) | ((s[i + 5] as u64) << 16u64) | ((s[i + 6] as u64) << 8u64)
        | (s[i + 7] as u64)
}

/// The bytes of one frame.
pub open spec fn frame_bytes(kind: FrameKind, correlation_id: u64, payload: Seq<u8>) -> Seq<u8> {
    u32_be((FRAME_BODY_HEADER + payload.len()) as u32) + seq![kind_byte(kind)] + u64_be(correlation_id)
        + payload
}

/// What the front of `buf` holds: a frame's kind, correlation id and
/// payload with the number of bytes it takes, or why there is none.
pub open spec fn parse_frame(buf: Seq<u8>) -> Result<(FrameKind, u64, Seq<u8>, int), FrameError> {
    if buf.len() < 4 {
        Err(FrameError::Incomplete)
    } else {
        let len = be_u32(buf[0], buf[1], buf[2], buf[3]) as int;
        if len < FRAME_BODY_HEADER {
            Err(FrameError::LengthTooShort)
        } else if buf.len() < 4 + len {
            Err(FrameError::Incomplete)
        } else if buf[4] == 1 {
            Ok((FrameKind::Request, be_u64_at(buf, 5), buf.subrange(FRAME_HEADER as int, 4 + len), 4 + len))
        } else if buf[4] == 2 {
            Ok((FrameKind::Response, be_u64_at(buf, 5), buf.subrange(FRAME_HEADER as int, 4 + len), 4 + len))
        } else {
            Err(FrameError::UnknownKind(buf[4]))
        }
    }
}

fn push_u32_be(out: &mut Vec<u8>, n: u32)
    ensures
        final(out)@ == old(out)@ + u32_be(n),
{
    out.push((n >> 24u32) as u8);
    out.push((n >> 16u32) as u8);
    out.push((n >> 8u32) as u8);
    out.push(n as u8);
    assert(final(out)@ =~= old(out)@ + u32_be(n));
}

pub(crate) fn push_u64_be(out: &mut Vec<u8>, n: u64)
    ensures
        final(out)@ == old(out)@ + u64_be(n),
{
    out.push((n >> 56u64) as u8);
    out.push((n >> 48u64) as u8);
    out.push((n >> 40u64) as u8);
    out.push((n >> 32u64) as u8);
    out.push((n >> 24u64) as u8);
    out.push((n >> 16u64) as u8);
    out.push((n >> 8u64) as u8);
    out.push(n as u8);
    assert(final(out)@ =~= old(out)@ + u64_be(n));
}

/// The bytes of a frame, ready to be written to the stream.
pub fn encode_frame(frame: &Frame) -> (r: Vec<u8>)
    requires
        FRAME_BODY_HEADER + frame.payload.len() <= u32::MAX,
    ensures
        r@ == frame_bytes(frame.kind, frame.correlation_id, frame.payload@),
{
    let mut out: Vec<u8> = Vec::new();
    let len = (FRAME_BODY_HEADER + frame.payload.len()) as u32;
    push_u32_be(&mut out, len);
    let kind: u8 = match frame.kind {
        FrameKind::Request => 1,
        FrameKind::Response => 2,
    };
    out.push(kind);
    push_u64_be(&mut out, frame.correlation_id);
    let ghost head = out@;
    let mut i: usize = 0;
    while i < frame.payload.len()
        invariant
            i <= frame.payload.len(),
            out@ == head + frame.payload@.subrange(0, i as int),
        decreases frame.payload.len() - i,
    {
        out.push(frame.payload[i]);
        i = i + 1;
        assert(out@ =~= head + frame.payload@.subrange(0, i as int));
    }
    assert(frame.payload@.subrange(0, i as int) =~= frame.payload@);
    assert(head =~= u32_be(len) + seq![kind_byte(frame.kind)] + u64_be(frame.correlation_id));
    out
}

/// Reads one frame from the front of `buf`, with the number of bytes it
/// takes.
pub fn decode_frame(buf: &[u8]) -> (r: Result<(Frame, usize), FrameError>)
    ensures
        match r {
            Ok((f, n)) => parse_frame(buf@) == Ok::<(FrameKind, u64, Seq<u8>, int), FrameError>(
                (f.kind, f.correlation_id, f.payload@, n as int),
            ),
            Err(e) => parse_frame(buf@) == Err::<(FrameKind, u64, Seq<u8>, int), FrameError>(e),
        },
{
    if buf.len() < 4 {
        return Err(FrameError::Incomplete);
    }
    let len: u32 = ((buf[0] as u32) << 24u32) | ((buf[1] as u32) << 16u32) | ((buf[2] as u32) << 8u32) | (buf[3] as u32);
    if (len as usize) < FRAME_BODY_HEADER {
        return Err(FrameError::LengthTooShort);
    }
    if ((buf.len() - 4) as u64) < len as u64 {
        return Err(FrameError::Incomplete);
    }
    let end: usize = 4 + len as usize;
    let kind = if buf[4] == 1 {
        FrameKind::Request
    } else if buf[4] == 2 {
        FrameKind::Response
    } else {
        return Err(FrameError::UnknownKind(buf[4]));
    };
    let id: u64 = ((buf[5] as u64) << 56u64) | ((buf[6] as u64) << 48u64) | ((buf[7] as u64) << 40u64) | ((
    buf[8] as u64) << 32u64) | ((buf[9] as u64) << 24u64) | ((buf[10] as u64) << 16u64) | ((buf[11] as u64)
        << 8u64) | (buf[12] as u64);
    let mut payload: Vec<u8> = Vec::new();
    let mut i: usize = FRAME_HEADER;
    while i < end
        invariant
            FRAME_HEADER <= i <= end <= buf.len(),
            payload@ == buf@.subrange(FRAME_HEADER as int, i as int),
        decreases end - i,
    {
        payload.push(buf[i]);
        i = i + 1;
        assert(payload@ =~= buf@.subrange(FRAME_HEADER as int, i as int));
    }
    Ok((Frame { kind, correlation_id: id, payload }, end))
}

proof fn lemma_u32_round_trip(n: u32)
    ensures
        be_u32((n >> 24u32) as u8, (n >> 16u32) as u8, (n >> 8u32) as u8, n as u8) == n,
{
    assert(((((n >> 24u32) as u8) as u32) << 24u32) | ((((n >> 16u32) as u8) as u32) << 16u32) | ((((n
        >> 8u32) as u8) as u32) << 8u32) | ((n as u8) as u32) == n) by (bit_vector);
}

pub proof fn lemma_u64_round_trip(n: u64)
    ensures
        be_u64_at(u64_be(n), 0) == n,
{
    assert(((((n >> 56u64) as u8) as u64) << 56u64) | ((((n >> 48u64) as u8) as u64) << 48u64) | ((((n
        >> 40u64) as u8) as u64) << 40u64) | ((((n >> 32u64) as u8) as u64) << 32u64) | ((((n >> 24u64) as u8)
        as u64) << 24u64) | ((((n >> 16u64) as u8) as u64) << 16u64) | ((((n >> 8u64) as u8) as u64) << 8u64)
        | ((n as u8) as u64) == n) by (bit_vector);
}

/// Round trip: the bytes of a frame, followed by anything, read back as
/// that frame, taking exactly its own bytes.
pub proof fn lemma_frame_round_trip(kind: FrameKind, correlation_id: u64, payload: Seq<u8>, rest: Seq<u8>)
    requires
        FRAME_BODY_HEADER + payload.len() <= u32::MAX,
    ensures
        parse_frame(frame_bytes(kind, correlation_id, payload) + rest) == Ok::<
            (FrameKind, u64, Seq<u8>, int),
            FrameError,
        >((kind, correlation_id, payload, FRAME_HEADER + payload.len())),
{
    let len = (FRAME_BODY_HEADER + payload.len()) as u32;
    let b = frame_bytes(kind, correlation_id, payload) + rest;
    lemma_u32_round_trip(len);
    lemma_u64_round_trip(correlation_id);
    assert(b.subrange(5, 13) =~= u64_be(correlation_id));
    assert(be_u64_at(b, 5) == be_u64_at(u64_be(correlation_id), 0));
    assert(b.subrange(FRAME_HEADER as int, FRAME_HEADER + payload.len()) =~= payload);
}

} // verus!
