//! Length-delimited framing: each payload goes on the stream after a 4-byte
//! big-endian header that gives its length.
use bytes::BytesMut;
use tokio_util::codec::{Decoder, Encoder, LengthDelimitedCodec};
use vstd::prelude::*;

verus! {

/// The longest payload a frame may carry: 8 MiB.
pub const MAX_FRAME_LEN: usize = 8 * 1024 * 1024;

/// The 4-byte big-endian header for a payload of `n` bytes.
pub open spec fn header_bytes(n: nat) -> Seq<u8> {
    seq![(n / 0x1000000 % 256) as u8, (n / 0x10000 % 256) as u8, (n / 0x100 % 256) as u8, (n % 256) as u8]
}

/// The length that the header at the start of `b` gives.
pub open spec fn header_value(b: Seq<u8>) -> int {
    b[0] * 0x1000000 + b[1] * 0x10000 + b[2] * 0x100 + b[3]
}

/// The bytes of the frame that carries `payload`.
pub open spec fn frame_bytes(payload: Seq<u8>) -> Seq<u8> {
    header_bytes(payload.len()) + payload
}

/// A frame cannot be written or read.
#[derive(Debug, Clone, Copy, PartialEq, Eq)]
pub enum FrameError {
    /// The payload, or the length that a header gives, is over the limit.
    Oversized,
    /// The stream ended inside a frame.
    Truncated,
}

/// Relies on LengthDelimitedCodec::encode with the default settings: a 4-byte
/// big-endian length, then the payload; an error over 8 MiB.
#[verifier::external_body]
fn codec_encode(payload: &[u8]) -> (r: Option<Vec<u8>>)
    ensures
        if payload@.len() <= MAX_FRAME_LEN {
            r matches Some(v) && v@ == frame_bytes(payload@)
        } else {
            r is None
        },
{
    let mut dst = BytesMut::new();
    match LengthDelimitedCodec::new().encode(payload, &mut dst) {
        Ok(()) => Some(dst.to_vec()),
        Err(_) => None,
    }
}

/// Relies on LengthDelimitedCodec::decode with the default settings and a
/// fresh state: nothing until a whole header is there, an error when it gives
/// over 8 MiB, nothing until the whole payload is there, and else the payload
/// and the bytes after it.
#[verifier::external_body]
fn codec_decode(buf: &[u8]) -> (r: Result<Option<(Vec<u8>, Vec<u8>)>, FrameError>)
    ensures
        if buf@.len() < 4 {
            r matches Ok(None)
        } else if header_value(buf@) > MAX_FRAME_LEN {
            r matches Err(FrameError::Oversized)
        } else if buf@.len() < 4 + header_value(buf@) {
            r matches Ok(None)
        } else {
            r matches Ok(Some((p, rest))) && p@ == buf@.subrange(4, 4 + header_value(buf@))
                && rest@ == buf@.skip(4 + header_value(buf@))
        },
{
    let mut src = BytesMut::from(buf);
    match LengthDelimitedCodec::new().decode(&mut src) {
        Ok(Some(frame)) => Ok(Some((frame.to_vec(), src.to_vec()))),
        Ok(None) => Ok(None),
        Err(_) => Err(FrameError::Oversized),
    }
}

/// The frame that carries `payload`; payloads over the limit are refused.
pub fn encode_frame(payload: &[u8]) -> (r: Result<Vec<u8>, FrameError>)
    ensures
        if payload@.len() <= MAX_FRAME_LEN {
            r matches Ok(v) && v@ == frame_bytes(payload@)
        } else {
            r matches Err(FrameError::Oversized)
        },
{
    match codec_encode(payload) {
        Some(v) => Ok(v),
        None => Err(FrameError::Oversized),
    }
}

/// The header of a frame reads back as the length that was written.
pub proof fn lemma_header_round_trip(n: nat, rest: Seq<u8>)
    requires
        n < 0x1_0000_0000,
    ensures
        header_value(header_bytes(n) + rest) == n as int,
{
    let b = header_bytes(n) + rest;
    assert(b[0] as nat == n / 0x1000000 % 256);
    assert(b[1] as nat == n / 0x10000 % 256);
    assert(b[2] as nat == n / 0x100 % 256);
    assert(b[3] as nat == n % 256);
    assert(n / 0x1000000 % 256 * 0x1000000 + n / 0x10000 % 256 * 0x10000 + n / 0x100 % 256 * 0x100
        + n % 256 == n) by (nonlinear_arith)
        requires
            n < 0x1_0000_0000,
    ;
}

/// The bytes that a stream has delivered and that no frame has taken yet.
pub struct FrameReader {
    buf: Vec<u8>,
}

/// What the buffer `b` yields next.
pub enum FrameStep {
    /// More bytes are needed.
    Incomplete,
    /// The header gives a length over the limit.
    Oversized,
    /// A whole frame: its payload, and the bytes after it.
    Frame(Seq<u8>, Seq<u8>),
}

pub open spec fn frame_step(b: Seq<u8>) -> FrameStep {
    if b.len() < 4 {
        FrameStep::Incomplete
    } else if header_value(b) > MAX_FRAME_LEN {
        FrameStep::Oversized
    } else if b.len() < 4 + header_value(b) {
        FrameStep::Incomplete
    } else {
        FrameStep::Frame(
            b.subrange(4, 4 + header_value(b)),
            b.skip(4 + header_value(b)),
        )
    }
}

impl View for FrameReader {
    type V = Seq<u8>;

    closed spec fn view(&self) -> Seq<u8> {
        self.buf@
    }
}

impl FrameReader {
    pub fn new() -> (r: FrameReader)
        ensures
            r@ == Seq::<u8>::empty(),
    {
        FrameReader { buf: Vec::new() }
    }

    /// Takes in bytes that the stream delivered.
    pub fn push(&mut self, data: &[u8])
        ensures
            final(self)@ == old(self)@ + data@,
    {
        self.buf.extend_from_slice(data);
    }

    /// The payload of the next whole frame, if the buffer holds one; the frame
    /// leaves the buffer.
    pub fn next_frame(&mut self) -> (r: Result<Option<Vec<u8>>, FrameError>)
        ensures
            match frame_step(old(self)@) {
                FrameStep::Incomplete => r matches Ok(None) && final(self)@ == old(self)@,
                FrameStep::Oversized => r matches Err(FrameError::Oversized) && final(self)@
                    == old(self)@,
                FrameStep::Frame(p, rest) => r matches Ok(Some(v)) && v@ == p && final(self)@
                    == rest,
            },
    {
        match codec_decode(self.buf.as_slice()) {
            Ok(Some((payload, rest))) => {
                self.buf = rest;
                Ok(Some(payload))
            },
            Ok(None) => Ok(None),
            Err(e) => Err(e),
        }
    }

    /// Whether the stream may end here: only between frames.
    pub fn finish(&self) -> (r: Result<(), FrameError>)
        ensures
            if self@.len() == 0 {
                r matches Ok(())
            } else {
                r matches Err(FrameError::Truncated)
            },
    {
        if self.buf.len() == 0 {
            Ok(())
        } else {
            Err(FrameError::Truncated)
        }
    }
}

/// A frame that was written reads back whole, whatever follows it.
pub proof fn lemma_frame_round_trip(payload: Seq<u8>, rest: Seq<u8>)
    requires
        payload.len() <= MAX_FRAME_LEN,
    ensures
        frame_step(frame_bytes(payload) + rest) == FrameStep::Frame(payload, rest),
{
    let b = frame_bytes(payload) + rest;
    assert(b =~= header_bytes(payload.len()) + (payload + rest));
    lemma_header_round_trip(payload.len(), payload + rest);
    assert(b.subrange(4, 4 + payload.len() as int) =~= payload);
    assert(b.skip(4 + payload.len() as int) =~= rest);
}

} // verus!
