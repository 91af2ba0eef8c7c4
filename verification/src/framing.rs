//! Length-delimited framing: every on-wire message is a 4-byte big-endian
//! length prefix followed by exactly that many payload bytes. Frames
//! advertising more than [`crate::MAX_FRAME_LEN`] bytes are a protocol error
//! that terminates the connection. Zero-length frames are legal.
use vstd::prelude::*;

use crate::error::Error;
use crate::MAX_FRAME_LEN;

verus! {

/// The 32-bit value read big-endian from four bytes.
pub open spec fn be32(b0: u8, b1: u8, b2: u8, b3: u8) -> int {
    b0 * 0x100_0000 + b1 * 0x1_0000 + b2 * 0x100 + b3
}

/// The four big-endian bytes of a 32-bit value.
pub open spec fn be32_bytes(n: u32) -> Seq<u8> {
    seq![
        (n / 0x100_0000) as u8,
        ((n / 0x1_0000) % 0x100) as u8,
        ((n / 0x100) % 0x100) as u8,
        (n % 0x100) as u8,
    ]
}

/// A framed message: length prefix, then the payload itself.
pub open spec fn frame_of(payload: Seq<u8>) -> Seq<u8>
    recommends
        payload.len() <= MAX_FRAME_LEN,
{
    be32_bytes(payload.len() as u32) + payload
}

/// Reading back the four bytes written for `n` yields `n`.
pub proof fn lemma_be32_roundtrip(n: u32)
    ensures
        be32(
            (n / 0x100_0000) as u8,
            ((n / 0x1_0000) % 0x100) as u8,
            ((n / 0x100) % 0x100) as u8,
            (n % 0x100) as u8,
        ) == n,
{
    let x = n as int;
    assert(x / 0x100_0000 == x / 0x100 / 0x100 / 0x100) by {
        vstd::arithmetic::div_mod::lemma_div_denominator(x, 0x100, 0x100);
        vstd::arithmetic::div_mod::lemma_div_denominator(x, 0x1_0000, 0x100);
    }
    assert(x / 0x1_0000 == x / 0x100 / 0x100) by {
        vstd::arithmetic::div_mod::lemma_div_denominator(x, 0x100, 0x100);
    }
    assert(x / 0x100_0000 <= 0xff) by {
        vstd::arithmetic::div_mod::lemma_div_is_ordered(x, 0xFFFF_FFFF, 0x100_0000);
    }
}

/// What a decoder buffer holds.
pub enum FrameStatus {
    /// More bytes are needed before the next frame is whole.
    Incomplete,
    /// The length prefix advertises more than [`crate::MAX_FRAME_LEN`] bytes.
    Oversize,
    /// A whole frame: its payload, and the bytes that arrived after it.
    Ready(Seq<u8>, Seq<u8>),
}

/// What the decoder sees in its buffer: not yet a whole frame, a frame and
/// the bytes that follow it, or an oversize length prefix.
pub open spec fn buffered_frame(b: Seq<u8>) -> FrameStatus {
    if b.len() < 4 {
        FrameStatus::Incomplete
    } else {
        let n = be32(b[0], b[1], b[2], b[3]);
        if n > MAX_FRAME_LEN {
            FrameStatus::Oversize
        } else if b.len() < 4 + n {
            FrameStatus::Incomplete
        } else {
            FrameStatus::Ready(b.subrange(4, 4 + n), b.subrange(4 + n, b.len() as int))
        }
    }
}

/// A buffer that starts with one whole frame parses to exactly that frame's
/// payload, with the bytes after it left over.
pub proof fn lemma_frame_roundtrip(payload: Seq<u8>, rest: Seq<u8>)
    requires
        payload.len() <= MAX_FRAME_LEN,
    ensures
        buffered_frame(frame_of(payload) + rest) == FrameStatus::Ready(payload, rest),
{
    let n = payload.len() as u32;
    let b = frame_of(payload) + rest;
    lemma_be32_roundtrip(n);
    assert(be32(b[0], b[1], b[2], b[3]) == n);
    assert(b.subrange(4, 4 + n as int) =~= payload);
    assert(b.subrange(4 + n as int, b.len() as int) =~= rest);
    assert(buffered_frame(b) == FrameStatus::Ready(payload, rest));
}

/// Writes one framed message: the payload's length as four big-endian bytes,
/// then the payload. Payloads over [`crate::MAX_FRAME_LEN`] bytes are refused
/// with a `WebTransport` error.
pub fn encode_frame(payload: &Vec<u8>) -> (r: Result<Vec<u8>, Error>)
    ensures
        payload@.len() <= MAX_FRAME_LEN ==> (r matches Ok(f) && f@ == frame_of(payload@)),
        payload@.len() > MAX_FRAME_LEN ==> (r matches Err(e) && e matches Error::WebTransport(_)),
{
    if payload.len() > MAX_FRAME_LEN as usize {
        return Err(Error::WebTransport(String::from_str("frame exceeds maximum size")));
    }
    let n = payload.len() as u32;
    let mut out: Vec<u8> = Vec::new();
    out.push((n / 0x100_0000) as u8);
    out.push(((n / 0x1_0000) % 0x100) as u8);
    out.push(((n / 0x100) % 0x100) as u8);
    out.push((n % 0x100) as u8);
    let mut body = payload.clone();
    out.append(&mut body);
    proof {
        assert(out@ =~= frame_of(payload@));
    }
    Ok(out)
}

/// Accumulates raw bytes read from the stream and cuts them into frames.
/// The codec is stateless across frames: the buffer only ever holds the
/// current frame's accumulated bytes and whatever arrived after it.
pub struct FrameDecoder {
    /// Bytes received and not yet returned as part of a frame.
    buf: Vec<u8>,
    /// Set once an oversize length prefix was seen; the connection is dead.
    failed: bool,
}

impl FrameDecoder {
    /// The bytes buffered and not yet cut into frames.
    pub closed spec fn buffered(self) -> Seq<u8> {
        self.buf@
    }

    /// True once the decoder saw a protocol error.
    pub closed spec fn has_failed(self) -> bool {
        self.failed
    }

    /// A fresh decoder with an empty buffer.
    pub fn new() -> (r: Self)
        ensures
            r.buffered() == Seq::<u8>::empty(),
            !r.has_failed(),
    {
        FrameDecoder { buf: Vec::new(), failed: false }
    }

    /// Appends bytes read from the stream to the buffer.
    pub fn feed(&mut self, chunk: &[u8])
        ensures
            final(self).buffered() == old(self).buffered() + chunk@,
            final(self).has_failed() == old(self).has_failed(),
    {
        self.buf.extend_from_slice(chunk);
    }

    /// Cuts the next complete frame out of the buffer.
    ///
    /// Returns `Ok(Some(payload))` when a whole frame is buffered,
    /// `Ok(None)` when more bytes are needed, and an error when the length
    /// prefix advertises more than [`crate::MAX_FRAME_LEN`] bytes — the
    /// protocol error that must terminate the connection — or when the
    /// decoder already failed.
    pub fn next_frame(&mut self) -> (r: Result<Option<Vec<u8>>, Error>)
        ensures
            old(self).has_failed() ==> (r matches Err(e) && e == Error::ConnectionClosed
                && *final(self) == *old(self)),
            !old(self).has_failed() ==> match buffered_frame(old(self).buffered()) {
                FrameStatus::Oversize => r matches Err(e) && (e matches Error::WebTransport(_))
                    && final(self).has_failed(),
                FrameStatus::Incomplete => r matches Ok(p) && p is None
                    && *final(self) == *old(self),
                FrameStatus::Ready(payload, rest) => r matches Ok(p) && p matches Some(f)
                    && f@ == payload && final(self).buffered() == rest
                    && !final(self).has_failed(),
            },
    {
        if self.failed {
            return Err(Error::ConnectionClosed);
        }
        if self.buf.len() < 4 {
            return Ok(None);
        }
        let b0 = self.buf[0];
        let b1 = self.buf[1];
        let b2 = self.buf[2];
        let b3 = self.buf[3];
        let n: u32 = (b0 as u32) * 0x100_0000 + (b1 as u32) * 0x1_0000 + (b2 as u32) * 0x100 + (
        b3 as u32);
        if n > MAX_FRAME_LEN {
            self.failed = true;
            return Err(Error::WebTransport(String::from_str("frame exceeds maximum size")));
        }
        if self.buf.len() < 4 + n as usize {
            return Ok(None);
        }
        let mut tail = self.buf.split_off(4);
        let rest = tail.split_off(n as usize);
        self.buf = rest;
        proof {
            assert(tail@ =~= old(self).buffered().subrange(4, 4 + n as int));
            assert(self.buf@ =~= old(self).buffered().subrange(
                4 + n as int,
                old(self).buffered().len() as int,
            ));
        }
        Ok(Some(tail))
    }
}

} // verus!
