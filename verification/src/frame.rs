//! Length-delimited framing over a byte stream.
//!
//! Each frame is a 32-bit big-endian length prefix followed by that many
//! payload bytes. The decoder buffers partial reads and yields a frame only
//! when it is complete.

use vstd::prelude::*;

use crate::codec::{
    be32, be32_value, copy_range, lemma_be32_roundtrip, push_be32,
};

verus! {

/// A frame on the wire: four big-endian length bytes, then the payload.
pub open spec fn encoded_frame(p: Seq<u8>) -> Seq<u8>
    recommends
        p.len() <= u32::MAX,
{
    be32(p.len() as u32) + p
}

/// Whether the buffer starts with a complete frame.
pub open spec fn frame_ready(b: Seq<u8>) -> bool {
    b.len() >= 4 && b.len() >= 4 + be32_value(b.subrange(0, 4))
}

/// The payload of the complete frame at the front of the buffer.
pub open spec fn first_frame(b: Seq<u8>) -> Seq<u8>
    recommends
        frame_ready(b),
{
    b.subrange(4, 4 + be32_value(b.subrange(0, 4)))
}

/// What remains in the buffer after the frame at its front.
pub open spec fn rest_after_frame(b: Seq<u8>) -> Seq<u8>
    recommends
        frame_ready(b),
{
    b.subrange(4 + be32_value(b.subrange(0, 4)), b.len() as int)
}

/// A buffer that starts with an encoded frame yields exactly its payload,
/// leaving the rest.
pub proof fn lemma_frame_roundtrip(p: Seq<u8>, rest: Seq<u8>)
    requires
        p.len() <= u32::MAX,
    ensures
        frame_ready(encoded_frame(p) + rest),
        first_frame(encoded_frame(p) + rest) == p,
        rest_after_frame(encoded_frame(p) + rest) == rest,
{
    let b = encoded_frame(p) + rest;
    assert(b.subrange(0, 4) =~= be32(p.len() as u32));
    lemma_be32_roundtrip(p.len() as u32);
    assert(first_frame(b) =~= p);
    assert(rest_after_frame(b) =~= rest);
}

/// Two frames encoded back to back are recovered in the order they were
/// encoded.
pub proof fn lemma_frames_in_order(p1: Seq<u8>, p2: Seq<u8>, rest: Seq<u8>)
    requires
        p1.len() <= u32::MAX,
        p2.len() <= u32::MAX,
    ensures
        frame_ready(encoded_frame(p1) + encoded_frame(p2) + rest),
        first_frame(encoded_frame(p1) + encoded_frame(p2) + rest) == p1,
        frame_ready(rest_after_frame(encoded_frame(p1) + encoded_frame(p2) + rest)),
        first_frame(rest_after_frame(encoded_frame(p1) + encoded_frame(p2) + rest)) == p2,
        rest_after_frame(
            rest_after_frame(encoded_frame(p1) + encoded_frame(p2) + rest),
        ) == rest,
{
    assert(encoded_frame(p1) + encoded_frame(p2) + rest =~= encoded_frame(p1) + (encoded_frame(p2)
        + rest));
    lemma_frame_roundtrip(p1, encoded_frame(p2) + rest);
    lemma_frame_roundtrip(p2, rest);
}

/// Prefixes a payload with its length, or returns nothing when the payload
/// is too long for the 32-bit length prefix.
pub fn encode_frame(p: &Vec<u8>) -> (r: Option<Vec<u8>>)
    ensures
        p@.len() <= u32::MAX ==> (r matches Some(f) && f@ == encoded_frame(p@)),
        p@.len() > u32::MAX ==> r is None,
{
    if p.len() as u64 > u32::MAX as u64 {
        return None;
    }
    let mut out: Vec<u8> = Vec::new();
    push_be32(&mut out, p.len() as u32);
    proof {
        assert(out@ =~= be32(p@.len() as u32));
    }
    crate::codec::append_bytes(&mut out, p);
    Some(out)
}

/// The receiving half of the framed transport: buffers raw bytes from the
/// socket and hands out complete frames.
pub struct FrameDecoder {
    /// The bytes received and not yet consumed.
    pub buf: Vec<u8>,
}

impl FrameDecoder {
    /// An empty decoder.
    pub fn new() -> (r: Self)
        ensures
            r.buf@ == Seq::<u8>::empty(),
    {
        let r = FrameDecoder { buf: Vec::new() };
        proof {
            assert(r.buf@ =~= Seq::<u8>::empty());
        }
        r
    }

    /// Buffers bytes read from the socket.
    pub fn feed(&mut self, data: &Vec<u8>)
        ensures
            final(self).buf@ == old(self).buf@ + data@,
    {
        crate::codec::append_bytes(&mut self.buf, data);
    }

    /// Whether a complete frame sits at the front of the buffer.
    pub fn has_frame(&self) -> (r: bool)
        ensures
            r == frame_ready(self.buf@),
    {
        if self.buf.len() < 4 {
            return false;
        }
        let len_32 = read_be32_buf(&self.buf);
        let len = len_32 as usize;
        self.buf.len() - 4 >= len
    }

    /// Takes the complete frame at the front of the buffer, if there is
    /// one.
    pub fn next_frame(&mut self) -> (r: Option<Vec<u8>>)
        ensures
            frame_ready(old(self).buf@) ==> (r matches Some(f) && f@ == first_frame(
                old(self).buf@,
            ) && final(self).buf@ == rest_after_frame(old(self).buf@)),
            !frame_ready(old(self).buf@) ==> r is None && final(self).buf@ == old(self).buf@,
    {
        if self.buf.len() < 4 {
            return None;
        }
        let len_32 = read_be32_buf(&self.buf);
        let len = len_32 as usize;
        if self.buf.len() - 4 < len {
            return None;
        }
        let frame = copy_range(&self.buf, 4, 4 + len);
        let rest = copy_range(&self.buf, 4 + len, self.buf.len());
        self.buf = rest;
        Some(frame)
    }
}

/// Reads the length prefix at the front of the buffer.
fn read_be32_buf(b: &Vec<u8>) -> (r: u32)
    requires
        b@.len() >= 4,
    ensures
        r == be32_value(b@.subrange(0, 4)),
{
    crate::codec::read_be32(b, 0)
}

} // verus!
