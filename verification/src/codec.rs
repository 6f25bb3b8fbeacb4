//! The binary codec of the transmit layer.
//!
//! A message is encoded as its 64-bit id, the sender address as a
//! length-prefixed UTF-8 string, and the length-prefixed payload, all
//! lengths and integers big-endian.

use vstd::prelude::*;
use vstd::utf8::{decode_utf8, encode_utf8, valid_utf8};

use crate::api::{message_wf, Message, MessageView};
use crate::text::string_from_utf8;

verus! {

/// The four bytes of `x`, big-endian.
pub open spec fn be32(x: u32) -> Seq<u8> {
    seq![(x >> 24) as u8, (x >> 16) as u8, (x >> 8) as u8, x as u8]
}

/// The value of four big-endian bytes.
pub open spec fn be32_value(b: Seq<u8>) -> u32
    recommends
        b.len() == 4,
{
    ((b[0] as u32) << 24) | ((b[1] as u32) << 16) | ((b[2] as u32) << 8) | (b[3] as u32)
}

/// Reading back the four big-endian bytes of `x` gives `x`.
pub proof fn lemma_be32_roundtrip(x: u32)
    ensures
        be32_value(be32(x)) == x,
{
    assert(((((x >> 24) as u8) as u32) << 24) | ((((x >> 16) as u8) as u32) << 16) | ((((x >> 8)
        as u8) as u32) << 8) | ((x as u8) as u32) == x) by (bit_vector);
}

/// The eight bytes of `x`, big-endian.
pub open spec fn be64(x: u64) -> Seq<u8> {
    seq![
        (x >> 56) as u8,
        (x >> 48) as u8,
        (x >> 40) as u8,
        (x >> 32) as u8,
        (x >> 24) as u8,
        (x >> 16) as u8,
        (x >> 8) as u8,
        x as u8,
    ]
}

/// The value of eight big-endian bytes.
pub open spec fn be64_value(b: Seq<u8>) -> u64
    recommends
        b.len() == 8,
{
    ((b[0] as u64) << 56) | ((b[1] as u64) << 48) | ((b[2] as u64) << 40) | ((b[3] as u64) << 32)
        | ((b[4] as u64) << 24) | ((b[5] as u64) << 16) | ((b[6] as u64) << 8) | (b[7] as u64)
}

/// Reading back the eight big-endian bytes of `x` gives `x`.
pub proof fn lemma_be64_roundtrip(x: u64)
    ensures
        be64_value(be64(x)) == x,
{
    assert(((((x >> 56) as u8) as u64) << 56) | ((((x >> 48) as u8) as u64) << 48) | ((((x >> 40)
        as u8) as u64) << 40) | ((((x >> 32) as u8) as u64) << 32) | ((((x >> 24) as u8) as u64)
        << 24) | ((((x >> 16) as u8) as u64) << 16) | ((((x >> 8) as u8) as u64) << 8) | ((x
        as u8) as u64) == x) by (bit_vector);
}

/// Four bytes are the big-endian encoding of their value.
pub proof fn lemma_be32_reconstruct(s: Seq<u8>)
    requires
        s.len() == 4,
    ensures
        be32(be32_value(s)) == s,
{
    let b0 = s[0];
    let b1 = s[1];
    let b2 = s[2];
    let b3 = s[3];
    let x = be32_value(s);
    assert((x >> 24) as u8 == b0 && (x >> 16) as u8 == b1 && (x >> 8) as u8 == b2 && x as u8
        == b3) by (bit_vector)
        requires
            x == ((b0 as u32) << 24) | ((b1 as u32) << 16) | ((b2 as u32) << 8) | (b3 as u32),
    ;
    assert(be32(x) =~= s);
}

/// Eight bytes are the big-endian encoding of their value.
pub proof fn lemma_be64_reconstruct(s: Seq<u8>)
    requires
        s.len() == 8,
    ensures
        be64(be64_value(s)) == s,
{
    let b0 = s[0];
    let b1 = s[1];
    let b2 = s[2];
    let b3 = s[3];
    let b4 = s[4];
    let b5 = s[5];
    let b6 = s[6];
    let b7 = s[7];
    let x = be64_value(s);
    assert((x >> 56) as u8 == b0 && (x >> 48) as u8 == b1 && (x >> 40) as u8 == b2 && (x >> 32)
        as u8 == b3 && (x >> 24) as u8 == b4 && (x >> 16) as u8 == b5 && (x >> 8) as u8 == b6 && x
        as u8 == b7) by (bit_vector)
        requires
            x == ((b0 as u64) << 56) | ((b1 as u64) << 48) | ((b2 as u64) << 40) | ((b3 as u64)
                << 32) | ((b4 as u64) << 24) | ((b5 as u64) << 16) | ((b6 as u64) << 8) | (b7
                as u64),
    ;
    assert(be64(x) =~= s);
}

/// Appends the four big-endian bytes of `x`.
pub fn push_be32(out: &mut Vec<u8>, x: u32)
    ensures
        final(out)@ == old(out)@ + be32(x),
{
    out.push(#[verifier::truncate] ((x >> 24) as u8));
    out.push(#[verifier::truncate] ((x >> 16) as u8));
    out.push(#[verifier::truncate] ((x >> 8) as u8));
    out.push(#[verifier::truncate] (x as u8));
    proof {
        assert(out@ =~= old(out)@ + be32(x));
    }
}

/// Appends the eight big-endian bytes of `x`.
pub fn push_be64(out: &mut Vec<u8>, x: u64)
    ensures
        final(out)@ == old(out)@ + be64(x),
{
    out.push(#[verifier::truncate] ((x >> 56) as u8));
    out.push(#[verifier::truncate] ((x >> 48) as u8));
    out.push(#[verifier::truncate] ((x >> 40) as u8));
    out.push(#[verifier::truncate] ((x >> 32) as u8));
    out.push(#[verifier::truncate] ((x >> 24) as u8));
    out.push(#[verifier::truncate] ((x >> 16) as u8));
    out.push(#[verifier::truncate] ((x >> 8) as u8));
    out.push(#[verifier::truncate] (x as u8));
    proof {
        assert(out@ =~= old(out)@ + be64(x));
    }
}

/// Reads the four big-endian bytes at `i`.
pub fn read_be32(b: &Vec<u8>, i: usize) -> (r: u32)
    requires
        i + 4 <= b@.len(),
    ensures
        r == be32_value(b@.subrange(i as int, i + 4)),
{
    let n = b.len();
    let r = ((b[i] as u32) << 24) | ((b[i + 1] as u32) << 16) | ((b[i + 2] as u32) << 8) | (b[i
        + 3] as u32);
    proof {
        let s = b@.subrange(i as int, i + 4);
        assert(s[0] == b@[i as int] && s[1] == b@[i + 1] && s[2] == b@[i + 2] && s[3] == b@[i + 3]);
    }
    r
}

/// Reads the eight big-endian bytes at `i`.
pub fn read_be64(b: &Vec<u8>, i: usize) -> (r: u64)
    requires
        i + 8 <= b@.len(),
    ensures
        r == be64_value(b@.subrange(i as int, i + 8)),
{
    let n = b.len();
    let r = ((b[i] as u64) << 56) | ((b[i + 1] as u64) << 48) | ((b[i + 2] as u64) << 40) | ((b[i
        + 3] as u64) << 32) | ((b[i + 4] as u64) << 24) | ((b[i + 5] as u64) << 16) | ((b[i + 6]
        as u64) << 8) | (b[i + 7] as u64);
    proof {
        let s = b@.subrange(i as int, i + 8);
        assert(s[0] == b@[i as int] && s[1] == b@[i + 1] && s[2] == b@[i + 2] && s[3] == b@[i + 3]
            && s[4] == b@[i + 4] && s[5] == b@[i + 5] && s[6] == b@[i + 6] && s[7] == b@[i + 7]);
    }
    r
}

/// Copies the bytes `b[from..to]`.
pub fn copy_range(b: &Vec<u8>, from: usize, to: usize) -> (r: Vec<u8>)
    requires
        from <= to <= b@.len(),
    ensures
        r@ == b@.subrange(from as int, to as int),
{
    let mut r: Vec<u8> = Vec::new();
    let mut i: usize = from;
    while i < to
        invariant
            from <= i <= to <= b@.len(),
            r@ == b@.subrange(from as int, i as int),
        decreases to - i,
    {
        r.push(b[i]);
        i = i + 1;
        proof {
            assert(r@ =~= b@.subrange(from as int, i as int));
        }
    }
    proof {
        assert(r@ =~= b@.subrange(from as int, to as int));
    }
    r
}

/// Appends all bytes of `src`.
pub fn append_bytes(out: &mut Vec<u8>, src: &Vec<u8>)
    ensures
        final(out)@ == old(out)@ + src@,
{
    let mut i: usize = 0;
    while i < src.len()
        invariant
            i <= src@.len(),
            out@ == old(out)@ + src@.subrange(0, i as int),
        decreases src@.len() - i,
    {
        out.push(src[i]);
        i = i + 1;
        proof {
            assert(out@ =~= old(out)@ + src@.subrange(0, i as int));
        }
    }
    proof {
        assert(old(out)@ + src@.subrange(0, src@.len() as int) =~= old(out)@ + src@);
    }
}

/// The encoding of a message: id, then the sender address as length-prefixed
/// UTF-8, then the length-prefixed payload.
pub open spec fn encoded_message(m: MessageView) -> Seq<u8> {
    be64(m.id) + be32(encode_utf8(m.sender).len() as u32) + encode_utf8(m.sender) + be32(
        m.payload.len() as u32,
    ) + m.payload
}

/// Where each part of an encoded message lies in the encoded bytes.
pub proof fn lemma_encoded_message_parts(mv: MessageView, b: Seq<u8>)
    requires
        message_wf(mv),
        b == encoded_message(mv),
    ensures
        b.len() == 16 + encode_utf8(mv.sender).len() + mv.payload.len(),
        be64_value(b.subrange(0, 8)) == mv.id,
        be32_value(b.subrange(8, 12)) == encode_utf8(mv.sender).len(),
        b.subrange(12, 12 + encode_utf8(mv.sender).len() as int) == encode_utf8(mv.sender),
        be32_value(
            b.subrange(
                12 + encode_utf8(mv.sender).len() as int,
                16 + encode_utf8(mv.sender).len() as int,
            ),
        ) == mv.payload.len(),
        b.subrange(16 + encode_utf8(mv.sender).len() as int, b.len() as int) == mv.payload,
{
    let s = encode_utf8(mv.sender);
    let sl = s.len() as int;
    let pl = mv.payload.len() as int;
    assert(b.subrange(0, 8) =~= be64(mv.id));
    assert(b.subrange(8, 12) =~= be32(sl as u32));
    assert(b.subrange(12, 12 + sl) =~= s);
    assert(b.subrange(12 + sl, 16 + sl) =~= be32(pl as u32));
    assert(b.subrange(16 + sl, b.len() as int) =~= mv.payload);
    lemma_be64_roundtrip(mv.id);
    lemma_be32_roundtrip(sl as u32);
    lemma_be32_roundtrip(pl as u32);
}

/// Two well-formed messages with the same encoding are the same message.
pub proof fn lemma_encoded_message_injective(a: MessageView, b: MessageView)
    requires
        message_wf(a),
        message_wf(b),
        encoded_message(a) == encoded_message(b),
    ensures
        a == b,
{
    broadcast use vstd::utf8::encode_utf8_decode_utf8;

    let e = encoded_message(a);
    lemma_encoded_message_parts(a, e);
    lemma_encoded_message_parts(b, e);
    assert(encode_utf8(a.sender).len() == encode_utf8(b.sender).len());
    assert(encode_utf8(a.sender) == encode_utf8(b.sender));
    assert(decode_utf8(encode_utf8(a.sender)) == a.sender);
    assert(a =~= b);
}

/// Encodes a message, or returns nothing when a length field of the wire
/// format cannot hold it.
pub fn encode_message(m: &Message) -> (r: Option<Vec<u8>>)
    ensures
        message_wf(m@) ==> (r matches Some(b) && b@ == encoded_message(m@)),
        !message_wf(m@) ==> r is None,
{
    let sender_bytes: Vec<u8> = m.sender.as_str().as_bytes_vec();
    if sender_bytes.len() as u64 > u32::MAX as u64 || m.payload.len() as u64 > u32::MAX as u64 {
        return None;
    }
    let ghost e_id = be64(m@.id);
    let ghost e_sl = be32(encode_utf8(m@.sender).len() as u32);
    let ghost e_s = encode_utf8(m@.sender);
    let ghost e_pl = be32(m@.payload.len() as u32);
    let mut out: Vec<u8> = Vec::new();
    push_be64(&mut out, m.id);
    proof {
        assert(out@ =~= e_id);
    }
    push_be32(&mut out, sender_bytes.len() as u32);
    proof {
        assert(out@ =~= e_id + e_sl);
    }
    append_bytes(&mut out, &sender_bytes);
    proof {
        assert(out@ =~= e_id + e_sl + e_s);
    }
    push_be32(&mut out, m.payload.len() as u32);
    proof {
        assert(out@ =~= e_id + e_sl + e_s + e_pl);
    }
    append_bytes(&mut out, &m.payload);
    proof {
        assert(out@ =~= e_id + e_sl + e_s + e_pl + m@.payload);
        assert(out@ == encoded_message(m@));
    }
    Some(out)
}

/// Decodes a message; succeeds exactly on the encodings that
/// [`encode_message`] produces, and recovers the message encoded.
pub fn decode_message(b: &Vec<u8>) -> (r: Option<Message>)
    ensures
        r matches Some(m) ==> (message_wf(m@) && b@ == encoded_message(m@)),
        forall|mv: MessageView|
            message_wf(mv) && b@ == encoded_message(mv) ==> (r matches Some(m) && m@ == mv),
{
    broadcast use vstd::utf8::encode_utf8_valid_utf8;
    broadcast use vstd::utf8::encode_utf8_decode_utf8;
    broadcast use vstd::utf8::decode_utf8_encode_utf8;

    if b.len() < 12 {
        proof {
            assert forall|mv: MessageView|
                !(message_wf(mv) && b@ == encoded_message(mv)) by {
                if message_wf(mv) && b@ == encoded_message(mv) {
                    lemma_encoded_message_parts(mv, b@);
                }
            }
        }
        return None;
    }
    let id = read_be64(b, 0);
    let slen_32 = read_be32(b, 8);
    let slen = slen_32 as usize;
    if b.len() - 12 < slen {
        proof {
            assert forall|mv: MessageView|
                !(message_wf(mv) && b@ == encoded_message(mv)) by {
                if message_wf(mv) && b@ == encoded_message(mv) {
                    lemma_encoded_message_parts(mv, b@);
                }
            }
        }
        return None;
    }
    if b.len() - 12 - slen < 4 {
        proof {
            assert forall|mv: MessageView|
                !(message_wf(mv) && b@ == encoded_message(mv)) by {
                if message_wf(mv) && b@ == encoded_message(mv) {
                    lemma_encoded_message_parts(mv, b@);
                }
            }
        }
        return None;
    }
    let plen_32 = read_be32(b, 12 + slen);
    let plen = plen_32 as usize;
    if b.len() - 16 - slen != plen {
        proof {
            assert forall|mv: MessageView|
                !(message_wf(mv) && b@ == encoded_message(mv)) by {
                if message_wf(mv) && b@ == encoded_message(mv) {
                    lemma_encoded_message_parts(mv, b@);
                }
            }
        }
        return None;
    }
    let sender_bytes = copy_range(b, 12, 12 + slen);
    let sender = match string_from_utf8(sender_bytes) {
        Some(s) => s,
        None => {
            proof {
                assert forall|mv: MessageView|
                    !(message_wf(mv) && b@ == encoded_message(mv)) by {
                    if message_wf(mv) && b@ == encoded_message(mv) {
                        lemma_encoded_message_parts(mv, b@);
                    }
                }
            }
            return None;
        },
    };
    let payload = copy_range(b, 16 + slen, b.len());
    let m = Message { id, payload, sender };
    proof {
        let n = b@.len() as int;
        let sl = slen as int;
        let sb = b@.subrange(12, 12 + sl);
        assert(encode_utf8(m@.sender) == sb);
        lemma_be64_reconstruct(b@.subrange(0, 8));
        lemma_be32_reconstruct(b@.subrange(8, 12));
        lemma_be32_reconstruct(b@.subrange(12 + sl, 16 + sl));
        assert(b@.subrange(0, 8) == be64(m@.id));
        assert(encode_utf8(m@.sender).len() == sl);
        assert(b@.subrange(8, 12) == be32(encode_utf8(m@.sender).len() as u32));
        assert(m@.payload.len() == n - 16 - sl);
        assert(b@.subrange(12 + sl, 16 + sl) == be32(m@.payload.len() as u32));
        assert(b@ =~= b@.subrange(0, 8) + b@.subrange(8, 12) + sb + b@.subrange(12 + sl, 16 + sl)
            + b@.subrange(16 + sl, n));
        assert(b@ == encoded_message(m@));
        assert forall|mv: MessageView|
            message_wf(mv) && b@ == encoded_message(mv) implies m@ == mv by {
            lemma_encoded_message_parts(mv, b@);
            assert(encode_utf8(mv.sender).len() == slen);
            assert(encode_utf8(mv.sender) == sb);
            assert(decode_utf8(encode_utf8(mv.sender)) == mv.sender);
            assert(m@ =~= mv);
        }
    }
    Some(m)
}

} // verus!
