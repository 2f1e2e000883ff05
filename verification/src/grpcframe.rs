//! The length-prefixed message framing of the internal gRPC-style
//! transport: one byte for the compression flag, a four-byte big-endian
//! length, then the encoded message.

use vstd::prelude::*;

verus! {

/// The four big-endian bytes of `n`.
pub open spec fn be4(n: u32) -> Seq<u8> {
    seq![
        ((n >> 24) & 0xff) as u8,
        ((n >> 16) & 0xff) as u8,
        ((n >> 8) & 0xff) as u8,
        (n & 0xff) as u8,
    ]
}

/// The value read back from the first four bytes of `b`, big endian.
pub open spec fn be4_val(b: Seq<u8>) -> u32
    recommends
        b.len() >= 4,
{
    ((b[0] as u32) << 24) | ((b[1] as u32) << 16) | ((b[2] as u32) << 8) | (b[3] as u32)
}

pub proof fn lemma_be4_round_trip(n: u32)
    ensures
        be4_val(be4(n)) == n,
{
    assert((((n >> 24) & 0xff) as u8 as u32) << 24 | (((n >> 16) & 0xff) as u8 as u32) << 16 | (((n
        >> 8) & 0xff) as u8 as u32) << 8 | ((n & 0xff) as u8 as u32) == n) by (bit_vector);
}

/// A framed message: flag byte zero, the length, the message bytes.
pub open spec fn grpc_frame(msg: Seq<u8>) -> Seq<u8> {
    seq![0u8] + be4(msg.len() as u32) + msg
}

/// Reads a frame: it must be exactly one well-formed message, uncompressed.
pub open spec fn parse_grpc_frame(b: Seq<u8>) -> Option<Seq<u8>> {
    if b.len() >= 5 && b[0] == 0u8 && be4_val(b.subrange(1, 5)) == b.len() - 5 {
        Option::Some(b.subrange(5, b.len() as int))
    } else {
        Option::None
    }
}

/// Framing then unframing returns the message.
pub proof fn lemma_grpc_frame_round_trip(msg: Seq<u8>)
    requires
        msg.len() <= u32::MAX,
    ensures
        parse_grpc_frame(grpc_frame(msg)) == Some(msg),
{
    let w = grpc_frame(msg);
    assert(w.subrange(1, 5) =~= be4(msg.len() as u32));
    lemma_be4_round_trip(msg.len() as u32);
    assert(w.subrange(5, w.len() as int) =~= msg);
}

/// Wraps an encoded message for the wire.
pub fn frame_grpc_message(msg: &Vec<u8>) -> (r: Vec<u8>)
    requires
        msg@.len() <= u32::MAX,
    ensures
        r@ == grpc_frame(msg@),
{
    let n = msg.len() as u32;
    proof {
        assert(((n >> 24) & 0xff) < 256 && ((n >> 16) & 0xff) < 256 && ((n >> 8) & 0xff) < 256 && (
        n & 0xff) < 256) by (bit_vector);
    }
    let mut r: Vec<u8> = Vec::new();
    r.push(0u8);
    r.push(((n >> 24) & 0xff) as u8);
    r.push(((n >> 16) & 0xff) as u8);
    r.push(((n >> 8) & 0xff) as u8);
    r.push((n & 0xff) as u8);
    crate::bytesfmt::push_bytes(&mut r, msg);
    assert(r@ =~= grpc_frame(msg@));
    r
}

/// Unwraps a received frame; `None` exactly when it is not one well-formed
/// uncompressed message.
pub fn unframe_grpc_message(b: &Vec<u8>) -> (r: Option<Vec<u8>>)
    ensures
        r is Some <==> parse_grpc_frame(b@) is Some,
        r matches Some(m) ==> parse_grpc_frame(b@) == Some(m@),
{
    let n = b.len();
    if n < 5 {
        return None;
    }
    if b[0] != 0u8 {
        return None;
    }
    let len = ((b[1] as u32) << 24) | ((b[2] as u32) << 16) | ((b[3] as u32) << 8) | (b[4] as u32);
    proof {
        let s = b@.subrange(1, 5);
        assert(s[0] == b@[1] && s[1] == b@[2] && s[2] == b@[3] && s[3] == b@[4]);
    }
    if (len as usize) != n - 5 {
        return None;
    }
    let m = crate::bytesfmt::sub_vec(b, 5, n);
    Some(m)
}

} // verus!
