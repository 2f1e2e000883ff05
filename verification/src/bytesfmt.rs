//! Length-prefixed byte framing shared by the cursor codec and the task
//! envelope: a 64-bit little-endian length followed by the raw bytes.

use vstd::prelude::*;

verus! {

/// The eight little-endian bytes of `n`.
pub open spec fn le8(n: u64) -> Seq<u8> {
    seq![
        (n & 0xff) as u8,
        ((n >> 8) & 0xff) as u8,
        ((n >> 16) & 0xff) as u8,
        ((n >> 24) & 0xff) as u8,
        ((n >> 32) & 0xff) as u8,
        ((n >> 40) & 0xff) as u8,
        ((n >> 48) & 0xff) as u8,
        ((n >> 56) & 0xff) as u8,
    ]
}

/// The value read back from the first eight bytes of `b`, little endian.
pub open spec fn le8_val(b: Seq<u8>) -> u64
    recommends
        b.len() >= 8,
{
    (b[0] as u64) | ((b[1] as u64) << 8) | ((b[2] as u64) << 16) | ((b[3] as u64) << 24)
        | ((b[4] as u64) << 32) | ((b[5] as u64) << 40) | ((b[6] as u64) << 48) | ((b[7] as u64)
        << 56)
}

pub proof fn lemma_le8_round_trip(n: u64)
    ensures
        le8_val(le8(n)) == n,
{
    assert(((n & 0xff) as u8 as u64) | (((n >> 8) & 0xff) as u8 as u64) << 8 | (((n >> 16)
        & 0xff) as u8 as u64) << 16 | (((n >> 24) & 0xff) as u8 as u64) << 24 | (((n >> 32)
        & 0xff) as u8 as u64) << 32 | (((n >> 40) & 0xff) as u8 as u64) << 40 | (((n >> 48)
        & 0xff) as u8 as u64) << 48 | (((n >> 56) & 0xff) as u8 as u64) << 56 == n)
        by (bit_vector);
}

/// A length-framed blob: the length, little endian, then the data.
pub open spec fn blob(data: Seq<u8>) -> Seq<u8> {
    le8(data.len() as u64) + data
}

/// Reads a blob from the front of `b`: the data and how many bytes of `b`
/// the frame occupied.
pub open spec fn parse_blob(b: Seq<u8>) -> Option<(Seq<u8>, int)> {
    if b.len() >= 8 {
        let l = le8_val(b.subrange(0, 8)) as int;
        if 8 + l <= b.len() {
            Some((b.subrange(8, 8 + l), 8 + l))
        } else {
            None
        }
    } else {
        None
    }
}

/// Parsing undoes framing, whatever follows the frame.
pub proof fn lemma_parse_blob_round_trip(data: Seq<u8>, rest: Seq<u8>)
    requires
        data.len() < 0x1_0000_0000_0000_0000,
    ensures
        parse_blob(blob(data) + rest) matches Some(p) && p.0 == data && p.1 == 8 + data.len(),
{
    let whole = blob(data) + rest;
    assert(whole.subrange(0, 8) =~= le8(data.len() as u64));
    lemma_le8_round_trip(data.len() as u64);
    assert(whole.subrange(8, 8 + data.len() as int) =~= data);
}

pub fn push_le8(out: &mut Vec<u8>, n: u64)
    ensures
        final(out)@ == old(out)@ + le8(n),
{
    proof {
        assert((n & 0xff) < 256 && ((n >> 8) & 0xff) < 256 && ((n >> 16) & 0xff) < 256 && ((n
            >> 24) & 0xff) < 256 && ((n >> 32) & 0xff) < 256 && ((n >> 40) & 0xff) < 256 && ((n
            >> 48) & 0xff) < 256 && ((n >> 56) & 0xff) < 256) by (bit_vector);
    }
    out.push((n & 0xff) as u8);
    out.push(((n >> 8) & 0xff) as u8);
    out.push(((n >> 16) & 0xff) as u8);
    out.push(((n >> 24) & 0xff) as u8);
    out.push(((n >> 32) & 0xff) as u8);
    out.push(((n >> 40) & 0xff) as u8);
    out.push(((n >> 48) & 0xff) as u8);
    out.push(((n >> 56) & 0xff) as u8);
    assert(out@ =~= old(out)@ + le8(n));
}

pub fn push_bytes(out: &mut Vec<u8>, data: &Vec<u8>)
    ensures
        final(out)@ == old(out)@ + data@,
{
    let mut i: usize = 0;
    while i < data.len()
        invariant
            i <= data.len(),
            out@ == old(out)@ + data@.subrange(0, i as int),
        decreases data.len() - i,
    {
        out.push(data[i]);
        i = i + 1;
        assert(out@ =~= old(out)@ + data@.subrange(0, i as int));
    }
    assert(out@ =~= old(out)@ + data@);
}

/// Appends `blob(data@)` to `out`.
pub fn push_blob(out: &mut Vec<u8>, data: &Vec<u8>)
    ensures
        final(out)@ == old(out)@ + blob(data@),
{
    push_le8(out, data.len() as u64);
    push_bytes(out, data);
    assert(out@ =~= old(out)@ + blob(data@));
}

/// Reads the little-endian value stored at `b[i..i + 8]`.
pub fn read_le8(b: &Vec<u8>, i: usize) -> (r: u64)
    requires
        i + 8 <= b@.len(),
    ensures
        r == le8_val(b@.subrange(i as int, i as int + 8)),
{
    let ghost s = b@.subrange(i as int, i as int + 8);
    let n = b.len();
    assert(i + 8 <= n);
    let r = (b[i] as u64) | ((b[i + 1] as u64) << 8) | ((b[i + 2] as u64) << 16) | ((b[i
        + 3] as u64) << 24) | ((b[i + 4] as u64) << 32) | ((b[i + 5] as u64) << 40) | ((b[i
        + 6] as u64) << 48) | ((b[i + 7] as u64) << 56);
    assert(b@[i as int] == s[0] && b@[i as int + 1] == s[1] && b@[i as int + 2] == s[2] && b@[i
        as int + 3] == s[3] && b@[i as int + 4] == s[4] && b@[i as int + 5] == s[5] && b@[i
        as int + 6] == s[6] && b@[i as int + 7] == s[7]);
    r
}

/// Copies `b[from..to]` out into a fresh vector.
pub fn sub_vec(b: &Vec<u8>, from: usize, to: usize) -> (r: Vec<u8>)
    requires
        from <= to <= b@.len(),
    ensures
        r@ == b@.subrange(from as int, to as int),
{
    let mut r: Vec<u8> = Vec::new();
    let mut i: usize = from;
    while i < to
        invariant
            from <= i <= to <= b@.len(),
            r@ == b@.subrange(from as int, i as int),
        decreases to - i,
    {
        r.push(b[i]);
        i = i + 1;
        assert(r@ =~= b@.subrange(from as int, i as int));
    }
    r
}

/// Reads a blob frame starting at offset `i` of `b`, as `parse_blob` does on
/// the suffix at `i`: on success, the range of the data and the offset of the
/// first byte after the frame.
pub fn read_blob(b: &Vec<u8>, i: usize) -> (r: Option<(usize, usize)>)
    requires
        i <= b@.len(),
    ensures
        match r {
            Some((start, end)) => {
                &&& parse_blob(b@.subrange(i as int, b@.len() as int)) matches Some(p)
                    && p.0 == b@.subrange(start as int, end as int) && i + 8 + p.0.len() == end
                &&& i + 8 == start
                &&& start <= end <= b@.len()
            },
            None => parse_blob(b@.subrange(i as int, b@.len() as int)) is None,
        },
{
    let ghost tail = b@.subrange(i as int, b@.len() as int);
    if b.len() - i < 8 {
        return None;
    }
    let l = read_le8(b, i);
    proof {
        assert(tail.subrange(0, 8) =~= b@.subrange(i as int, i as int + 8));
    }
    if l > (b.len() - i - 8) as u64 {
        return None;
    }
    let start = i + 8;
    let end = start + (l as usize);
    proof {
        assert(tail.subrange(8, 8 + l as int) =~= b@.subrange(start as int, end as int));
    }
    Some((start, end))
}

} // verus!
