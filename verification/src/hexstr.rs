//! The reversible text-safe transform of the cursor codec: lower-case
//! hexadecimal over raw bytes, so a structured key can travel inside a URL
//! query parameter.

use vstd::prelude::*;

verus! {

/// The ASCII code of the hex digit for `n`, for `n < 16`.
pub open spec fn hex_digit(n: u8) -> u8
    recommends
        n < 16,
{
    if n < 10 {
        (48 + n) as u8
    } else {
        (87 + n) as u8
    }
}

/// The hex spelling of `b`: two digits per byte, high nibble first.
pub open spec fn hex_of(b: Seq<u8>) -> Seq<u8> {
    Seq::new(
        2 * b.len(),
        |i: int|
            if i % 2 == 0 {
                hex_digit(b[i / 2] / 16)
            } else {
                hex_digit(b[i / 2] % 16)
            },
    )
}

/// The value of an ASCII hex digit, or `None` for any other byte.
pub open spec fn unhex_digit(c: u8) -> Option<u8> {
    if 48 <= c <= 57 {
        Some((c - 48) as u8)
    } else if 97 <= c <= 102 {
        Some((c - 87) as u8)
    } else {
        None
    }
}

/// True when `s` is a well-formed hex spelling: even length, digits only.
pub open spec fn is_hex_seq(s: Seq<u8>) -> bool {
    &&& s.len() % 2 == 0
    &&& forall|i: int| 0 <= i < s.len() ==> (#[trigger] unhex_digit(s[i])) is Some
}

/// The bytes spelled by a well-formed hex sequence.
pub open spec fn unhex(s: Seq<u8>) -> Seq<u8>
    recommends
        is_hex_seq(s),
{
    Seq::new(
        s.len() / 2,
        |i: int| (16 * unhex_digit(s[2 * i])->0 + unhex_digit(s[2 * i + 1])->0) as u8,
    )
}

/// Hex spellings are plain ASCII, hence valid UTF-8 and URL-safe.
pub proof fn lemma_hex_ascii(b: Seq<u8>)
    ensures
        forall|i: int| 0 <= i < hex_of(b).len() ==> #[trigger] hex_of(b)[i] < 128,
{
}

/// Reading a hex spelling back yields the bytes it spells.
pub proof fn lemma_hex_round_trip(b: Seq<u8>)
    ensures
        is_hex_seq(hex_of(b)),
        unhex(hex_of(b)) == b,
{
    let h = hex_of(b);
    assert forall|i: int| 0 <= i < h.len() implies (#[trigger] unhex_digit(h[i])) is Some by {
        assert(b[i / 2] / 16 < 16 && b[i / 2] % 16 < 16);
    }
    assert forall|i: int| 0 <= i < b.len() implies #[trigger] unhex(h)[i] == b[i] by {
        assert(unhex_digit(h[2 * i])->0 == b[i] / 16);
        assert(unhex_digit(h[2 * i + 1])->0 == b[i] % 16);
        assert(16 * (b[i] / 16) + b[i] % 16 == b[i]) by {
            vstd::arithmetic::div_mod::lemma_fundamental_div_mod(b[i] as int, 16);
        }
    }
    assert(unhex(h) =~= b);
}

/// Spells `b` in hex.
pub fn to_hex(b: &Vec<u8>) -> (r: Vec<u8>)
    ensures
        r@ == hex_of(b@),
{
    let mut r: Vec<u8> = Vec::new();
    let mut i: usize = 0;
    while i < b.len()
        invariant
            i <= b@.len(),
            r@ =~= hex_of(b@.subrange(0, i as int)),
        decreases b@.len() - i,
    {
        let x = b[i];
        r.push(hex_digit_exec(x / 16));
        r.push(hex_digit_exec(x % 16));
        i = i + 1;
        assert(r@ =~= hex_of(b@.subrange(0, i as int)));
    }
    assert(b@.subrange(0, b@.len() as int) =~= b@);
    r
}

fn hex_digit_exec(n: u8) -> (r: u8)
    requires
        n < 16,
    ensures
        r == hex_digit(n),
{
    if n < 10 {
        48 + n
    } else {
        87 + n
    }
}

/// Reads a hex spelling; `None` exactly when `s` is not one.
pub fn from_hex(s: &Vec<u8>) -> (r: Option<Vec<u8>>)
    ensures
        r is Some <==> is_hex_seq(s@),
        r matches Some(v) ==> v@ == unhex(s@),
{
    if s.len() % 2 != 0 {
        return None;
    }
    let mut out: Vec<u8> = Vec::new();
    let mut i: usize = 0;
    while i + 1 < s.len()
        invariant
            i % 2 == 0,
            i <= s@.len(),
            s@.len() % 2 == 0,
            forall|j: int| 0 <= j < i ==> (#[trigger] unhex_digit(s@[j])) is Some,
            out@.len() == i / 2,
            forall|k: int|
                0 <= k < out@.len() ==> #[trigger] out@[k] == (16 * unhex_digit(s@[2 * k])->0
                    + unhex_digit(s@[2 * k + 1])->0) as u8,
        decreases s@.len() - i,
    {
        let hi = match unhex_digit_exec(s[i]) {
            Some(v) => v,
            None => {
                return None;
            },
        };
        let lo = match unhex_digit_exec(s[i + 1]) {
            Some(v) => v,
            None => {
                return None;
            },
        };
        out.push(16 * hi + lo);
        i = i + 2;
    }
    assert(i == s@.len());
    assert(out@ =~= unhex(s@));
    Some(out)
}

fn unhex_digit_exec(c: u8) -> (r: Option<u8>)
    ensures
        r == unhex_digit(c),
{
    if 48 <= c && c <= 57 {
        Some(c - 48)
    } else if 97 <= c && c <= 102 {
        Some(c - 87)
    } else {
        None
    }
}

} // verus!
