//! Reading a ledger account address out of its text form: an optional
//! `0x`, then exactly twenty bytes of hex.

use crate::hexstr::{from_hex, is_hex_seq, unhex};
use vstd::prelude::*;
use vstd::string::StrSliceExecFns;
use vstd::string::StringSliceAdditionalSpecFns;
use vstd::utf8::encode_utf8;

verus! {

/// The bytes of `s` with a single leading `0x` dropped.
pub open spec fn strip_hex_prefix(s: Seq<u8>) -> Seq<u8> {
    if s.len() >= 2 && s[0] == 48 && s[1] == 120 {
        s.subrange(2, s.len() as int)
    } else {
        s
    }
}

/// Upper-case hex digits folded to lower case; everything else untouched.
pub open spec fn lower_hex(s: Seq<u8>) -> Seq<u8> {
    s.map_values(|b: u8| if 65 <= b <= 70 { (b + 32) as u8 } else { b })
}

/// What an address string denotes: its twenty bytes, when the stripped
/// spelling is exactly forty hex digits of either case.
pub open spec fn parse_address_spec(s: Seq<u8>) -> Option<Seq<u8>> {
    let h = lower_hex(strip_hex_prefix(s));
    if h.len() == 40 && is_hex_seq(h) {
        Option::Some(unhex(h))
    } else {
        Option::None
    }
}

/// Reads an account address; `None` exactly when the text does not spell
/// one.
pub fn parse_address(address: &String) -> (r: Option<Vec<u8>>)
    ensures
        r is Some <==> parse_address_spec(encode_utf8(address@)) is Some,
        r matches Some(b) ==> parse_address_spec(encode_utf8(address@)) == Some(b@),
{
    let bytes = address.as_str().as_bytes_vec();
    let n = bytes.len();
    let stripped = if n >= 2 && bytes[0] == 48 && bytes[1] == 120 {
        crate::bytesfmt::sub_vec(&bytes, 2, n)
    } else {
        proof {
            assert(strip_hex_prefix(bytes@) =~= bytes@);
        }
        crate::bytesfmt::sub_vec(&bytes, 0, n)
    };
    proof {
        assert(bytes@.subrange(0, n as int) =~= bytes@);
        assert(stripped@ == strip_hex_prefix(bytes@));
    }
    let mut folded: Vec<u8> = Vec::new();
    let mut i: usize = 0;
    while i < stripped.len()
        invariant
            i <= stripped@.len(),
            folded@ =~= lower_hex(stripped@.subrange(0, i as int)),
        decreases stripped@.len() - i,
    {
        let b = stripped[i];
        if 65 <= b && b <= 70 {
            folded.push(b + 32);
        } else {
            folded.push(b);
        }
        i = i + 1;
        assert(folded@ =~= lower_hex(stripped@.subrange(0, i as int)));
    }
    proof {
        assert(stripped@.subrange(0, stripped@.len() as int) =~= stripped@);
    }
    if folded.len() != 40 {
        return None;
    }
    from_hex(&folded)
}

/// Two address spellings name the same account: both parse, to the same
/// twenty bytes.
pub open spec fn same_address(a: Seq<u8>, b: Seq<u8>) -> bool {
    &&& parse_address_spec(a) is Some
    &&& parse_address_spec(a) == parse_address_spec(b)
}

/// Whether the wallet appears among the reported owner addresses, spelled
/// however either side spells them.
pub fn is_owner(addresses: &Vec<String>, wallet: &String) -> (r: bool)
    ensures
        r == exists|i: int|
            0 <= i < addresses@.len() && same_address(
                encode_utf8((#[trigger] addresses@[i])@),
                encode_utf8(wallet@),
            ),
{
    let wallet_bytes = match parse_address(wallet) {
        Some(b) => b,
        None => {
            proof {
                assert forall|i: int|
                    0 <= i < addresses@.len() implies !same_address(
                    encode_utf8((#[trigger] addresses@[i])@),
                    encode_utf8(wallet@),
                ) by {}
            }
            return false;
        },
    };
    let mut i: usize = 0;
    while i < addresses.len()
        invariant
            i <= addresses@.len(),
            parse_address_spec(encode_utf8(wallet@)) == Some(wallet_bytes@),
            forall|j: int|
                0 <= j < i ==> !same_address(
                    encode_utf8((#[trigger] addresses@[j])@),
                    encode_utf8(wallet@),
                ),
        decreases addresses@.len() - i,
    {
        match parse_address(&addresses[i]) {
            Some(b) => {
                if bytes_equal(&b, &wallet_bytes) {
                    return true;
                }
            },
            None => {},
        }
        i = i + 1;
    }
    false
}

/// Whether two byte strings are equal.
fn bytes_equal(a: &Vec<u8>, b: &Vec<u8>) -> (r: bool)
    ensures
        r == (a@ == b@),
{
    if a.len() != b.len() {
        return false;
    }
    let mut i: usize = 0;
    while i < a.len()
        invariant
            i <= a@.len() == b@.len(),
            forall|j: int| 0 <= j < i ==> a@[j] == b@[j],
        decreases a@.len() - i,
    {
        if a[i] != b[i] {
            return false;
        }
        i = i + 1;
    }
    proof {
        assert(a@ =~= b@);
    }
    true
}

} // verus!
