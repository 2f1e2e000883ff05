//! The pagination-cursor codec: a structured native continuation key is
//! serialized into a compact self-describing byte form, then spelled with the
//! text-safe hex transform so it can travel as an opaque URL-safe token.
//!
//! Encoding is lossless: decoding an encoded key yields the key back, and an
//! absent token decodes to the absent key ("start of result set").

use crate::bytesfmt::{blob, parse_blob, push_blob, read_blob, sub_vec};
use crate::errors::{AppError, AppResult};
use crate::hexstr::{from_hex, hex_of, is_hex_seq, lemma_hex_ascii, lemma_hex_round_trip, to_hex, unhex};
use crate::strutf8::string_from_utf8;
use vstd::prelude::*;
use vstd::string::StrSliceExecFns;
use vstd::string::StringExecFns;
use vstd::string::StringSliceAdditionalSpecFns;
use vstd::utf8::{decode_utf8, encode_utf8, valid_utf8};

verus! {

/// One tagged scalar of a native continuation key: the backing store keeps
/// either a string attribute or a numeric attribute spelled as a string.
#[derive(Debug)]
pub enum EncodableAttributeValue {
    S(String),
    N(String),
}

/// The mathematical shape of one tagged scalar.
pub enum AttrValueModel {
    S(Seq<char>),
    N(Seq<char>),
}

/// The mathematical shape of one named entry of a native key.
pub struct KeyEntryModel {
    pub name: Seq<char>,
    pub value: AttrValueModel,
}

pub open spec fn attr_model(a: EncodableAttributeValue) -> AttrValueModel {
    match a {
        EncodableAttributeValue::S(s) => AttrValueModel::S(s@),
        EncodableAttributeValue::N(s) => AttrValueModel::N(s@),
    }
}

pub open spec fn entry_model(e: (String, EncodableAttributeValue)) -> KeyEntryModel {
    KeyEntryModel { name: e.0@, value: attr_model(e.1) }
}

pub open spec fn entries_model(es: Seq<(String, EncodableAttributeValue)>) -> Seq<KeyEntryModel> {
    es.map_values(|e: (String, EncodableAttributeValue)| entry_model(e))
}

/// The tag byte that marks a value's kind on the wire.
pub open spec fn tag_of(v: AttrValueModel) -> u8 {
    match v {
        AttrValueModel::S(_) => 1,
        AttrValueModel::N(_) => 2,
    }
}

pub open spec fn value_chars(v: AttrValueModel) -> Seq<char> {
    match v {
        AttrValueModel::S(s) => s,
        AttrValueModel::N(s) => s,
    }
}

/// The byte form of one entry: a tag byte, then the name and the value as
/// length-framed UTF-8 blobs.
pub open spec fn entry_bytes(e: KeyEntryModel) -> Seq<u8> {
    seq![tag_of(e.value)] + blob(encode_utf8(e.name)) + blob(encode_utf8(value_chars(e.value)))
}

/// The byte form of a whole key: its entries, one after the other.
pub open spec fn entries_bytes(s: Seq<KeyEntryModel>) -> Seq<u8>
    decreases s.len(),
{
    if s.len() == 0 {
        Seq::empty()
    } else {
        entry_bytes(s[0]) + entries_bytes(s.drop_first())
    }
}

/// Reads one entry from the front of `b`: the entry and the bytes consumed.
pub open spec fn parse_entry(b: Seq<u8>) -> Option<(KeyEntryModel, int)> {
    if b.len() >= 1 && (b[0] == 1u8 || b[0] == 2u8) {
        let rest = b.subrange(1, b.len() as int);
        match parse_blob(rest) {
            Option::None => Option::None,
            Option::Some((nb, n1)) => {
                let rest2 = rest.subrange(n1, rest.len() as int);
                match parse_blob(rest2) {
                    Option::None => Option::None,
                    Option::Some((vb, n2)) => {
                        if valid_utf8(nb) && valid_utf8(vb) {
                            let value = if b[0] == 1u8 {
                                AttrValueModel::S(decode_utf8(vb))
                            } else {
                                AttrValueModel::N(decode_utf8(vb))
                            };
                            Option::Some((KeyEntryModel { name: decode_utf8(nb), value }, 1 + n1 + n2))
                        } else {
                            Option::None
                        }
                    },
                }
            },
        }
    } else {
        Option::None
    }
}

/// Reads a whole key back from its byte form; `None` on any malformation.
pub open spec fn parse_entries(b: Seq<u8>) -> Option<Seq<KeyEntryModel>>
    decreases b.len(),
{
    if b.len() == 0 {
        Option::Some(Seq::empty())
    } else {
        match parse_entry(b) {
            Option::None => Option::None,
            Option::Some((e, n)) => {
                if 0 < n <= b.len() {
                    match parse_entries(b.subrange(n, b.len() as int)) {
                        Option::None => Option::None,
                        Option::Some(t) => Option::Some(seq![e] + t),
                    }
                } else {
                    Option::None
                }
            },
        }
    }
}

/// Both byte blobs of the entry fit an eight-byte length frame.
pub open spec fn entry_wf(e: KeyEntryModel) -> bool {
    &&& encode_utf8(e.name).len() < 0x1_0000_0000_0000_0000
    &&& encode_utf8(value_chars(e.value)).len() < 0x1_0000_0000_0000_0000
}

pub open spec fn entries_wf(s: Seq<KeyEntryModel>) -> bool {
    forall|i: int| 0 <= i < s.len() ==> entry_wf(#[trigger] s[i])
}

#[verifier::rlimit(50)]
proof fn lemma_parse_entry_round_trip(e: KeyEntryModel, rest: Seq<u8>)
    requires
        entry_wf(e),
    ensures
        parse_entry(entry_bytes(e) + rest) matches Some(p) && p.0 == e && p.1 == entry_bytes(
            e,
        ).len(),
{
    let nb = encode_utf8(e.name);
    let vb = encode_utf8(value_chars(e.value));
    let b = entry_bytes(e) + rest;
    assert(b.len() >= 1 && b[0] == tag_of(e.value));
    let r1 = b.subrange(1, b.len() as int);
    assert(r1 =~= blob(nb) + (blob(vb) + rest));
    let n1 = 8 + nb.len() as int;
    assert(parse_blob(r1) == Some((nb, n1))) by {
        crate::bytesfmt::lemma_parse_blob_round_trip(nb, blob(vb) + rest);
    }
    let r2 = r1.subrange(n1, r1.len() as int);
    assert(r2 =~= blob(vb) + rest);
    let n2 = 8 + vb.len() as int;
    assert(parse_blob(r2) == Some((vb, n2))) by {
        crate::bytesfmt::lemma_parse_blob_round_trip(vb, rest);
    }
    assert(valid_utf8(nb) && valid_utf8(vb)) by {
        vstd::utf8::encode_utf8_valid_utf8(e.name);
        vstd::utf8::encode_utf8_valid_utf8(value_chars(e.value));
    }
    assert(decode_utf8(nb) == e.name && decode_utf8(vb) == value_chars(e.value)) by {
        vstd::utf8::encode_utf8_decode_utf8(e.name);
        vstd::utf8::encode_utf8_decode_utf8(value_chars(e.value));
    }
    match e.value {
        AttrValueModel::S(s) => {
            assert(tag_of(e.value) == 1 && value_chars(e.value) == s);
            assert(parse_entry(b) == Some((e, 1 + n1 + n2)));
        },
        AttrValueModel::N(s) => {
            assert(tag_of(e.value) == 2 && value_chars(e.value) == s);
            assert(parse_entry(b) == Some((e, 1 + n1 + n2)));
        },
    }
    assert(entry_bytes(e).len() == 1 + n1 + n2);
}

proof fn lemma_parse_entries_round_trip(s: Seq<KeyEntryModel>)
    requires
        entries_wf(s),
    ensures
        parse_entries(entries_bytes(s)) == Some(s),
    decreases s.len(),
{
    if s.len() == 0 {
        assert(parse_entries(entries_bytes(s)) =~= Some(s));
    } else {
        let e = s[0];
        let tail = s.drop_first();
        let b = entries_bytes(s);
        lemma_parse_entry_round_trip(e, entries_bytes(tail));
        assert(entry_bytes(e).len() >= 17);
        assert(b.subrange(entry_bytes(e).len() as int, b.len() as int) =~= entries_bytes(tail));
        assert(entries_wf(tail)) by {
            assert(forall|i: int| 0 <= i < tail.len() ==> tail[i] == s[i + 1]);
        }
        lemma_parse_entries_round_trip(tail);
        assert(seq![e] + tail =~= s);
    }
}

/// Appending one entry to a key appends that entry's bytes.
proof fn lemma_entries_bytes_push(s: Seq<KeyEntryModel>, e: KeyEntryModel)
    ensures
        entries_bytes(s.push(e)) == entries_bytes(s) + entry_bytes(e),
    decreases s.len(),
{
    if s.len() == 0 {
        assert(s.push(e).drop_first() =~= s);
        assert(entries_bytes(s.push(e)) =~= entries_bytes(s) + entry_bytes(e));
    } else {
        lemma_entries_bytes_push(s.drop_first(), e);
        assert(s.push(e).drop_first() =~= s.drop_first().push(e));
        assert(s.push(e)[0] == s[0]);
        assert(entries_bytes(s.push(e)) =~= entries_bytes(s) + entry_bytes(e));
    }
}

/// Reads the entry that starts at offset `i` of `bytes`, as `parse_entry`
/// does on the suffix at `i`: the entry and the offset just past it.
fn read_entry(bytes: &Vec<u8>, i: usize) -> (r: Option<((String, EncodableAttributeValue), usize)>)
    requires
        i < bytes@.len(),
    ensures
        ({
            let suffix = bytes@.subrange(i as int, bytes@.len() as int);
            match r {
                Option::Some((e, next)) => {
                    &&& parse_entry(suffix) matches Some(p) && p.0 == entry_model(e) && i + p.1
                        == next
                    &&& i < next <= bytes@.len()
                },
                Option::None => parse_entry(suffix) is None,
            }
        }),
{
    let ghost suffix = bytes@.subrange(i as int, bytes@.len() as int);
    let n = bytes.len();
    let tag = bytes[i];
    if tag != 1u8 && tag != 2u8 {
        return Option::None;
    }
    proof {
        assert(suffix.subrange(1, suffix.len() as int) =~= bytes@.subrange(i as int + 1, n as int));
    }
    let (ns, ne) = match read_blob(bytes, i + 1) {
        Option::Some(p) => p,
        Option::None => {
            return Option::None;
        },
    };
    proof {
        let r1 = suffix.subrange(1, suffix.len() as int);
        let n1 = (parse_blob(r1)->0).1;
        assert(r1.subrange(n1, r1.len() as int) =~= bytes@.subrange(ne as int, n as int));
    }
    let (vs, ve) = match read_blob(bytes, ne) {
        Option::Some(p) => p,
        Option::None => {
            return Option::None;
        },
    };
    let name_bytes = sub_vec(bytes, ns, ne);
    let value_bytes = sub_vec(bytes, vs, ve);
    let name = match string_from_utf8(name_bytes) {
        Option::Some(s) => s,
        Option::None => {
            return Option::None;
        },
    };
    let value_str = match string_from_utf8(value_bytes) {
        Option::Some(s) => s,
        Option::None => {
            return Option::None;
        },
    };
    let value = if tag == 1u8 {
        EncodableAttributeValue::S(value_str)
    } else {
        EncodableAttributeValue::N(value_str)
    };
    Option::Some(((name, value), ve))
}

/// The characters of the opaque token that spells a key.
pub open spec fn token_chars(s: Seq<KeyEntryModel>) -> Seq<char> {
    decode_utf8(hex_of(entries_bytes(s)))
}

/// An opaque continuation token standing in for the store's native
/// pagination key; `val` absent means "start of result set".
#[derive(Debug)]
pub struct PagingKey {
    pub val: Option<Vec<(String, EncodableAttributeValue)>>,
}

impl PagingKey {
    /// The key as a mathematical value: `None` for the absent key.
    pub open spec fn model(self) -> Option<Seq<KeyEntryModel>> {
        match self.val {
            Option::None => Option::None,
            Option::Some(v) => Option::Some(entries_model(v@)),
        }
    }

    /// Wraps a native key handed back by the store.
    pub fn from(val: Option<Vec<(String, EncodableAttributeValue)>>) -> (r: Self)
        ensures
            r.val == val,
    {
        Self { val }
    }

    /// Spells the key as an opaque text-safe token; the absent key has no
    /// token.
    pub fn encode(&self) -> (r: Option<String>)
        ensures
            r is Some <==> self.val is Some,
            r matches Some(t) ==> self.model() matches Some(es) && t@ == token_chars(es)
                && encode_utf8(t@) == hex_of(entries_bytes(es)),
    {
        let entries = match &self.val {
            Option::None => {
                return Option::None;
            },
            Option::Some(entries) => entries,
        };
        let mut bytes: Vec<u8> = Vec::new();
        let mut i: usize = 0;
        while i < entries.len()
            invariant
                i <= entries@.len(),
                bytes@ == entries_bytes(entries_model(entries@.subrange(0, i as int))),
            decreases entries@.len() - i,
        {
            let ghost done = entries_model(entries@.subrange(0, i as int));
            let (name, value) = &entries[i];
            match value {
                EncodableAttributeValue::S(_) => bytes.push(1u8),
                EncodableAttributeValue::N(_) => bytes.push(2u8),
            }
            let name_bytes = name.as_str().as_bytes_vec();
            push_blob(&mut bytes, &name_bytes);
            let value_str = match value {
                EncodableAttributeValue::S(s) => s,
                EncodableAttributeValue::N(s) => s,
            };
            let value_bytes = value_str.as_str().as_bytes_vec();
            push_blob(&mut bytes, &value_bytes);
            proof {
                let em = entry_model(entries@[i as int]);
                assert(bytes@ =~= entries_bytes(done) + entry_bytes(em));
                lemma_entries_bytes_push(entries@.subrange(0, i as int).map_values(|e: (String, EncodableAttributeValue)| entry_model(e)), em);
                assert(entries@.subrange(0, i as int + 1).map_values(|e: (String, EncodableAttributeValue)| entry_model(e)) =~= entries@.subrange(0, i as int).map_values(|e: (String, EncodableAttributeValue)| entry_model(e)).push(em));
            }
            i = i + 1;
        }
        assert(entries@.subrange(0, entries@.len() as int) =~= entries@);
        let hex = to_hex(&bytes);
        proof {
            lemma_hex_ascii(bytes@);
            assert(forall|j: int|
                0 <= j < hex@.len() ==> vstd::utf8::is_leading_byte_width_1(#[trigger] hex@[j]));
            assert(vstd::utf8::partial_valid_utf8(hex@, 0)) by {
                assert(hex@.subrange(0, 0) =~= Seq::<u8>::empty());
            }
            vstd::utf8::partial_valid_utf8_extend_ascii_block(hex@, 0, hex@.len() as int);
            assert(hex@.subrange(0, hex@.len() as int) =~= hex@);
            assert(valid_utf8(hex@));
        }
        match string_from_utf8(hex) {
            Option::Some(t) => {
                proof {
                    vstd::utf8::decode_utf8_encode_utf8(hex_of(entries_bytes(entries_model(entries@))));
                }
                Option::Some(t)
            },
            Option::None => {
                assert(false);
                Option::None
            },
        }
    }

    /// Reads a token back into the native key it spells. An absent token is
    /// the absent key, never an error; a token that is not the spelling of
    /// any key is rejected as malformed.
    #[verifier::rlimit(50)]
    pub fn decode(from: Option<String>) -> (r: AppResult<Self>)
        ensures
            match from {
                Option::None => r matches Ok(k) && k.val is None,
                Option::Some(t) => {
                    let tb = encode_utf8(t@);
                    if is_hex_seq(tb) && parse_entries(unhex(tb)) is Some {
                        r matches Ok(k) && k.model() == Some(parse_entries(unhex(tb))->0)
                    } else {
                        r matches Err(e) && e is BadRequest
                    }
                },
            },
    {
        let t = match from {
            Option::None => {
                return Result::Ok(Self { val: Option::None });
            },
            Option::Some(t) => t,
        };
        let tb = t.as_str().as_bytes_vec();
        let bytes = match from_hex(&tb) {
            Option::Some(b) => b,
            Option::None => {
                return Result::Err(AppError::BadRequest(String::from_str("invalid cursor")));
            },
        };
        let mut entries: Vec<(String, EncodableAttributeValue)> = Vec::new();
        let mut i: usize = 0;
        let n = bytes.len();
        proof {
            assert(from == Option::Some(t));
            assert(bytes@.subrange(0, n as int) =~= bytes@);
            assert(entries_model(entries@) =~= Seq::<KeyEntryModel>::empty());
            match parse_entries(bytes@) {
                Option::Some(tl) => {
                    assert(entries_model(entries@) + tl =~= tl);
                },
                Option::None => {},
            }
        }
        while i < n
            invariant
                i <= n == bytes@.len(),
                from == Option::Some(t),
                is_hex_seq(encode_utf8(t@)),
                bytes@ == unhex(encode_utf8(t@)),
                match parse_entries(bytes@.subrange(i as int, n as int)) {
                    Option::Some(tl) => parse_entries(bytes@) == Some(entries_model(entries@) + tl),
                    Option::None => parse_entries(bytes@) is None,
                },
            decreases n - i,
        {
            let ghost suffix = bytes@.subrange(i as int, n as int);
            let (entry, next) = match read_entry(&bytes, i) {
                Option::Some(p) => p,
                Option::None => {
                    assert(parse_entries(suffix) is None);
                    return Result::Err(AppError::BadRequest(String::from_str("invalid cursor")));
                },
            };
            proof {
                let em = (parse_entry(suffix)->0).0;
                assert(bytes@.subrange(next as int, n as int) =~= suffix.subrange(
                    next - i,
                    suffix.len() as int,
                ));
                assert(entries_model(entries@.push(entry)) =~= entries_model(entries@).push(em));
                match parse_entries(bytes@.subrange(next as int, n as int)) {
                    Option::Some(tl) => {
                        assert(parse_entries(suffix) == Some(seq![em] + tl));
                        assert(entries_model(entries@) + (seq![em] + tl) =~= entries_model(
                            entries@,
                        ).push(em) + tl);
                    },
                    Option::None => {
                        assert(parse_entries(suffix) is None);
                    },
                }
            }
            entries.push(entry);
            i = next;
        }
        proof {
            assert(bytes@.subrange(n as int, n as int) =~= Seq::<u8>::empty());
            assert(entries_model(entries@) + Seq::<KeyEntryModel>::empty() =~= entries_model(
                entries@,
            ));
        }
        Result::Ok(Self { val: Option::Some(entries) })
    }
}

/// Encoding then decoding is the identity on native keys: the token that
/// `encode` produces for a key is accepted by `decode` and parses back to
/// exactly that key. Together with the contracts of `encode` and `decode`
/// this states `decode(encode(k)) == k`; `decode` states `decode(absent) ==
/// absent` directly.
pub proof fn lemma_cursor_round_trip(es: Seq<KeyEntryModel>)
    requires
        entries_wf(es),
    ensures
        ({
            let tb = encode_utf8(token_chars(es));
            &&& is_hex_seq(tb)
            &&& parse_entries(unhex(tb)) == Some(es)
        }),
{
    let hb = hex_of(entries_bytes(es));
    lemma_hex_ascii(entries_bytes(es));
    assert(forall|j: int|
        0 <= j < hb.len() ==> vstd::utf8::is_leading_byte_width_1(#[trigger] hb[j]));
    assert(vstd::utf8::partial_valid_utf8(hb, 0)) by {
        assert(hb.subrange(0, 0) =~= Seq::<u8>::empty());
    }
    vstd::utf8::partial_valid_utf8_extend_ascii_block(hb, 0, hb.len() as int);
    assert(hb.subrange(0, hb.len() as int) =~= hb);
    vstd::utf8::decode_utf8_encode_utf8(hb);
    lemma_hex_round_trip(entries_bytes(es));
    lemma_parse_entries_round_trip(es);
}

} // verus!
