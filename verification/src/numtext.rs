//! Decimal text of machine integers: what a digit string denotes, read
//! and spelled exactly.

use vstd::prelude::*;
use vstd::string::StrSliceExecFns;

verus! {

/// The value of a digit string, most significant first.
pub open spec fn digits_val(s: Seq<char>) -> int
    decreases s.len(),
{
    if s.len() == 0 {
        0
    } else {
        digits_val(s.drop_last()) * 10 + (s.last() as int - 48)
    }
}

pub open spec fn all_digits(s: Seq<char>) -> bool {
    forall|i: int| 0 <= i < s.len() ==> 48 <= (#[trigger] s[i]) as int <= 57
}

/// What a decimal string denotes as an `i32`: an optional sign, then at
/// least one digit, all digits, the value in range.
pub open spec fn parse_i32_spec(s: Seq<char>) -> Option<i32> {
    let (neg, digits) = if s.len() > 0 && (s[0] == '-' || s[0] == '+') {
        (s[0] == '-', s.drop_first())
    } else {
        (false, s)
    };
    if digits.len() > 0 && all_digits(digits) {
        let v = if neg {
            -digits_val(digits)
        } else {
            digits_val(digits)
        };
        if i32::MIN <= v <= i32::MAX {
            Option::Some(v as i32)
        } else {
            Option::None
        }
    } else {
        Option::None
    }
}

/// Reads a decimal string as an `i32`, exactly as `parse_i32_spec` does.
pub fn parse_i32(s: &String) -> (r: Option<i32>)
    ensures
        r == parse_i32_spec(s@),
{
    let st = s.as_str();
    let n = st.unicode_len();
    let mut neg = false;
    let mut start: usize = 0;
    if n > 0 {
        let c0 = st.get_char(0);
        if c0 == '-' {
            neg = true;
            start = 1;
        } else if c0 == '+' {
            start = 1;
        }
    }
    let ghost digits = if start == 1 {
        s@.drop_first()
    } else {
        s@
    };
    proof {
        if start == 1 {
            assert(digits =~= s@.subrange(1, n as int));
        } else {
            assert(digits =~= s@.subrange(0, n as int));
        }
    }
    if n == start {
        return None;
    }
    let mut acc: i64 = 0;
    let mut i: usize = start;
    while i < n
        invariant
            start <= i <= n,
            st@ == s@,
            n == s@.len(),
            start == 1 || start == 0,
            start == 1 <==> s@.len() > 0 && (s@[0] == '-' || s@[0] == '+'),
            neg <==> (s@.len() > 0 && s@[0] == '-'),
            n > start,
            digits == s@.subrange(start as int, n as int),
            digits == (if s@.len() > 0 && (s@[0] == '-' || s@[0] == '+') {
                s@.drop_first()
            } else {
                s@
            }),
            all_digits(s@.subrange(start as int, i as int)),
            0 <= acc <= 0x1_0000_0000,
            acc == digits_val(s@.subrange(start as int, i as int)) || (acc == 0x1_0000_0000
                && digits_val(s@.subrange(start as int, i as int)) >= 0x1_0000_0000),
        decreases n - i,
    {
        let c = st.get_char(i);
        let cv = c as u32;
        if cv < 48 || cv > 57 {
            proof {
                assert(s@[i as int] == c);
                assert(digits[i - start] == s@[i as int]);
                assert(!all_digits(digits));
            }
            return None;
        }
        let d = (cv - 48) as i64;
        proof {
            let pre = s@.subrange(start as int, i as int);
            let now = s@.subrange(start as int, i as int + 1);
            assert(now.drop_last() =~= pre);
            assert(now.last() == s@[i as int]);
            assert(all_digits(now));
            lemma_digits_val_nonneg(pre);
        }
        let ghost acc_pre = acc;
        if acc > 0xffff_ffff {
            acc = 0x1_0000_0000;
        } else {
            acc = acc * 10 + d;
            if acc > 0x1_0000_0000 {
                acc = 0x1_0000_0000;
            }
        }
        proof {
            let pre = s@.subrange(start as int, i as int);
            let now = s@.subrange(start as int, i as int + 1);
            assert(digits_val(now) == digits_val(pre) * 10 + (s@[i as int] as int - 48));
            if acc_pre == digits_val(pre) {
                if acc != acc_pre * 10 + d {
                    assert(digits_val(now) >= 0x1_0000_0000);
                    assert(acc == 0x1_0000_0000);
                }
            } else {
                assert(digits_val(pre) >= 0x1_0000_0000);
                assert(digits_val(now) >= 10 * 0x1_0000_0000 - 48);
            }
        }
        i = i + 1;
    }
    proof {
        assert(s@.subrange(start as int, n as int) == digits);
        assert(all_digits(digits));
        lemma_digits_val_nonneg(digits);
    }
    if neg {
        if acc > 0x8000_0000 {
            return None;
        }
        proof {
            assert(acc == digits_val(digits));
        }
        let v = (0 - acc) as i32;
        Some(v)
    } else {
        if acc > 0x7fff_ffff {
            return None;
        }
        proof {
            assert(acc == digits_val(digits));
        }
        let v = acc as i32;
        Some(v)
    }
}

proof fn lemma_digits_val_nonneg(s: Seq<char>)
    requires
        all_digits(s),
    ensures
        digits_val(s) >= 0,
    decreases s.len(),
{
    if s.len() == 0 {
    } else {
        assert(all_digits(s.drop_last())) by {
            assert(forall|i: int| 0 <= i < s.len() - 1 ==> s.drop_last()[i] == s[i]);
        }
        lemma_digits_val_nonneg(s.drop_last());
    }
}


/// The decimal digits of `n`, most significant first, for `n >= 0`.
pub open spec fn dec_chars(n: int) -> Seq<char>
    recommends
        n >= 0,
    decreases n,
{
    if n < 10 {
        seq![((48 + n) as u8) as char]
    } else {
        dec_chars(n / 10) + seq![((48 + n % 10) as u8) as char]
    }
}

/// The decimal spelling of an `i32`: a minus sign for a negative value,
/// then its digits.
pub open spec fn spell_i32_spec(n: int) -> Seq<char> {
    if n < 0 {
        seq!['-'] + dec_chars(-n)
    } else {
        dec_chars(n)
    }
}

proof fn lemma_dec_chars_digits(n: int)
    requires
        n >= 0,
    ensures
        all_digits(dec_chars(n)),
        dec_chars(n).len() >= 1,
        digits_val(dec_chars(n)) == n,
    decreases n,
{
    if n < 10 {
        let s = dec_chars(n);
        assert(s.len() == 1);
        assert(s[0] == ((48 + n) as u8) as char);
        assert(digits_val(s) == digits_val(s.drop_last()) * 10 + (s.last() as int - 48));
        assert(s.drop_last() =~= Seq::<char>::empty());
    } else {
        lemma_dec_chars_digits(n / 10);
        let s = dec_chars(n);
        assert(s.drop_last() =~= dec_chars(n / 10));
        assert(s.last() == ((48 + n % 10) as u8) as char);
        assert forall|i: int| 0 <= i < s.len() implies 48 <= (#[trigger] s[i]) as int <= 57 by {
            if i < s.len() - 1 {
                assert(s[i] == dec_chars(n / 10)[i]);
            }
        }
        assert(digits_val(s) == (n / 10) * 10 + n % 10);
        assert((n / 10) * 10 + n % 10 == n) by {
            vstd::arithmetic::div_mod::lemma_fundamental_div_mod(n, 10);
        }
    }
}

/// A spelled `i32` parses back to itself.
pub proof fn lemma_spell_parse_round_trip(n: i32)
    ensures
        parse_i32_spec(spell_i32_spec(n as int)) == Some(n),
{
    if n >= 0 {
        let s = dec_chars(n as int);
        lemma_dec_chars_digits(n as int);
        assert(48 <= s[0] as int <= 57);
        assert(s[0] != '-' && s[0] != '+');
    } else {
        let s = seq!['-'] + dec_chars(-(n as int));
        lemma_dec_chars_digits(-(n as int));
        assert(s[0] == '-');
        assert(s.drop_first() =~= dec_chars(-(n as int)));
    }
}

/// Appends the decimal digits of `n`, most significant first.
fn push_dec(out: &mut Vec<u8>, n: u32)
    ensures
        final(out)@.len() == old(out)@.len() + dec_chars(n as int).len(),
        forall|i: int|
            0 <= i < final(out)@.len() ==> #[trigger] final(out)@[i] == (if i < old(out)@.len() {
                old(out)@[i]
            } else {
                dec_chars(n as int)[i - old(out)@.len()] as u8
            }),
    decreases n,
{
    if n < 10 {
        out.push(48 + (n as u8));
        proof {
            assert(dec_chars(n as int) =~= seq![((48 + n as int) as u8) as char]);
        }
    } else {
        push_dec(out, n / 10);
        out.push(48 + ((n % 10) as u8));
        proof {
            assert(dec_chars(n as int) =~= dec_chars(n as int / 10) + seq![
                ((48 + n as int % 10) as u8) as char,
            ]);
        }
    }
}

/// Spells an `i32` in decimal, exactly as `spell_i32_spec` does.
pub fn spell_i32(n: i32) -> (r: String)
    ensures
        r@ == spell_i32_spec(n as int),
{
    let mut bytes: Vec<u8> = Vec::new();
    let magnitude: u32 = if n < 0 {
        bytes.push(45);
        if n == i32::MIN {
            0x8000_0000u32
        } else {
            (0 - n) as u32
        }
    } else {
        n as u32
    };
    proof {
        if n < 0 {
            assert(magnitude == -(n as int));
        }
    }
    push_dec(&mut bytes, magnitude);
    proof {
        assert forall|i: int| 0 <= i < bytes@.len() implies (#[trigger] bytes@[i]) < 128 by {
            lemma_dec_chars_digits(magnitude as int);
            if n < 0 {
                if i > 0 {
                    assert(bytes@[i] == dec_chars(magnitude as int)[i - 1] as u8);
                    assert(48 <= dec_chars(magnitude as int)[i - 1] as int <= 57);
                }
            } else {
                assert(bytes@[i] == dec_chars(magnitude as int)[i] as u8);
                assert(48 <= dec_chars(magnitude as int)[i] as int <= 57);
            }
        }
        crate::strutf8::lemma_ascii_bytes_decode(bytes@);
    }
    match crate::strutf8::string_from_utf8(bytes) {
        Some(s) => {
            proof {
                lemma_dec_chars_digits(magnitude as int);
                assert(s@ =~= spell_i32_spec(n as int)) by {
                    if n < 0 {
                        assert forall|i: int| 0 <= i < s@.len() implies s@[i]
                            == spell_i32_spec(n as int)[i] by {
                            lemma_dec_chars_digits(magnitude as int);
                            if i == 0 {
                                assert(s@[0] == (45u8) as char);
                            } else {
                                let d = dec_chars(magnitude as int)[i - 1];
                                assert(48 <= d as int <= 57);
                                assert(s@[i] == (d as u8) as char);
                            }
                        }
                    } else {
                        assert forall|i: int| 0 <= i < s@.len() implies s@[i]
                            == spell_i32_spec(n as int)[i] by {
                            lemma_dec_chars_digits(magnitude as int);
                            let d = dec_chars(magnitude as int)[i];
                            assert(48 <= d as int <= 57);
                            assert(s@[i] == (d as u8) as char);
                        }
                    }
                }
            }
            s
        },
        None => {
            proof {
                assert(false);
            }
            String::new()
        },
    }
}

} // verus!
