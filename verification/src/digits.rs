//! Decimal notation for unsigned 64-bit values: formatting with an exact
//! character-level specification, and lenient parsing that mirrors the
//! standard library's `u64` grammar (optional leading `+`, decimal digits,
//! value must fit).
use vstd::prelude::*;

verus! {

/// The character standing for a single decimal digit.
pub open spec fn digit_char(d: nat) -> char {
    if d == 0 {
        '0'
    } else if d == 1 {
        '1'
    } else if d == 2 {
        '2'
    } else if d == 3 {
        '3'
    } else if d == 4 {
        '4'
    } else if d == 5 {
        '5'
    } else if d == 6 {
        '6'
    } else if d == 7 {
        '7'
    } else if d == 8 {
        '8'
    } else {
        '9'
    }
}

/// The decimal notation of `n`, most significant digit first, without sign
/// or leading zeroes (`0` is written as one digit).
pub open spec fn dec_str(n: nat) -> Seq<char>
    decreases n,
{
    if n < 10 {
        seq![digit_char(n)]
    } else {
        dec_str(n / 10).push(digit_char(n % 10))
    }
}

fn digit_str(d: u64) -> (r: &'static str)
    requires
        d < 10,
    ensures
        r@ == seq![digit_char(d as nat)],
{
    if d == 0 {
        proof {
            reveal_strlit("0");
            assert("0"@ =~= seq![digit_char(0)]);
        }
        "0"
    } else if d == 1 {
        proof {
            reveal_strlit("1");
            assert("1"@ =~= seq![digit_char(1)]);
        }
        "1"
    } else if d == 2 {
        proof {
            reveal_strlit("2");
            assert("2"@ =~= seq![digit_char(2)]);
        }
        "2"
    } else if d == 3 {
        proof {
            reveal_strlit("3");
            assert("3"@ =~= seq![digit_char(3)]);
        }
        "3"
    } else if d == 4 {
        proof {
            reveal_strlit("4");
            assert("4"@ =~= seq![digit_char(4)]);
        }
        "4"
    } else if d == 5 {
        proof {
            reveal_strlit("5");
            assert("5"@ =~= seq![digit_char(5)]);
        }
        "5"
    } else if d == 6 {
        proof {
            reveal_strlit("6");
            assert("6"@ =~= seq![digit_char(6)]);
        }
        "6"
    } else if d == 7 {
        proof {
            reveal_strlit("7");
            assert("7"@ =~= seq![digit_char(7)]);
        }
        "7"
    } else if d == 8 {
        proof {
            reveal_strlit("8");
            assert("8"@ =~= seq![digit_char(8)]);
        }
        "8"
    } else {
        proof {
            reveal_strlit("9");
            assert("9"@ =~= seq![digit_char(9)]);
        }
        "9"
    }
}

/// Formats `n` in decimal, exactly as `dec_str` describes.
pub fn u64_to_string(n: u64) -> (r: String)
    ensures
        r@ == dec_str(n as nat),
    decreases n,
{
    if n < 10 {
        String::from_str(digit_str(n))
    } else {
        let mut s = u64_to_string(n / 10);
        s.append(digit_str(n % 10));
        proof {
            assert(s@ =~= dec_str((n / 10) as nat).push(digit_char((n % 10) as nat)));
        }
        s
    }
}

/// An ASCII decimal digit byte, `b'0'` through `b'9'`.
pub open spec fn is_digit_byte(b: u8) -> bool {
    48 <= b <= 57
}

pub open spec fn all_digit_bytes(s: Seq<u8>) -> bool {
    forall|i: int| 0 <= i < s.len() ==> is_digit_byte(#[trigger] s[i])
}

/// The value of a sequence of ASCII digit bytes read in base ten.
pub open spec fn dec_value(s: Seq<u8>) -> int
    decreases s.len(),
{
    if s.len() == 0 {
        0
    } else {
        dec_value(s.drop_last()) * 10 + (s.last() - 48)
    }
}

/// The digits of a number, with an optional single leading `+` removed.
pub open spec fn strip_plus(s: Seq<u8>) -> Seq<u8> {
    if s.len() > 0 && s[0] == 43 {
        s.drop_first()
    } else {
        s
    }
}

/// Whether the standard library would parse these bytes as a `u64`:
/// after an optional leading `+`, at least one digit, nothing but digits,
/// and a value that fits in 64 bits.
pub open spec fn u64_parses(s: Seq<u8>) -> bool {
    let t = strip_plus(s);
    t.len() > 0 && all_digit_bytes(t) && dec_value(t) <= u64::MAX
}

pub open spec fn u64_value(s: Seq<u8>) -> int {
    dec_value(strip_plus(s))
}

proof fn lemma_dec_value_nonneg(s: Seq<u8>)
    requires
        all_digit_bytes(s),
    ensures
        dec_value(s) >= 0,
    decreases s.len(),
{
    if s.len() > 0 {
        assert(all_digit_bytes(s.drop_last())) by {
            assert(forall|i: int| 0 <= i < s.len() - 1 ==> s.drop_last()[i] == s[i]);
        }
        lemma_dec_value_nonneg(s.drop_last());
    }
}

/// With every byte a digit, the value of a prefix never exceeds the value
/// of the whole sequence.
proof fn lemma_dec_value_prefix(s: Seq<u8>, k: int)
    requires
        all_digit_bytes(s),
        0 <= k <= s.len(),
    ensures
        dec_value(s.take(k)) <= dec_value(s),
    decreases s.len() - k,
{
    if k < s.len() {
        let t = s.take(k + 1);
        assert(t.drop_last() =~= s.take(k));
        assert(all_digit_bytes(s.take(k))) by {
            assert(forall|i: int| 0 <= i < k ==> s.take(k)[i] == s[i]);
        }
        lemma_dec_value_nonneg(s.take(k));
        assert(dec_value(t) == dec_value(s.take(k)) * 10 + (s[k] - 48));
        lemma_dec_value_prefix(s, k + 1);
    } else {
        assert(s.take(k) =~= s);
    }
}

/// Parses `s` as the standard library parses a `u64`: `Some` exactly on the
/// strings of `u64_parses`, with the value of `u64_value`.
pub fn parse_u64(s: &[u8]) -> (r: Option<u64>)
    ensures
        u64_parses(s@) ==> r == Some(u64_value(s@) as u64),
        !u64_parses(s@) ==> r is None,
{
    let ghost t = strip_plus(s@);
    let start: usize = if s.len() > 0 && s[0] == 43 {
        1
    } else {
        0
    };
    proof {
        assert(t =~= s@.skip(start as int));
    }
    if start == s.len() {
        return None;
    }
    let mut i: usize = start;
    let mut acc: u64 = 0;
    while i < s.len()
        invariant
            start <= i <= s.len(),
            t == strip_plus(s@),
            t == s@.skip(start as int),
            start < s@.len(),
            all_digit_bytes(t.take(i - start)),
            acc == dec_value(t.take(i - start)),
        decreases s.len() - i,
    {
        let b = s[i];
        proof {
            assert(t[i - start] == s@[i as int]);
        }
        if b < 48 || b > 57 {
            proof {
                assert(0 <= i - start < t.len());
                assert(!is_digit_byte(t[i - start]));
                assert(!all_digit_bytes(t));
                assert(!u64_parses(s@));
            }
            return None;
        }
        let d: u64 = (b - 48) as u64;
        if acc > 1844674407370955161u64 || (acc == 1844674407370955161u64 && d > 5) {
            proof {
                let k = i - start;
                assert(t.take(k + 1).drop_last() =~= t.take(k));
                assert(dec_value(t.take(k + 1)) == acc * 10 + d);
                assert(dec_value(t.take(k + 1)) > u64::MAX);
                if all_digit_bytes(t) {
                    lemma_dec_value_prefix(t, k + 1);
                    assert(dec_value(t) > u64::MAX);
                }
                assert(!u64_parses(s@));
            }
            return None;
        }
        proof {
            let k = i - start;
            assert(t.take(k + 1).drop_last() =~= t.take(k));
            assert(dec_value(t.take(k + 1)) == acc * 10 + d);
        }
        acc = acc * 10 + d;
        i += 1;
    }
    proof {
        assert(t.take(i - start) =~= t);
    }
    Some(acc)
}

} // verus!
