use vstd::prelude::*;

use crate::chars::{digit_value, is_digit, is_digit_char};
use crate::strutil::str_to_chars;

verus! {

/// Whether every character of `s` is an ASCII decimal digit.
pub open spec fn all_digits(s: Seq<char>) -> bool {
    forall|i: int| 0 <= i < s.len() ==> is_digit(#[trigger] s[i])
}

/// The number denoted by a sequence of decimal digits, most significant first.
pub open spec fn digits_to_int(s: Seq<char>) -> int
    decreases s.len(),
{
    if s.len() == 0 {
        0
    } else {
        digits_to_int(s.drop_last()) * 10 + digit_value(s.last())
    }
}

/// What parsing a decimal integer literal into a 64-bit signed value yields:
/// the denoted number when the text is a nonempty run of digits and the number
/// fits, nothing otherwise.
pub open spec fn spec_parse_i64(s: Seq<char>) -> Option<int> {
    if s.len() > 0 && all_digits(s) && digits_to_int(s) <= i64::MAX {
        Some(digits_to_int(s))
    } else {
        None
    }
}

/// A digit run denotes a nonnegative number.
proof fn lemma_digits_nonneg(s: Seq<char>, j: int)
    requires
        all_digits(s),
        0 <= j <= s.len(),
    ensures
        0 <= digits_to_int(s.take(j)),
    decreases j,
{
    if j > 0 {
        lemma_digits_nonneg(s, j - 1);
        assert(s.take(j).drop_last() =~= s.take(j - 1));
        assert(is_digit(s[j - 1]));
    }
}

/// A digit run's value grows (weakly) with each digit appended, so a prefix
/// never denotes more than the whole.
proof fn lemma_digits_prefix_le(s: Seq<char>, j: int, k: int)
    requires
        all_digits(s),
        0 <= j <= k <= s.len(),
    ensures
        0 <= digits_to_int(s.take(j)) <= digits_to_int(s.take(k)),
    decreases k - j,
{
    if j == k {
        lemma_digits_nonneg(s, j);
    } else {
        lemma_digits_prefix_le(s, j, k - 1);
        assert(s.take(k).drop_last() =~= s.take(k - 1));
        assert(digits_to_int(s.take(k)) == digits_to_int(s.take(k - 1)) * 10 + digit_value(
            s.take(k).last(),
        ));
        assert(is_digit(s[k - 1]));
    }
}

/// Parses a nonempty run of ASCII decimal digits as an i64, refusing empty
/// text, any non-digit character, and any value above i64::MAX.
pub fn parse_i64_digits(s: &str) -> (r: Option<i64>)
    ensures
        match r {
            Some(v) => spec_parse_i64(s@) == Some(v as int),
            None => spec_parse_i64(s@) is None,
        },
{
    let chars = str_to_chars(s);
    if chars.len() == 0 {
        return None;
    }
    let mut acc: i64 = 0;
    let mut i: usize = 0;
    while i < chars.len()
        invariant
            chars@ == s@,
            0 <= i <= chars@.len(),
            all_digits(chars@.take(i as int)),
            0 <= acc,
            acc as int == digits_to_int(chars@.take(i as int)),
        decreases chars@.len() - i,
    {
        let c = chars[i];
        if !is_digit_char(c) {
            assert(!all_digits(s@));
            return None;
        }
        let d: i64 = (c as u32 as i64) - 48;
        assert(d == digit_value(c));
        proof {
            assert(chars@.take(i + 1).drop_last() =~= chars@.take(i as int));
            assert(chars@.take(i + 1).last() == c);
        }
        if acc > 922337203685477580 || (acc == 922337203685477580 && d > 7) {
            proof {
                assert(digits_to_int(chars@.take(i + 1)) == acc as int * 10 + d);
                assert(digits_to_int(chars@.take(i + 1)) > i64::MAX);
                if all_digits(s@) {
                    lemma_digits_prefix_le(s@, i + 1, s@.len() as int);
                    assert(s@.take(s@.len() as int) =~= s@);
                }
            }
            return None;
        }
        acc = acc * 10 + d;
        i = i + 1;
    }
    proof {
        assert(chars@.take(chars@.len() as int) =~= s@);
    }
    Some(acc)
}

} // verus!
