//! Verified parsing of free-text guesses: ASCII-whitespace trimming and
//! decimal integer parsing with an exact grammar, including overflow
//! rejection.

use vstd::prelude::*;
use vstd::string::StrSliceExecFns;

verus! {

/// The whitespace characters the trimmer removes.
pub open spec fn is_space(c: char) -> bool {
    c == ' ' || c == '\t' || c == '\n' || c == '\r'
}

/// A decimal digit.
pub open spec fn is_digit(c: char) -> bool {
    48 <= c as int <= 57
}

/// The value of one decimal digit.
pub open spec fn digit_val(c: char) -> int {
    c as int - 48
}

/// Index of the first non-space character at or after `j`, or the length.
pub open spec fn first_non_space_at(s: Seq<char>, j: int) -> int
    recommends
        0 <= j <= s.len(),
    decreases s.len() - j when 0 <= j <= s.len()
{
    if j < s.len() && is_space(s[j]) {
        first_non_space_at(s, j + 1)
    } else {
        j
    }
}

/// End (exclusive) of the last non-space character before `j`, or zero.
pub open spec fn last_non_space_end(s: Seq<char>, j: int) -> int
    recommends
        0 <= j <= s.len(),
    decreases j when 0 <= j
{
    if j > 0 && is_space(s[j - 1]) {
        last_non_space_end(s, j - 1)
    } else {
        j
    }
}

/// `s` with leading and trailing whitespace removed.
pub open spec fn trim_spec(s: Seq<char>) -> Seq<char> {
    let lo = first_non_space_at(s, 0);
    if lo == s.len() {
        Seq::empty()
    } else {
        s.subrange(lo, last_non_space_end(s, s.len() as int))
    }
}

/// Every character is a decimal digit.
pub open spec fn all_digits(s: Seq<char>) -> bool {
    forall|k: int| 0 <= k < s.len() ==> is_digit(#[trigger] s[k])
}

/// The value of a digit string, most significant digit first.
pub open spec fn digits_val(s: Seq<char>) -> int
    decreases s.len(),
{
    if s.len() == 0 {
        0
    } else {
        digits_val(s.drop_last()) * 10 + digit_val(s.last())
    }
}

/// A well-formed integer literal: an optional single sign, then at least
/// one digit and nothing else.
pub open spec fn is_int_string(s: Seq<char>) -> bool {
    if s.len() == 0 {
        false
    } else if s[0] == '+' || s[0] == '-' {
        s.len() > 1 && all_digits(s.drop_first())
    } else {
        all_digits(s)
    }
}

/// The mathematical value of a well-formed integer literal.
pub open spec fn int_string_val(s: Seq<char>) -> int
    recommends
        is_int_string(s),
{
    if s.len() > 0 && s[0] == '-' {
        -digits_val(s.drop_first())
    } else if s.len() > 0 && s[0] == '+' {
        digits_val(s.drop_first())
    } else {
        digits_val(s)
    }
}

/// What parsing yields: the value of the trimmed input when it is a
/// well-formed literal whose value fits an `i32`, and nothing otherwise.
pub open spec fn parse_i32_spec(s: Seq<char>) -> Option<int> {
    let t = trim_spec(s);
    if is_int_string(t) && i32::MIN <= int_string_val(t) <= i32::MAX {
        Some(int_string_val(t))
    } else {
        None
    }
}

proof fn lemma_scan_forward(s: Seq<char>, j: int, i: int)
    requires
        0 <= j <= i <= s.len(),
        forall|k: int| j <= k < i ==> is_space(#[trigger] s[k]),
        i == s.len() || !is_space(s[i]),
    ensures
        first_non_space_at(s, j) == i,
    decreases i - j,
{
    if j < i {
        lemma_scan_forward(s, j + 1, i);
    }
}

proof fn lemma_scan_backward(s: Seq<char>, i: int, j: int)
    requires
        0 <= i <= j <= s.len(),
        forall|k: int| i <= k < j ==> is_space(#[trigger] s[k]),
        i == 0 || !is_space(s[i - 1]),
    ensures
        last_non_space_end(s, j) == i,
    decreases j - i,
{
    if i < j {
        lemma_scan_backward(s, i, j - 1);
    }
}

proof fn lemma_digits_val_nonneg(s: Seq<char>)
    requires
        all_digits(s),
    ensures
        digits_val(s) >= 0,
    decreases s.len(),
{
    if s.len() > 0 {
        assert(all_digits(s.drop_last()));
        lemma_digits_val_nonneg(s.drop_last());
    }
}

proof fn lemma_digits_val_prefix_le(s: Seq<char>, k: int)
    requires
        all_digits(s),
        0 <= k <= s.len(),
    ensures
        digits_val(s.take(k)) <= digits_val(s),
    decreases s.len() - k,
{
    if k < s.len() {
        lemma_digits_val_prefix_le(s, k + 1);
        assert(s.take(k + 1).drop_last() =~= s.take(k));
        assert(s.take(k + 1).last() == s[k]);
        assert(all_digits(s.take(k)));
        lemma_digits_val_nonneg(s.take(k));
    } else {
        assert(s.take(k) =~= s);
    }
}

/// Whether `c` is trimmed away.
fn is_space_char(c: char) -> (r: bool)
    ensures
        r == is_space(c),
{
    c == ' ' || c == '\t' || c == '\n' || c == '\r'
}

/// Parses `s` as a decimal integer after trimming whitespace, exactly as
/// `parse_i32_spec` describes: `None` on an empty or malformed literal and
/// on a value outside the `i32` range.
pub fn parse_i32(s: &str) -> (r: Option<i32>)
    ensures
        match r {
            Some(v) => parse_i32_spec(s@) == Some(v as int),
            None => parse_i32_spec(s@) is None,
        },
{
    let len = s.unicode_len();
    let mut lo: usize = 0;
    while lo < len && is_space_char(s.get_char(lo))
        invariant
            0 <= lo <= len,
            len == s@.len(),
            forall|k: int| 0 <= k < lo ==> is_space(#[trigger] s@[k]),
        decreases len - lo,
    {
        lo = lo + 1;
    }
    proof {
        lemma_scan_forward(s@, 0, lo as int);
    }
    if lo == len {
        return None;
    }
    let mut hi: usize = len;
    while hi > lo && is_space_char(s.get_char(hi - 1))
        invariant
            lo <= hi <= len,
            len == s@.len(),
            lo < len,
            !is_space(s@[lo as int]),
            forall|k: int| hi <= k < len ==> is_space(#[trigger] s@[k]),
        decreases hi,
    {
        hi = hi - 1;
    }
    assert(hi > lo);
    proof {
        lemma_scan_backward(s@, hi as int, len as int);
    }
    let t: &str = s.substring_char(lo, hi);
    let ghost tv: Seq<char> = trim_spec(s@);
    proof {
        assert(t@ =~= tv);
    }
    let tlen: usize = hi - lo;
    proof {
        assert(tlen == t@.len());
    }
    let first: char = t.get_char(0);
    let neg: bool = first == '-';
    let signed: bool = first == '-' || first == '+';
    let start: usize = if signed {
        1
    } else {
        0
    };
    if tlen == start {
        // A bare sign is not a literal.
        return None;
    }
    let ghost digits: Seq<char> = tv.subrange(start as int, tlen as int);
    proof {
        if signed {
            assert(digits =~= tv.drop_first());
        } else {
            assert(digits =~= tv);
        }
    }
    let mut acc: u64 = 0;
    let mut i: usize = start;
    while i < tlen
        invariant
            start <= i <= tlen,
            tlen == t@.len(),
            t@ == tv,
            tv == trim_spec(s@),
            start == 1 <==> signed,
            start == 0 <==> !signed,
            tlen > start,
            signed <==> (tv[0] == '-' || tv[0] == '+'),
            neg <==> tv[0] == '-',
            digits == tv.subrange(start as int, tlen as int),
            forall|k: int| start <= k < i ==> is_digit(#[trigger] tv[k]),
            acc == digits_val(tv.subrange(start as int, i as int)),
            acc <= 0x8000_0000,
        decreases tlen - i,
    {
        let c: char = t.get_char(i);
        let cv: u32 = c as u32;
        if cv < 48 || cv > 57 {
            // A non-digit anywhere makes the literal malformed.
            assert(!is_int_string(tv)) by {
                if signed {
                    assert(tv.drop_first()[i - 1] == tv[i as int]);
                }
            };
            return None;
        }
        let d: u64 = (cv - 48) as u64;
        acc = acc * 10 + d;
        let ghost prev: Seq<char> = tv.subrange(start as int, i as int);
        let ghost cur: Seq<char> = tv.subrange(start as int, i + 1);
        proof {
            assert(cur.drop_last() =~= prev);
            assert(cur.last() == tv[i as int]);
        }
        i = i + 1;
        if acc > 0x8000_0000 {
            // Whatever the remaining characters are, parsing fails: either
            // a later character is not a digit, or the value exceeds the
            // i32 range in both the signed and the unsigned reading.
            proof {
                if is_int_string(tv) {
                    if signed {
                        assert(digits =~= tv.drop_first());
                    } else {
                        assert(digits =~= tv);
                    }
                    assert(all_digits(digits));
                    assert(digits.take(i - start) =~= cur);
                    lemma_digits_val_prefix_le(digits, i - start);
                    assert(digits_val(digits) > 0x8000_0000);
                    if tv[0] == '-' {
                        assert(int_string_val(tv) == -digits_val(digits));
                    } else {
                        assert(int_string_val(tv) == digits_val(digits));
                    }
                }
            }
            return None;
        }
    }
    proof {
        if signed {
            assert(tv.drop_first() =~= digits);
            assert(forall|k: int|
                0 <= k < digits.len() ==> is_digit(#[trigger] digits[k]) == is_digit(
                    tv[k + 1],
                ));
        } else {
            assert(tv =~= digits);
        }
        assert(all_digits(digits));
        assert(acc == digits_val(digits));
        assert(is_int_string(tv));
        if tv[0] == '-' {
            assert(int_string_val(tv) == -digits_val(digits));
        } else {
            assert(int_string_val(tv) == digits_val(digits));
        }
        lemma_digits_val_nonneg(digits);
    }
    if neg {
        let v: i64 = -(acc as i64);
        Some(v as i32)
    } else {
        if acc > 2147483647 {
            // 2^31 does not fit a positive i32.
            return None;
        }
        Some(acc as i32)
    }
}

} // verus!
