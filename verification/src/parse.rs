//! Verified parsing of the numeric text fields that appear in the source CSV
//! files and in the version marker: unsigned and signed decimal integers, and
//! the plain decimal-fraction shape used by coordinate columns.

use vstd::prelude::*;
use vstd::string::StrSliceExecFns;

verus! {

pub open spec fn is_digit(c: char) -> bool {
    '0' <= c && c <= '9'
}

/// Numeric value of one decimal digit.
pub open spec fn digit_val(c: char) -> int {
    c as int - 48
}

pub open spec fn all_digits(s: Seq<char>) -> bool {
    forall|i: int| 0 <= i < s.len() ==> is_digit(#[trigger] s[i])
}

/// Value of a string of decimal digits, most significant first.
pub open spec fn dec_val(s: Seq<char>) -> int
    decreases s.len(),
{
    if s.len() == 0 {
        0
    } else {
        dec_val(s.drop_last()) * 10 + digit_val(s.last())
    }
}

/// The shape accepted for an unsigned 64-bit field: one or more digits whose
/// value fits.
pub open spec fn is_u64_text(s: Seq<char>) -> bool {
    s.len() > 0 && all_digits(s) && dec_val(s) <= u64::MAX
}

/// The shape accepted for a signed 64-bit field: an optional leading minus
/// or plus sign, then one or more digits, with the signed value in range.
pub open spec fn is_i64_text(s: Seq<char>) -> bool {
    if s.len() > 0 && s[0] == '-' {
        let t = s.skip(1);
        t.len() > 0 && all_digits(t) && -dec_val(t) >= i64::MIN
    } else if s.len() > 0 && s[0] == '+' {
        let t = s.skip(1);
        t.len() > 0 && all_digits(t) && dec_val(t) <= i64::MAX
    } else {
        s.len() > 0 && all_digits(s) && dec_val(s) <= i64::MAX
    }
}

/// Signed value of text satisfying `is_i64_text`.
pub open spec fn i64_val(s: Seq<char>) -> int {
    if s.len() > 0 && s[0] == '-' {
        -dec_val(s.skip(1))
    } else if s.len() > 0 && s[0] == '+' {
        dec_val(s.skip(1))
    } else {
        dec_val(s)
    }
}

/// An unsigned decimal-fraction body: at least one digit, at most one dot,
/// and nothing else, so `51`, `51.75`, `1.` and `.5` all pass. Exponent and
/// other special floating-point forms are deliberately not accepted.
pub open spec fn decimal_body_ok(t: Seq<char>) -> bool {
    &&& t.len() > 0
    &&& (exists|i: int| 0 <= i < t.len() && is_digit(#[trigger] t[i]))
    &&& (forall|i: int| 0 <= i < t.len() ==> is_digit(#[trigger] t[i]) || t[i] == '.')
    &&& (forall|i: int, j: int| 0 <= i < j < t.len() && t[i] == '.' ==> t[j] != '.')
}

/// The shape accepted for a coordinate field: an optional minus sign, then a
/// plain decimal number such as `51` or `51.75`.
pub open spec fn is_decimal_text(s: Seq<char>) -> bool {
    if s.len() > 0 && s[0] == '-' {
        decimal_body_ok(s.skip(1))
    } else {
        decimal_body_ok(s)
    }
}

/// Checks whether a coordinate field has the accepted decimal shape.
pub fn check_decimal(s: &str) -> (r: bool)
    ensures
        r == is_decimal_text(s@),
{
    let n = s.unicode_len();
    if n == 0 {
        return false;
    }
    let neg = s.get_char(0) == '-';
    let o: usize = if neg { 1 } else { 0 };
    let ghost t = if neg { s@.skip(1) } else { s@ };
    assert(t.len() == n - o);
    if n == o {
        return false;
    }
    let mut i: usize = o;
    let mut dot: Option<usize> = None;
    let mut digit_seen = false;
    while i < n
        invariant
            o <= i <= n,
            n == s@.len(),
            o == 0 || o == 1,
            (o == 1) == (s@[0] == '-'),
            t == (if o == 1 { s@.skip(1) } else { s@ }),
            t.len() == n - o,
            forall|k: int| 0 <= k < i - o ==> is_digit(#[trigger] t[k]) || t[k] == '.',
            match dot {
                Some(p) => o <= p < i && t[p - o] == '.' && (forall|k: int|
                    0 <= k < i - o && k != p - o ==> #[trigger] t[k] != '.'),
                None => forall|k: int| 0 <= k < i - o ==> #[trigger] t[k] != '.',
            },
            digit_seen == (exists|k: int| 0 <= k < i - o && is_digit(#[trigger] t[k])),
        decreases n - i,
    {
        let c = s.get_char(i);
        assert(t[i - o] == s@[i as int]);
        if c == '.' {
            if dot.is_some() {
                assert(!decimal_body_ok(t));
                return false;
            }
            dot = Some(i);
        } else if c < '0' || c > '9' {
            assert(!(is_digit(t[i - o]) || t[i - o] == '.'));
            assert(!decimal_body_ok(t));
            return false;
        } else {
            proof {
                assert(is_digit(t[i - o]));
            }
            digit_seen = true;
        }
        i = i + 1;
    }
    if !digit_seen {
        assert(!decimal_body_ok(t));
        return false;
    }
    assert(decimal_body_ok(t));
    true
}

proof fn lemma_dec_val_nonneg(s: Seq<char>)
    requires
        all_digits(s),
    ensures
        dec_val(s) >= 0,
    decreases s.len(),
{
    if s.len() > 0 {
        lemma_dec_val_nonneg(s.drop_last());
    }
}

/// A digit string is worth at least any of its prefixes.
proof fn lemma_dec_val_prefix_le(s: Seq<char>, i: int)
    requires
        all_digits(s),
        0 <= i <= s.len(),
    ensures
        dec_val(s.take(i)) <= dec_val(s),
    decreases s.len() - i,
{
    if i < s.len() {
        let t = s.take(i + 1);
        assert(t.drop_last() =~= s.take(i));
        lemma_dec_val_nonneg(s.take(i));
        lemma_dec_val_prefix_le(s, i + 1);
    } else {
        assert(s.take(i) =~= s);
    }
}

/// Parses a string of decimal digits whose value is at most `bound`.
/// Returns the value exactly when the text has that shape; rejects empty
/// text, any non-digit, and any value over the bound.
pub fn parse_digits_bounded(s: &str, bound: u64) -> (r: Option<u64>)
    ensures
        r is Some <==> (s@.len() > 0 && all_digits(s@) && dec_val(s@) <= bound),
        r is Some ==> r->0 as int == dec_val(s@),
{
    let n = s.unicode_len();
    if n == 0 {
        return None;
    }
    let mut val: u64 = 0;
    let mut i: usize = 0;
    while i < n
        invariant
            0 < n == s@.len(),
            i <= n,
            all_digits(s@.take(i as int)),
            val as int == dec_val(s@.take(i as int)),
            val <= bound,
        decreases n - i,
    {
        let c = s.get_char(i);
        let d: u32 = c as u32;
        if d < 48 || d > 57 {
            assert(!is_digit(s@[i as int]));
            return None;
        }
        let dd: u64 = (d - 48) as u64;
        assert(s@.take(i + 1).drop_last() =~= s@.take(i as int));
        assert(s@.take(i + 1).last() == s@[i as int]);
        let next: u64 = match val.checked_mul(10) {
            Some(v10) => match v10.checked_add(dd) {
                Some(v) => v,
                None => {
                    proof {
                        lemma_overflow_rejects(s@, i as int, bound);
                    }
                    return None;
                },
            },
            None => {
                proof {
                    lemma_overflow_rejects(s@, i as int, bound);
                }
                return None;
            },
        };
        if next > bound {
            proof {
                lemma_overflow_rejects(s@, i as int, bound);
            }
            return None;
        }
        val = next;
        i = i + 1;
    }
    assert(s@.take(n as int) =~= s@);
    Some(val)
}

/// If the value of the first `i + 1` digits already exceeds `bound`, no
/// digit string extending them stays within it.
proof fn lemma_overflow_rejects(s: Seq<char>, i: int, bound: u64)
    requires
        0 <= i < s.len(),
        all_digits(s.take(i + 1)),
        dec_val(s.take(i + 1)) > bound,
    ensures
        !(all_digits(s) && dec_val(s) <= bound),
{
    if all_digits(s) {
        lemma_dec_val_prefix_le(s, i + 1);
    }
}

/// Parses the version-marker text: an unsigned 64-bit decimal integer.
pub fn parse_u64(s: &str) -> (r: Option<u64>)
    ensures
        r is Some <==> is_u64_text(s@),
        r is Some ==> r->0 as int == dec_val(s@),
{
    parse_digits_bounded(s, u64::MAX)
}

/// Parses a signed 64-bit decimal integer field, with an optional leading
/// minus or plus sign.
pub fn parse_i64(s: &str) -> (r: Option<i64>)
    ensures
        r is Some <==> is_i64_text(s@),
        r is Some ==> r->0 as int == i64_val(s@),
{
    let n = s.unicode_len();
    if n == 0 {
        return None;
    }
    let c = s.get_char(0);
    if c == '-' {
        let rest = s.substring_char(1, n);
        assert(rest@ =~= s@.skip(1));
        match parse_digits_bounded(rest, 9223372036854775808u64) {
            Some(v) => {
                if v == 9223372036854775808u64 {
                    Some(i64::MIN)
                } else {
                    Some(-(v as i64))
                }
            },
            None => None,
        }
    } else if c == '+' {
        let rest = s.substring_char(1, n);
        assert(rest@ =~= s@.skip(1));
        match parse_digits_bounded(rest, 9223372036854775807u64) {
            Some(v) => Some(v as i64),
            None => None,
        }
    } else {
        match parse_digits_bounded(s, 9223372036854775807u64) {
            Some(v) => Some(v as i64),
            None => None,
        }
    }
}

} // verus!
