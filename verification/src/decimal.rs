//! Decimal strings: what it means for a string to denote an `i32`, and a
//! parser proved against that meaning.

use vstd::prelude::*;

verus! {

/// `c` is one of the characters `'0'` through `'9'`.
pub open spec fn is_digit_char(c: char) -> bool {
    48 <= c as int && c as int <= 57
}

/// Numeric value of a digit character.
pub open spec fn digit_of(c: char) -> int {
    c as int - 48
}

/// Every character of `s` is a decimal digit.
pub open spec fn all_digits(s: Seq<char>) -> bool {
    forall|i: int| 0 <= i < s.len() ==> is_digit_char(s[i])
}

/// Value of a digit string, most significant digit first.
pub open spec fn digits_value(s: Seq<char>) -> int
    decreases s.len(),
{
    if s.len() == 0 {
        0
    } else {
        10 * digits_value(s.drop_last()) + digit_of(s.last())
    }
}

/// `s` starts with an explicit sign character.
pub open spec fn has_sign(s: Seq<char>) -> bool {
    s.len() > 0 && (s[0] == '-' || s[0] == '+')
}

/// `s` without its sign character, if any.
pub open spec fn digits_part(s: Seq<char>) -> Seq<char> {
    if has_sign(s) {
        s.subrange(1, s.len() as int)
    } else {
        s
    }
}

/// `s` denotes a negative number.
pub open spec fn is_negative(s: Seq<char>) -> bool {
    s.len() > 0 && s[0] == '-'
}

/// The integer a signed decimal string denotes.
pub open spec fn decimal_value(s: Seq<char>) -> int {
    if is_negative(s) {
        -digits_value(digits_part(s))
    } else {
        digits_value(digits_part(s))
    }
}

/// `s` is exactly what `i32` accepts as a decimal literal: an optional
/// sign, at least one digit, and a value within `i32`'s range.
pub open spec fn is_i32_decimal(s: Seq<char>) -> bool {
    &&& digits_part(s).len() > 0
    &&& all_digits(digits_part(s))
    &&& i32::MIN <= decimal_value(s) <= i32::MAX
}

/// A digit string never denotes a negative value.
pub proof fn lemma_digits_value_nonneg(s: Seq<char>)
    requires
        all_digits(s),
    ensures
        digits_value(s) >= 0,
    decreases s.len(),
{
    if s.len() > 0 {
        assert(all_digits(s.drop_last()));
        lemma_digits_value_nonneg(s.drop_last());
    }
}

/// Dropping trailing digits never increases the value.
pub proof fn lemma_digits_value_prefix_le(s: Seq<char>, i: int)
    requires
        all_digits(s),
        0 <= i <= s.len(),
    ensures
        digits_value(s.subrange(0, i)) <= digits_value(s),
    decreases s.len(),
{
    if i < s.len() {
        let t = s.drop_last();
        assert(all_digits(t));
        lemma_digits_value_prefix_le(t, i);
        assert(s.subrange(0, i) =~= t.subrange(0, i));
        lemma_digits_value_nonneg(t);
        assert(is_digit_char(s.last()));
    } else {
        assert(s.subrange(0, i) =~= s);
    }
}

/// Parses `s` as a decimal `i32`, returning `Some` exactly on the strings
/// that denote a value in `i32`'s range.
pub fn parse_i32(s: &str) -> (r: Option<i32>)
    ensures
        r is Some <==> is_i32_decimal(s@),
        r matches Some(v) ==> v as int == decimal_value(s@),
{
    let len = s.unicode_len();
    let mut start: usize = 0;
    let mut neg = false;
    if len > 0 {
        let c0 = s.get_char(0);
        if c0 == '-' {
            neg = true;
            start = 1;
        } else if c0 == '+' {
            start = 1;
        }
    }
    if start >= len {
        assert(digits_part(s@).len() == 0);
        return None;
    }
    let ghost d: Seq<char> = digits_part(s@);
    assert(d =~= s@.subrange(start as int, len as int));
    let mut acc: i64 = 0;
    let mut i: usize = start;
    while i < len
        invariant
            start <= i <= len,
            len == s@.len(),
            start == if has_sign(s@) { 1int } else { 0int },
            neg == is_negative(s@),
            d == digits_part(s@),
            d =~= s@.subrange(start as int, len as int),
            all_digits(d.subrange(0, i - start)),
            acc == digits_value(d.subrange(0, i - start)),
            0 <= acc <= 0x8000_0000,
        decreases len - i,
    {
        let c = s.get_char(i);
        let u = c as u32;
        if u < 48 || u > 57 {
            assert(d[i - start] == c);
            assert(!all_digits(d));
            return None;
        }
        let dv = (u - 48) as i64;
        proof {
            let pre = d.subrange(0, i - start);
            let ext = d.subrange(0, i + 1 - start);
            assert(ext.drop_last() =~= pre);
            assert(ext.last() == c);
        }
        acc = acc * 10 + dv;
        i = i + 1;
        if acc > 0x8000_0000 {
            proof {
                if all_digits(d) && i32::MIN <= decimal_value(s@) <= i32::MAX {
                    lemma_digits_value_prefix_le(d, i - start);
                    lemma_digits_value_nonneg(d);
                    assert(false);
                }
            }
            return None;
        }
    }
    assert(d.subrange(0, len - start) =~= d);
    if neg {
        let v: i32 = (-acc) as i32;
        Some(v)
    } else {
        if acc > 0x7fff_ffff {
            return None;
        }
        Some(acc as i32)
    }
}

} // verus!
