//! Decimal text of integers: writing a signed 64-bit integer, and reading one
//! from bytes.

use vstd::prelude::*;

verus! {

/// `String::push` appends one character to the end of the string.
pub assume_specification[ String::push ](s: &mut String, ch: char)
    ensures
        final(s)@ == old(s)@.push(ch),
;

/// The character of a decimal digit `0..=9`.
pub open spec fn digit_char(d: int) -> char {
    (d + 48) as char
}

/// The decimal digits of a natural number, most significant first, without
/// leading zeros; zero is the single digit `0`.
pub open spec fn decimal_nat(n: nat) -> Seq<char>
    decreases n,
{
    if n < 10 {
        seq![digit_char(n as int)]
    } else {
        decimal_nat(n / 10).push(digit_char((n % 10) as int))
    }
}

/// The decimal text of an integer: a minus sign in front of a negative one.
pub open spec fn decimal(v: int) -> Seq<char> {
    if v < 0 {
        seq!['-'] + decimal_nat((-v) as nat)
    } else {
        decimal_nat(v as nat)
    }
}

/// Appends the decimal digits of `n` to `out`.
fn push_decimal_nat(out: &mut String, n: u64)
    ensures
        final(out)@ == old(out)@ + decimal_nat(n as nat),
    decreases n,
{
    if n >= 10 {
        push_decimal_nat(out, n / 10);
    }
    let d: u8 = (n % 10) as u8;
    out.push((d + 48) as char);
}

/// Appends the decimal text of `v` to `out`.
pub fn push_decimal(out: &mut String, v: i64)
    ensures
        final(out)@ == old(out)@ + decimal(v as int),
{
    if v < 0 {
        out.push('-');
        let magnitude: u64 = ((-(v + 1)) as u64) + 1;
        push_decimal_nat(out, magnitude);
    } else {
        push_decimal_nat(out, v as u64);
    }
}

/// The byte is one of the digits `0` to `9`.
pub open spec fn is_digit(b: u8) -> bool {
    48 <= b <= 57
}

/// Every byte is a decimal digit.
pub open spec fn all_digits(s: Seq<u8>) -> bool {
    forall|i: int| 0 <= i < s.len() ==> is_digit(#[trigger] s[i])
}

/// The number that a sequence of decimal digits writes, most significant
/// digit first.
pub open spec fn digits_value(s: Seq<u8>) -> nat
    decreases s.len(),
{
    if s.len() == 0 {
        0
    } else {
        digits_value(s.drop_last()) * 10 + (s.last() - 48) as nat
    }
}

/// The integer that a text writes: an optional `+` or `-`, then one or more
/// decimal digits and nothing else. `None` for any other text.
pub open spec fn parse_int(s: Seq<u8>) -> Option<int> {
    let signed = s.len() > 0 && (s[0] == 43 || s[0] == 45);
    let digits = if signed {
        s.subrange(1, s.len() as int)
    } else {
        s
    };
    if digits.len() == 0 || !all_digits(digits) {
        None
    } else if signed && s[0] == 45 {
        Some(-(digits_value(digits) as int))
    } else {
        Some(digits_value(digits) as int)
    }
}

/// The signed 64-bit integer that a text writes, if it writes an integer and
/// that integer fits.
pub open spec fn spec_parse_i64(s: Seq<u8>) -> Option<i64> {
    match parse_int(s) {
        Some(v) => if i64::MIN <= v <= i64::MAX {
            Some(v as i64)
        } else {
            None
        },
        None => None,
    }
}

/// A longer digit sequence writes a number at least as large as any of its
/// prefixes.
proof fn lemma_digits_value_prefix(s: Seq<u8>, k: int)
    requires
        0 <= k <= s.len(),
        all_digits(s),
    ensures
        digits_value(s.take(k)) <= digits_value(s),
    decreases s.len(),
{
    if k == s.len() {
        assert(s.take(k) =~= s);
    } else {
        let front = s.drop_last();
        lemma_digits_value_prefix(front, k);
        assert(front.take(k) =~= s.take(k));
    }
}

/// Reads a signed 64-bit integer from its decimal text.
#[verifier::loop_isolation(false)]
pub fn parse_i64(text: &[u8]) -> (r: Option<i64>)
    ensures
        r == spec_parse_i64(text@),
{
    let n = text.len();
    let signed = n > 0 && (text[0] == 43 || text[0] == 45);
    let negative = signed && text[0] == 45;
    let start: usize = if signed { 1 } else { 0 };
    if start == n {
        return None;
    }
    let ghost digits = text@.subrange(start as int, n as int);
    proof {
        if !signed {
            assert(digits =~= text@);
        }
        assert(digits.take(0) =~= Seq::<u8>::empty());
    }
    let limit: u64 = if negative { 9223372036854775808 } else { 9223372036854775807 };
    let mut acc: u64 = 0;
    let mut i: usize = start;
    while i < n
        invariant
            start <= i <= n,
            n == text@.len(),
            digits == text@.subrange(start as int, n as int),
            all_digits(digits.take(i - start)),
            acc == digits_value(digits.take(i - start)),
            acc <= limit,
            limit <= 9223372036854775808,
        decreases n - i,
    {
        let b = text[i];
        let ghost seen = digits.take(i - start + 1);
        proof {
            assert(seen.drop_last() =~= digits.take(i - start));
            assert(seen.last() == b);
        }
        if b < 48 || b > 57 {
            proof {
                assert(!is_digit(digits[i - start]));
            }
            return None;
        }
        let d: u64 = (b - 48) as u64;
        if acc > (limit - d) / 10 {
            proof {
                assert(digits_value(seen) > limit);
                if all_digits(digits) {
                    lemma_digits_value_prefix(digits, i - start + 1);
                }
            }
            return None;
        }
        acc = acc * 10 + d;
        i += 1;
        proof {
            assert forall|j: int| 0 <= j < seen.len() implies is_digit(#[trigger] seen[j]) by {
                if j < seen.len() - 1 {
                    assert(seen[j] == digits.take(i - 1 - start)[j]);
                }
            }
        }
    }
    proof {
        assert(digits.take(n - start) =~= digits);
    }
    if negative {
        if acc == 9223372036854775808 {
            Some(i64::MIN)
        } else {
            Some(-(acc as i64))
        }
    } else {
        Some(acc as i64)
    }
}

/// The bytes of a text of characters below 256.
pub open spec fn bytes_of(text: Seq<char>) -> Seq<u8> {
    Seq::new(text.len(), |i: int| text[i] as u8)
}

/// The decimal digits of a natural number are digits, and they write that
/// number.
pub proof fn lemma_decimal_nat_value(n: nat)
    ensures
        decimal_nat(n).len() > 0,
        all_digits(bytes_of(decimal_nat(n))),
        digits_value(bytes_of(decimal_nat(n))) == n,
    decreases n,
{
    let text = bytes_of(decimal_nat(n));
    if n < 10 {
        assert(text =~= seq![(n + 48) as u8]);
        assert(text.drop_last() =~= Seq::<u8>::empty());
        assert(digits_value(text.drop_last()) == 0);
    } else {
        lemma_decimal_nat_value(n / 10);
        let front = bytes_of(decimal_nat(n / 10));
        assert(text =~= front.push(((n % 10) + 48) as u8));
        assert(text.drop_last() =~= front);
        assert forall|i: int| 0 <= i < text.len() implies is_digit(#[trigger] text[i]) by {
            if i < front.len() {
                assert(text[i] == front[i]);
            }
        }
    }
}

/// Reading the decimal text of a 64-bit integer gives the integer back.
pub proof fn lemma_parse_decimal(v: i64)
    ensures
        spec_parse_i64(bytes_of(decimal(v as int))) == Some(v),
{
    if v < 0 {
        let n = (-v) as nat;
        lemma_decimal_nat_value(n);
        let text = bytes_of(decimal(v as int));
        assert(text[0] == 45);
        assert(text.subrange(1, text.len() as int) =~= bytes_of(decimal_nat(n)));
    } else {
        lemma_decimal_nat_value(v as nat);
        let text = bytes_of(decimal(v as int));
        assert(is_digit(text[0]));
    }
}

} // verus!
