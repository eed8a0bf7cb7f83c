//! Decimal numerals: reading them as `u32` and writing `u32` values.

use vstd::prelude::*;
use crate::text::{chars_of, string_of};

verus! {

/// `c` is an ASCII decimal digit.
pub open spec fn is_digit(c: char) -> bool {
    48 <= c as u32 && c as u32 <= 57
}

/// Every character of `s` is an ASCII decimal digit.
pub open spec fn all_digits(s: Seq<char>) -> bool {
    forall|i: int| 0 <= i < s.len() ==> is_digit(#[trigger] s[i])
}

/// The value of the decimal digits `s`.
pub open spec fn digits_value(s: Seq<char>) -> nat
    decreases s.len(),
{
    if s.len() == 0 {
        0
    } else {
        (digits_value(s.drop_last()) * 10 + (s.last() as u32 - 48)) as nat
    }
}

/// What `str::parse::<u32>` gives: an optional `+` and then at least one
/// decimal digit, of a value that fits.
pub open spec fn parsed_u32(s: Seq<char>) -> Option<u32> {
    parsed_digits(without_plus(s))
}

/// `s` without a leading `+`.
pub open spec fn without_plus(s: Seq<char>) -> Seq<char> {
    if s.len() > 0 && s[0] == '+' {
        s.drop_first()
    } else {
        s
    }
}

/// The value of the decimal digits `d`, where there are some and it fits.
pub open spec fn parsed_digits(d: Seq<char>) -> Option<u32> {
    if d.len() > 0 && all_digits(d) && digits_value(d) <= u32::MAX {
        Some(digits_value(d) as u32)
    } else {
        None
    }
}

/// The digit character for `d < 10`.
pub open spec fn digit_char(d: nat) -> char {
    (d + 48) as char
}

/// The decimal numeral of `n`, without leading zeros (what `Display` writes).
pub open spec fn decimal(n: nat) -> Seq<char>
    decreases n,
{
    if n < 10 {
        seq![digit_char(n)]
    } else {
        decimal(n / 10) + seq![digit_char(n % 10)]
    }
}

/// Parses `s` as `str::parse::<u32>` does.
pub fn parse_u32(s: &str) -> (r: Option<u32>)
    ensures
        r == parsed_u32(s@),
{
    let v = chars_of(s);
    let start: usize = if v.len() > 0 && v[0] == '+' {
        1
    } else {
        0
    };
    let ghost d = without_plus(s@);
    assert(d =~= v@.skip(start as int));
    if start >= v.len() {
        return None;
    }
    let mut acc: u64 = 0;
    let mut overflow = false;
    let mut i: usize = start;
    while i < v.len()
        invariant
            start <= i <= v.len(),
            v@ == s@,
            d == v@.skip(start as int),
            d == without_plus(s@),
            all_digits(v@.subrange(start as int, i as int)),
            !overflow ==> acc == digits_value(v@.subrange(start as int, i as int)),
            !overflow ==> acc <= u32::MAX,
            overflow ==> digits_value(v@.subrange(start as int, i as int)) > u32::MAX,
        decreases v.len() - i,
    {
        let c = v[i];
        if !(48 <= (c as u32) && (c as u32) <= 57) {
            assert(d[i - start] == c);
            assert(!is_digit(d[i - start]));
            return None;
        }
        let ghost prev = v@.subrange(start as int, i as int);
        assert(v@.subrange(start as int, i + 1).drop_last() =~= prev);
        assert(v@.subrange(start as int, i + 1).last() == c);
        if !overflow {
            let next = acc * 10 + ((c as u32) - 48) as u64;
            if next > u32::MAX as u64 {
                overflow = true;
            } else {
                acc = next;
            }
        }
        i += 1;
    }
    assert(v@.subrange(start as int, v.len() as int) =~= d);
    if overflow {
        None
    } else {
        Some(acc as u32)
    }
}

fn decimal_chars(n: u32) -> (r: Vec<char>)
    ensures
        r@ == decimal(n as nat),
    decreases n,
{
    if n < 10 {
        let mut r: Vec<char> = Vec::new();
        r.push(((n + 48) as u8) as char);
        r
    } else {
        let mut r = decimal_chars(n / 10);
        r.push((((n % 10) + 48) as u8) as char);
        r
    }
}

/// The decimal numeral of `n` (`n.to_string()`).
pub fn u32_to_decimal(n: u32) -> (r: String)
    ensures
        r@ == decimal(n as nat),
{
    string_of(&decimal_chars(n))
}

pub(crate) proof fn lemma_decimal_digits(n: nat)
    ensures
        all_digits(decimal(n)),
        digits_value(decimal(n)) == n,
        decimal(n).len() > 0,
        decimal(n)[0] != '+',
    decreases n,
{
    if n < 10 {
        assert(digit_char(n) as u32 == n + 48);
        assert(decimal(n).drop_last() =~= Seq::<char>::empty());
        assert(digits_value(Seq::<char>::empty()) == 0);
    } else {
        lemma_decimal_digits(n / 10);
        let s = decimal(n);
        assert(s.drop_last() =~= decimal(n / 10));
        assert(s[0] == decimal(n / 10)[0]);
        let d = n % 10;
        assert(digit_char(d) as u32 == d + 48);
        assert(n / 10 * 10 + n % 10 == n) by (nonlinear_arith);
        assert(digits_value(s) == digits_value(decimal(n / 10)) * 10 + d);
    }
}

/// A leading zero does not change the value of a numeral.
pub(crate) proof fn lemma_leading_zero(d: Seq<char>)
    ensures
        digits_value(seq!['0'] + d) == digits_value(d),
        all_digits(d) ==> all_digits(seq!['0'] + d),
    decreases d.len(),
{
    if d.len() > 0 {
        lemma_leading_zero(d.drop_last());
        assert((seq!['0'] + d).drop_last() =~= seq!['0'] + d.drop_last());
        assert((seq!['0'] + d).last() == d.last());
    } else {
        assert((seq!['0'] + d).drop_last() =~= Seq::<char>::empty());
        assert('0' as u32 == 48);
        assert(digits_value(Seq::<char>::empty()) == 0);
        assert((seq!['0'] + d).last() == '0');
    }
    if all_digits(d) {
        assert forall|i: int| 0 <= i < (seq!['0'] + d).len() implies is_digit(#[trigger] (seq!['0'] + d)[i]) by {
            if i > 0 {
                assert((seq!['0'] + d)[i] == d[i - 1]);
            }
        }
    }
}

/// Reading the numeral that `u32_to_decimal` writes gives the number back.
pub proof fn lemma_parse_decimal_round_trip(n: u32)
    ensures
        parsed_u32(decimal(n as nat)) == Some(n),
{
    lemma_decimal_digits(n as nat);
}

} // verus!
