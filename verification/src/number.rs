//! Unsigned decimal numerals: reading them and writing them.

use vstd::prelude::*;

verus! {

/// Whether `c` is one of the ten ASCII digits.
pub open spec fn is_digit(c: char) -> bool {
    '0' as u32 <= c as u32 <= '9' as u32
}

/// The value of the digit `c`.
pub open spec fn digit_value(c: char) -> nat {
    (c as u32 - '0' as u32) as nat
}

/// The digit that stands for `d`, for `d` below ten.
pub open spec fn digit_char(d: nat) -> char {
    (d + '0' as u32) as char
}

/// Whether every character of `s` is a digit.
pub open spec fn all_digits(s: Seq<char>) -> bool {
    forall|i: int| 0 <= i < s.len() ==> is_digit(#[trigger] s[i])
}

/// The number that the digits of `s` denote in base ten, most significant
/// digit first. The empty sequence denotes zero.
pub open spec fn digits_value(s: Seq<char>) -> nat
    decreases s.len(),
{
    if s.len() == 0 {
        0
    } else {
        digits_value(s.drop_last()) * 10 + digit_value(s.last())
    }
}

/// `s` without one leading plus sign, if it has one.
pub open spec fn without_plus(s: Seq<char>) -> Seq<char> {
    if s.len() > 0 && s[0] == '+' {
        s.skip(1)
    } else {
        s
    }
}

/// The number that the numeral `s` denotes, if it is one and the number is
/// at most `max`. A numeral is an optional plus sign followed by one or more
/// digits; leading zeros are allowed, and nothing else is, not even
/// surrounding blanks.
pub open spec fn unsigned(s: Seq<char>, max: nat) -> Option<nat> {
    let digits = without_plus(s);
    if digits.len() > 0 && all_digits(digits) && digits_value(digits) <= max {
        Some(digits_value(digits))
    } else {
        None
    }
}

/// The decimal numeral of `n`, without sign or leading zeros.
pub open spec fn decimal(n: nat) -> Seq<char>
    decreases n,
{
    if n < 10 {
        seq![digit_char(n)]
    } else {
        decimal(n / 10).push(digit_char(n % 10))
    }
}

/// A prefix of a string of digits denotes no more than the whole string.
pub proof fn prefix_value_is_smaller(s: Seq<char>, k: int)
    requires
        0 <= k <= s.len(),
    ensures
        digits_value(s.take(k)) <= digits_value(s),
    decreases s.len() - k,
{
    if k == s.len() {
        assert(s.take(k) == s);
    } else {
        prefix_value_is_smaller(s, k + 1);
        assert(s.take(k + 1).drop_last() == s.take(k));
    }
}

/// Reads the numeral `s`; `None` where `s` is no numeral or denotes more
/// than `max`.
pub fn parse_unsigned(s: &[char], max: u64) -> (r: Option<u64>)
    ensures
        match r {
            Some(v) => unsigned(s@, max as nat) == Some(v as nat),
            None => unsigned(s@, max as nat) is None,
        },
{
    let n: usize = s.len();
    let start: usize = if n > 0 && s[0] == '+' {
        1
    } else {
        0
    };
    let ghost digits = without_plus(s@);
    assert(digits == s@.skip(start as int));
    if start == n {
        return None;
    }
    let mut value: u64 = 0;
    let mut i: usize = start;
    assert(digits.take(0) == Seq::<char>::empty());
    while i < n
        invariant
            start <= i <= n == s@.len(),
            digits == s@.skip(start as int),
            digits == without_plus(s@),
            all_digits(digits.take(i - start)),
            value as nat == digits_value(digits.take(i - start)),
            value <= max,
        decreases n - i,
    {
        let c: char = s[i];
        let code: u32 = c as u32;
        assert(digits[i - start] == c);
        assert(digits.take(i - start + 1).drop_last() == digits.take(i - start));
        if code < 48 || code > 57 {
            assert(!is_digit(digits[i - start]));
            return None;
        }
        assert(digit_value(c) == code - 48);
        let digit: u128 = (code - 48) as u128;
        let next: u128 = (value as u128) * 10 + digit;
        if next > max as u128 {
            proof {
                assert(digits_value(digits.take(i - start + 1)) == next);
                prefix_value_is_smaller(digits, i - start + 1);
                if all_digits(digits) {
                    assert(digits_value(digits) > max);
                }
            }
            return None;
        }
        value = next as u64;
        i += 1;
    }
    assert(digits.take(n - start) == digits);
    Some(value)
}

/// Reads a numeral that fits in 32 bits.
pub fn parse_u32(s: &[char]) -> (r: Option<u32>)
    ensures
        match r {
            Some(v) => unsigned(s@, u32::MAX as nat) == Some(v as nat),
            None => unsigned(s@, u32::MAX as nat) is None,
        },
{
    match parse_unsigned(s, 0xFFFF_FFFF) {
        Some(v) => Some(v as u32),
        None => None,
    }
}

/// Reads a numeral that fits in 64 bits.
pub fn parse_u64(s: &[char]) -> (r: Option<u64>)
    ensures
        match r {
            Some(v) => unsigned(s@, u64::MAX as nat) == Some(v as nat),
            None => unsigned(s@, u64::MAX as nat) is None,
        },
{
    parse_unsigned(s, 0xFFFF_FFFF_FFFF_FFFF)
}

/// The digit character for `d`.
fn digit_of(d: u64) -> (c: char)
    requires
        d < 10,
    ensures
        c == digit_char(d as nat),
{
    ((d as u8) + 48u8) as char
}

/// Writes `n` as a decimal numeral.
pub fn decimal_of(n: u64) -> (v: Vec<char>)
    ensures
        v@ == decimal(n as nat),
    decreases n,
{
    if n < 10 {
        let mut v: Vec<char> = Vec::new();
        v.push(digit_of(n));
        v
    } else {
        let mut v: Vec<char> = decimal_of(n / 10);
        v.push(digit_of(n % 10));
        v
    }
}

/// The ten digit characters and their values.
pub proof fn digit_char_is_digit(d: nat)
    requires
        d < 10,
    ensures
        is_digit(digit_char(d)),
        digit_value(digit_char(d)) == d,
        digit_char(d) != '+',
{
    assert(digit_char(d) as u32 == d + 48);
}

/// Every numeral that `decimal` writes is made of digits and denotes the
/// number it was written for.
pub proof fn decimal_denotes(n: nat)
    ensures
        decimal(n).len() > 0,
        all_digits(decimal(n)),
        digits_value(decimal(n)) == n,
        decimal(n)[0] != '+',
    decreases n,
{
    if n < 10 {
        digit_char_is_digit(n);
        assert(decimal(n).drop_last() == Seq::<char>::empty());
        assert(digits_value(Seq::<char>::empty()) == 0);
    } else {
        decimal_denotes(n / 10);
        digit_char_is_digit(n % 10);
        assert(decimal(n).drop_last() == decimal(n / 10));
    }
}

/// Reading what was written gives the number back: for every `n` up to
/// `max`, the numeral of `n` reads as `n`.
pub proof fn decimal_round_trip(n: nat, max: nat)
    requires
        n <= max,
    ensures
        unsigned(decimal(n), max) == Some(n),
{
    decimal_denotes(n);
}

} // verus!
