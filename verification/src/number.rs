//! Decimal numbers in text.

use vstd::prelude::*;

use crate::text::{chars_of, digit, is_digit};

verus! {

/// The value of a decimal digit.
pub open spec fn digit_value(c: char) -> nat {
    (c as int - '0' as int) as nat
}

/// All characters are decimal digits.
pub open spec fn all_digits(s: Seq<char>) -> bool {
    forall|i: int| 0 <= i < s.len() ==> is_digit(#[trigger] s[i])
}

/// The number that a run of decimal digits writes.
pub open spec fn number_of(digits: Seq<char>) -> nat
    decreases digits.len(),
{
    if digits.len() == 0 {
        0
    } else {
        10 * number_of(digits.drop_last()) + digit_value(digits.last())
    }
}

/// The number that `s` writes: an optional plus sign, then at least one decimal
/// digit and nothing else.
pub open spec fn unsigned(s: Seq<char>) -> Option<nat> {
    let digits = if s.len() > 0 && s.first() == '+' {
        s.skip(1)
    } else {
        s
    };
    if digits.len() > 0 && all_digits(digits) {
        Some(number_of(digits))
    } else {
        None
    }
}

/// `s` writes a number from `low` to `high`.
pub open spec fn in_range(s: Seq<char>, low: nat, high: nat) -> bool {
    unsigned(s) matches Some(n) && low <= n <= high
}

/// The shortest decimal writing of `n`.
pub open spec fn decimal(n: nat) -> Seq<char>
    decreases n,
{
    let last = (n % 10 + '0' as int) as char;
    if n < 10 {
        seq![last]
    } else {
        decimal(n / 10).push(last)
    }
}

proof fn lemma_number_grows(digits: Seq<char>, n: int)
    requires
        0 <= n <= digits.len(),
    ensures
        number_of(digits.take(n)) <= number_of(digits),
    decreases digits.len() - n,
{
    if n == digits.len() {
        assert(digits.take(n) =~= digits);
    } else {
        lemma_number_grows(digits, n + 1);
        assert(digits.take(n + 1).drop_last() =~= digits.take(n));
    }
}

/// The number that `s` writes, where it is at most `max`.
pub fn parse_up_to(s: &str, max: u64) -> (r: Option<u64>)
    requires
        max <= 0xffff_ffff,
    ensures
        match r {
            Some(n) => unsigned(s@) == Some(n as nat) && n <= max,
            None => !in_range(s@, 0, max as nat),
        },
{
    let chars = chars_of(s);
    let from: usize = if chars.len() > 0 && chars[0] == '+' {
        1
    } else {
        0
    };
    let ghost digits = chars@.skip(from as int);
    proof {
        if from == 0 {
            assert(digits =~= s@);
        }
    }
    if from == chars.len() {
        return None;
    }
    let mut value: u64 = 0;
    let mut i: usize = from;
    while i < chars.len()
        invariant
            chars@ == s@,
            from <= i <= chars@.len(),
            digits == chars@.skip(from as int),
            max <= 0xffff_ffff,
            value <= max,
            value == number_of(digits.take(i - from)),
            forall|k: int| 0 <= k < i - from ==> is_digit(#[trigger] digits[k]),
            unsigned(s@) matches Some(n) ==> n == number_of(digits) && all_digits(digits),
        decreases chars.len() - i,
    {
        let c = chars[i];
        assert(digits[i - from] == c);
        if !digit(c) {
            return None;
        }
        assert(digits.take(i - from + 1).drop_last() =~= digits.take(i - from));
        proof {
            lemma_number_grows(digits, i - from + 1);
        }
        let next: u64 = 10 * value + (c as u64 - '0' as u64);
        if next > max {
            return None;
        }
        value = next;
        i += 1;
    }
    assert(digits.take(digits.len() as int) =~= digits);
    Some(value)
}

/// Whether `s` writes a number from `low` to `high`.
pub fn within(s: &str, low: u64, high: u64) -> (r: bool)
    requires
        high <= 0xffff_ffff,
    ensures
        r == in_range(s@, low as nat, high as nat),
{
    match parse_up_to(s, high) {
        Some(n) => low <= n,
        None => false,
    }
}

/// The shortest decimal writing of `n`.
pub fn to_decimal(n: u64) -> (r: String)
    ensures
        r@ == decimal(n as nat),
    decreases n,
{
    let mut out = if n < 10 {
        String::new()
    } else {
        to_decimal(n / 10)
    };
    let last = ((n % 10) as u8 + 48) as char;
    out.push(last);
    assert(Seq::<char>::empty().push(last) =~= seq![last]);
    out
}

} // verus!
