//! Unsigned numbers written in decimal digits.

use vstd::prelude::*;
use crate::chars::to_chars;

verus! {

/// Whether `c` is one of the ten decimal digits `0` to `9`.
pub open spec fn is_digit(c: char) -> bool {
    '0' <= c && c <= '9'
}

/// The number that the decimal digit `c` stands for.
pub open spec fn digit_value(c: char) -> nat {
    (c as int - '0' as int) as nat
}

/// The decimal digit that stands for `d`, a number below ten.
pub open spec fn digit_char(d: nat) -> char {
    if d == 0 {
        '0'
    } else if d == 1 {
        '1'
    } else if d == 2 {
        '2'
    } else if d == 3 {
        '3'
    } else if d == 4 {
        '4'
    } else if d == 5 {
        '5'
    } else if d == 6 {
        '6'
    } else if d == 7 {
        '7'
    } else if d == 8 {
        '8'
    } else {
        '9'
    }
}

/// Whether `s` holds decimal digits only.
pub open spec fn all_digits(s: Seq<char>) -> bool {
    forall|i: int| 0 <= i < s.len() ==> is_digit(#[trigger] s[i])
}

/// The number that a run of decimal digits denotes, most significant digit
/// first. The empty run denotes zero.
pub open spec fn decimal_value(digits: Seq<char>) -> nat
    decreases digits.len(),
{
    if digits.len() == 0 {
        0
    } else {
        10 * decimal_value(digits.drop_last()) + digit_value(digits.last())
    }
}

/// `text` without the plus sign at its front, where it has one.
pub open spec fn without_plus(text: Seq<char>) -> Seq<char> {
    if text.len() > 0 && text[0] == '+' {
        text.drop_first()
    } else {
        text
    }
}

/// The number written in `text`, where `text` is a number: an optional plus
/// sign followed by one or more decimal digits whose value is at most
/// `u32::MAX`. Zeros in front do not count. Any other text, the empty one
/// and one with blanks included, is no number.
pub open spec fn parse_unsigned(text: Seq<char>) -> Option<nat> {
    let digits = without_plus(text);
    if digits.len() > 0 && all_digits(digits) && decimal_value(digits) <= u32::MAX {
        Some(decimal_value(digits))
    } else {
        None
    }
}

/// The decimal digits of `n`, most significant first, without a sign and
/// without zeros in front; zero is the single digit `0`.
pub open spec fn decimal(n: nat) -> Seq<char>
    decreases n,
{
    if n < 10 {
        seq![digit_char(n)]
    } else {
        decimal(n / 10).push(digit_char(n % 10))
    }
}

/// A run of digits denotes at least as much as any part of it that starts
/// at its front.
pub proof fn lemma_decimal_value_grows(digits: Seq<char>, k: int)
    requires
        0 <= k <= digits.len(),
    ensures
        decimal_value(digits.take(k)) <= decimal_value(digits),
    decreases digits.len(),
{
    if k == digits.len() {
        assert(digits.take(k) == digits);
    } else {
        lemma_decimal_value_grows(digits.drop_last(), k);
        assert(digits.drop_last().take(k) == digits.take(k));
    }
}

/// The digits of a number are digits, there is at least one of them, and
/// they denote that number.
pub proof fn lemma_decimal(n: nat)
    ensures
        decimal(n).len() > 0,
        all_digits(decimal(n)),
        decimal_value(decimal(n)) == n,
    decreases n,
{
    if n < 10 {
        assert(decimal(n).drop_last() == Seq::<char>::empty());
        assert(decimal_value(decimal(n).drop_last()) == 0);
    } else {
        lemma_decimal(n / 10);
        assert(decimal(n).drop_last() == decimal(n / 10));
    }
}

/// Reading the digits of a number that fits in 32 bits gives back the
/// number.
pub proof fn lemma_parse_decimal(n: nat)
    requires
        n <= u32::MAX,
    ensures
        parse_unsigned(decimal(n)) == Some(n),
{
    lemma_decimal(n);
    assert(is_digit(decimal(n)[0]));
}

/// The decimal digit for a number below ten.
fn digit_of(d: u32) -> (c: char)
    requires
        d < 10,
    ensures
        c == digit_char(d as nat),
{
    match d {
        0 => '0',
        1 => '1',
        2 => '2',
        3 => '3',
        4 => '4',
        5 => '5',
        6 => '6',
        7 => '7',
        8 => '8',
        _ => '9',
    }
}

/// Appends the decimal digits of `n` to `out`.
pub fn push_decimal(out: &mut String, n: u32)
    ensures
        final(out)@ == old(out)@ + decimal(n as nat),
    decreases n,
{
    if n >= 10 {
        push_decimal(out, n / 10);
    }
    out.push(digit_of(n % 10));
}

/// Reads the number written in `text`, where it is one.
pub fn parse_chars(text: &[char]) -> (r: Option<u32>)
    ensures
        r matches Some(n) ==> parse_unsigned(text@) == Some(n as nat),
        r is None ==> parse_unsigned(text@) is None,
{
    let start: usize = if text.len() > 0 && text[0] == '+' {
        1
    } else {
        0
    };
    let digits = &text[start..text.len()];
    assert(digits@ == without_plus(text@));
    if digits.len() == 0 {
        return None;
    }
    let mut value: u32 = 0;
    let mut i: usize = 0;
    while i < digits.len()
        invariant
            i <= digits.len(),
            digits@ == without_plus(text@),
            all_digits(digits@.take(i as int)),
            value == decimal_value(digits@.take(i as int)),
        decreases digits.len() - i,
    {
        let c = digits[i];
        if !('0' <= c && c <= '9') {
            assert(!is_digit(digits@[i as int]));
            return None;
        }
        let d = c as u32 - '0' as u32;
        proof {
            let next = digits@.take(i + 1);
            assert(next.drop_last() == digits@.take(i as int));
            assert(next.last() == c);
            assert(decimal_value(next) == 10 * value + d);
            lemma_decimal_value_grows(digits@, i + 1);
        }
        let scaled = match value.checked_mul(10) {
            Some(v) => v,
            None => { return None; },
        };
        value = match scaled.checked_add(d) {
            Some(v) => v,
            None => { return None; },
        };
        i += 1;
    }
    assert(digits@.take(i as int) == digits@);
    Some(value)
}

/// Reads the number written in `text`, where it is one: an optional plus
/// sign, then decimal digits, with a value of at most `u32::MAX`.
pub fn parse_number(text: &str) -> (r: Option<u32>)
    ensures
        r matches Some(n) ==> parse_unsigned(text@) == Some(n as nat),
        r is None ==> parse_unsigned(text@) is None,
{
    let chars = to_chars(text);
    parse_chars(chars.as_slice())
}

} // verus!
