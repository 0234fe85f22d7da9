//! Decimal digits: the number that a run of digits stands for, and the digits
//! that stand for a number.

use crate::text::is_ascii_digit;
use vstd::arithmetic::power::pow;
use vstd::prelude::*;

verus! {

/// The value of the digit `c`; 0 for any other character.
pub open spec fn digit_value(c: char) -> nat {
    if is_ascii_digit(c) {
        (c as u32 - 0x30) as nat
    } else {
        0
    }
}

/// The digit that stands for `d`, for `d` below 10.
pub open spec fn digit_char(d: nat) -> char
    recommends
        d < 10,
{
    ((d + 0x30) as u8) as char
}

/// The number that the digits of `digits` spell in base ten; 0 for no digits.
pub open spec fn decimal_value(digits: Seq<char>) -> nat
    decreases digits.len(),
{
    if digits.len() == 0 {
        0
    } else {
        decimal_value(digits.drop_last()) * 10 + digit_value(digits.last())
    }
}

/// The digits of `n` in base ten, without leading zeros; `0` for 0.
pub open spec fn decimal_text(n: nat) -> Seq<char>
    decreases n,
{
    if n < 10 {
        seq![digit_char(n)]
    } else {
        decimal_text(n / 10).push(digit_char(n % 10))
    }
}

/// `n` written with two digits, for `n` below 100.
pub open spec fn two_digits(n: nat) -> Seq<char>
    recommends
        n < 100,
{
    seq![digit_char(n / 10), digit_char(n % 10)]
}

/// `n` written with four digits, for `n` below 10000.
pub open spec fn four_digits(n: nat) -> Seq<char>
    recommends
        n < 10000,
{
    seq![
        digit_char(n / 1000),
        digit_char(n / 100 % 10),
        digit_char(n / 10 % 10),
        digit_char(n % 10),
    ]
}

/// Whether every character of `text` is a digit.
pub open spec fn all_digits(text: Seq<char>) -> bool {
    forall|i: int| 0 <= i < text.len() ==> is_ascii_digit(#[trigger] text[i])
}

/// Digits written one after the other: the value of the first run moves
/// left by as many places as the second run has digits.
pub proof fn lemma_decimal_value_concat(a: Seq<char>, b: Seq<char>)
    ensures
        decimal_value(a + b) == decimal_value(a) * pow(10, b.len()) + decimal_value(b),
    decreases b.len(),
{
    reveal(pow);
    if b.len() == 0 {
        assert(a + b == a);
    } else {
        let front = b.drop_last();
        assert((a + b).drop_last() == a + front);
        assert((a + b).last() == b.last());
        lemma_decimal_value_concat(a, front);
        assert(pow(10, b.len()) == 10 * pow(10, front.len()));
        assert(decimal_value(a) * (10 * pow(10, front.len())) == (decimal_value(a) * pow(
            10,
            front.len(),
        )) * 10) by (nonlinear_arith);
    }
}

/// A run of `n` digits spells a number below the `n`-th power of ten.
pub proof fn lemma_decimal_value_bound(digits: Seq<char>)
    ensures
        decimal_value(digits) < pow(10, digits.len()),
    decreases digits.len(),
{
    reveal(pow);
    if digits.len() > 0 {
        lemma_decimal_value_bound(digits.drop_last());
        assert(pow(10, digits.len()) == 10 * pow(10, digits.drop_last().len()));
    }
}

/// The digits of a number spell that number.
pub proof fn lemma_decimal_text_value(n: nat)
    ensures
        decimal_value(decimal_text(n)) == n,
        decimal_text(n).len() >= 1,
    decreases n,
{
    if n < 10 {
        let one = seq![digit_char(n)];
        assert(one.drop_last() == Seq::<char>::empty());
        assert(decimal_value(one.drop_last()) == 0);
    } else {
        lemma_decimal_text_value(n / 10);
        let text = decimal_text(n);
        assert(text.drop_last() == decimal_text(n / 10));
        assert(text.last() == digit_char(n % 10));
    }
}

/// The digit for `d`.
pub(crate) fn digit_of(d: u8) -> (c: char)
    requires
        d < 10,
    ensures
        c == digit_char(d as nat),
        is_ascii_digit(c),
        digit_value(c) == d,
{
    (d + 0x30) as char
}

/// The digits of `n` in base ten.
pub fn decimal_chars(n: u64) -> (digits: Vec<char>)
    ensures
        digits@ == decimal_text(n as nat),
    decreases n,
{
    if n < 10 {
        let mut digits: Vec<char> = Vec::new();
        digits.push(digit_of(n as u8));
        assert(digits@ == seq![digit_char(n as nat)]);
        digits
    } else {
        let mut digits = decimal_chars(n / 10);
        digits.push(digit_of((n % 10) as u8));
        digits
    }
}

} // verus!
