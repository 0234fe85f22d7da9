//! File sizes and the size expressions that rules are written with, such as
//! `5MB`, `1.5GB` or `128Kb`.

use crate::decimal::{
    all_digits, decimal_chars, decimal_text, decimal_value, digit_char, digit_of,
    lemma_decimal_value_bound, lemma_decimal_value_concat,
};
use crate::text::{
    append_chars, chars_between, chars_eq_str, chars_trim, from_chars, is_ascii_digit,
    leading, skip_leading, to_chars, trim, CharClass,
};
use vstd::arithmetic::div_mod::{
    lemma_div_denominator, lemma_fundamental_div_mod_converse_div, lemma_hoist_over_denominator,
};
use vstd::arithmetic::power::{lemma_pow_positive, pow};
use vstd::prelude::*;

verus! {

/// The largest number of bytes that one unit of a size expression stands for.
pub const LARGEST_UNIT: u64 = 0x100_0000_0000;

/// A size in bytes. As a bound of a range, 0 means that the range is open on
/// that side.
#[derive(Debug, Clone, Copy, PartialEq, Eq, Structural)]
pub struct FileSize {
    pub bytes: u64,
}

/// Why a text is not a size expression.
#[derive(Debug, Clone, Copy, PartialEq, Eq, Structural)]
pub enum SizeParseError {
    /// The text is not a number followed by an optional unit.
    InvalidFormat,
    /// The letters after the number name no unit.
    UnknownUnit,
}

/// What the unit of a size expression measures.
#[derive(Debug, Clone, Copy, PartialEq, Eq, Structural)]
pub enum SizeUnit {
    /// Single bits, eight to the byte.
    Bits,
    /// A whole number of bytes.
    Bytes(u64),
}

/// The unit that `name` stands for. Units of bytes end in `B`, units of bits
/// in `b`; no name at all means bytes.
pub open spec fn unit_named(name: Seq<char>) -> Option<SizeUnit> {
    if name.len() == 0 || name == "B"@ {
        Some(SizeUnit::Bytes(1))
    } else if name == "KB"@ {
        Some(SizeUnit::Bytes(0x400))
    } else if name == "MB"@ {
        Some(SizeUnit::Bytes(0x10_0000))
    } else if name == "GB"@ {
        Some(SizeUnit::Bytes(0x4000_0000))
    } else if name == "TB"@ {
        Some(SizeUnit::Bytes(0x100_0000_0000))
    } else if name == "b"@ {
        Some(SizeUnit::Bits)
    } else if name == "Kb"@ || name == "kb"@ {
        Some(SizeUnit::Bytes(0x80))
    } else if name == "Mb"@ || name == "mb"@ {
        Some(SizeUnit::Bytes(0x2_0000))
    } else if name == "Gb"@ || name == "gb"@ {
        Some(SizeUnit::Bytes(0x800_0000))
    } else if name == "Tb"@ || name == "tb"@ {
        Some(SizeUnit::Bytes(0x20_0000_0000))
    } else {
        None
    }
}

/// The parts of a size expression: the digits of its number with the decimal
/// point taken out, how many of them stood behind the point, and the name of
/// the unit.
pub struct SizeParts {
    pub digits: Seq<char>,
    pub fraction_len: nat,
    pub unit: Seq<char>,
}

/// Splits a text that has no whitespace around it into the parts of a size
/// expression: one or more digits; then, if a point follows, the point and
/// one or more digits; then any whitespace; then letters up to the end.
pub open spec fn split_size(text: Seq<char>) -> Option<SizeParts> {
    let whole_len = leading(text, CharClass::Digit);
    let rest = text.skip(whole_len as int);
    let has_point = rest.len() > 0 && rest[0] == '.';
    let fraction_len = if has_point {
        leading(rest.skip(1), CharClass::Digit)
    } else {
        0
    };
    let fraction = if has_point {
        rest.subrange(1, 1 + fraction_len as int)
    } else {
        Seq::<char>::empty()
    };
    let tail = if has_point {
        rest.skip(1 + fraction_len as int)
    } else {
        rest
    };
    let unit = tail.skip(leading(tail, CharClass::Whitespace) as int);
    if whole_len == 0 || (has_point && fraction_len == 0) || leading(unit, CharClass::Letter)
        != unit.len() {
        None
    } else {
        Some(SizeParts { digits: text.take(whole_len as int) + fraction, fraction_len, unit })
    }
}

/// The whole number of bytes in a number of units, rounded down. The number
/// is `digits` read in base ten and divided by ten for each of the
/// `fraction_len` digits behind the point.
pub open spec fn size_in_bytes(digits: Seq<char>, fraction_len: nat, unit: SizeUnit) -> int {
    match unit {
        SizeUnit::Bits => decimal_value(digits) as int / (pow(10, fraction_len) * 8),
        SizeUnit::Bytes(per_unit) => (decimal_value(digits) * per_unit) as int / pow(
            10,
            fraction_len,
        ),
    }
}

/// `n` as a byte count, where anything too large becomes the largest count.
pub open spec fn saturated(n: int) -> u64 {
    if n >= u64::MAX {
        u64::MAX
    } else if n < 0 {
        0
    } else {
        n as u64
    }
}

/// The size that `text` states, or why it states none. Whitespace around the
/// expression is ignored.
pub open spec fn parse_size(text: Seq<char>) -> Result<FileSize, SizeParseError> {
    match split_size(trim(text)) {
        None => Err(SizeParseError::InvalidFormat),
        Some(parts) => match unit_named(parts.unit) {
            None => Err(SizeParseError::UnknownUnit),
            Some(unit) => Ok(
                FileSize { bytes: saturated(size_in_bytes(parts.digits, parts.fraction_len, unit)) },
            ),
        },
    }
}

/// Computes `unit_named`.
fn unit_from_name(name: &Vec<char>) -> (unit: Option<SizeUnit>)
    ensures
        unit == unit_named(name@),
        unit matches Some(SizeUnit::Bytes(per_unit)) ==> 1 <= per_unit <= LARGEST_UNIT,
{
    if name.len() == 0 || chars_eq_str(name, "B") {
        Some(SizeUnit::Bytes(1))
    } else if chars_eq_str(name, "KB") {
        Some(SizeUnit::Bytes(0x400))
    } else if chars_eq_str(name, "MB") {
        Some(SizeUnit::Bytes(0x10_0000))
    } else if chars_eq_str(name, "GB") {
        Some(SizeUnit::Bytes(0x4000_0000))
    } else if chars_eq_str(name, "TB") {
        Some(SizeUnit::Bytes(0x100_0000_0000))
    } else if chars_eq_str(name, "b") {
        Some(SizeUnit::Bits)
    } else if chars_eq_str(name, "Kb") || chars_eq_str(name, "kb") {
        Some(SizeUnit::Bytes(0x80))
    } else if chars_eq_str(name, "Mb") || chars_eq_str(name, "mb") {
        Some(SizeUnit::Bytes(0x2_0000))
    } else if chars_eq_str(name, "Gb") || chars_eq_str(name, "gb") {
        Some(SizeUnit::Bytes(0x800_0000))
    } else if chars_eq_str(name, "Tb") || chars_eq_str(name, "tb") {
        Some(SizeUnit::Bytes(0x20_0000_0000))
    } else {
        None
    }
}

/// The number that the digits of `text` between `from` and `to` spell, or
/// `None` if it is too large for the machine.
fn digits_value(text: &Vec<char>, from: usize, to: usize) -> (value: Option<u128>)
    requires
        from <= to <= text.len(),
        all_digits(text@.subrange(from as int, to as int)),
    ensures
        match value {
            Some(v) => v == decimal_value(text@.subrange(from as int, to as int)),
            None => decimal_value(text@.subrange(from as int, to as int)) > u128::MAX,
        },
{
    let ghost digits = text@.subrange(from as int, to as int);
    let mut value: u128 = 0;
    let mut i: usize = from;
    assert(text@.subrange(from as int, from as int) == Seq::<char>::empty());
    while i < to
        invariant
            from <= i <= to,
            to <= text.len(),
            digits == text@.subrange(from as int, to as int),
            all_digits(digits),
            value == decimal_value(text@.subrange(from as int, i as int)),
        decreases to - i,
    {
        let c = text[i];
        assert(c == digits[i - from]);
        let d: u128 = (c as u32 - 0x30) as u128;
        let ghost next = text@.subrange(from as int, i + 1);
        assert(next.drop_last() == text@.subrange(from as int, i as int));
        assert(next.last() == c);
        if value > (u128::MAX - d) / 10 {
            proof {
                let rest = text@.subrange(i + 1, to as int);
                assert(digits == next + rest);
                lemma_decimal_value_concat(next, rest);
                lemma_pow_positive(10, rest.len());
                assert(decimal_value(next) * pow(10, rest.len()) >= decimal_value(next))
                    by (nonlinear_arith)
                    requires
                        pow(10, rest.len()) >= 1,
                        decimal_value(next) >= 0,
                ;
            }
            return None;
        }
        value = value * 10 + d;
        i += 1;
    }
    Some(value)
}

/// The whole part of `per_unit` times the fraction that the digits of `text`
/// between `from` and `to` spell behind a decimal point.
fn scaled_fraction(text: &Vec<char>, from: usize, to: usize, per_unit: u64) -> (scaled: u64)
    requires
        from <= to <= text.len(),
        all_digits(text@.subrange(from as int, to as int)),
        1 <= per_unit <= LARGEST_UNIT,
    ensures
        scaled == (decimal_value(text@.subrange(from as int, to as int)) * per_unit) / pow(
            10,
            (to - from) as nat,
        ),
        scaled < per_unit,
{
    let ghost digits = text@.subrange(from as int, to as int);
    let mut scaled: u64 = 0;
    let mut i: usize = to;
    proof {
        reveal(pow);
        assert(text@.subrange(to as int, to as int) == Seq::<char>::empty());
        assert(decimal_value(Seq::<char>::empty()) == 0);
        assert(pow(10, 0) == 1);
        assert((0 * per_unit) / 1 == 0);
    }
    while i > from
        invariant
            from <= i <= to,
            to <= text.len(),
            digits == text@.subrange(from as int, to as int),
            all_digits(digits),
            1 <= per_unit <= LARGEST_UNIT,
            scaled == (decimal_value(text@.subrange(i as int, to as int)) * per_unit) / pow(
                10,
                (to - i) as nat,
            ),
            scaled < per_unit,
        decreases i - from,
    {
        let c = text[i - 1];
        assert(c == digits[i - 1 - from]);
        let d: u64 = (c as u32 - 0x30) as u64;
        assert(d * per_unit <= 9 * LARGEST_UNIT) by (nonlinear_arith)
            requires
                d <= 9,
                per_unit <= LARGEST_UNIT,
        ;
        assert(d * per_unit + scaled < 10 * per_unit) by (nonlinear_arith)
            requires
                d <= 9,
                scaled < per_unit,
        ;
        let next: u64 = (d * per_unit + scaled) / 10;
        proof {
            let tail = text@.subrange(i as int, to as int);
            let longer = text@.subrange(i - 1, to as int);
            let p = pow(10, (to - i) as nat);
            let s = decimal_value(tail) as int;
            let m = per_unit as int;
            assert(longer == seq![c] + tail);
            lemma_decimal_value_concat(seq![c], tail);
            assert(seq![c].drop_last() == Seq::<char>::empty());
            assert(decimal_value(Seq::<char>::empty()) == 0);
            assert(seq![c].last() == c);
            assert(is_ascii_digit(c));
            assert(decimal_value(seq![c]) == d);
            lemma_pow_positive(10, (to - i) as nat);
            reveal(pow);
            assert(pow(10, (to - i + 1) as nat) == 10 * p);
            assert(decimal_value(longer) * m == s * m + (d * m) * p) by (nonlinear_arith)
                requires
                    decimal_value(longer) == d * p + s,
            ;
            lemma_hoist_over_denominator(s * m, d * m, p as nat);
            assert((s * m) / p + d * m == (decimal_value(longer) * m) / p);
            assert(decimal_value(longer) * m >= 0) by (nonlinear_arith)
                requires
                    decimal_value(longer) >= 0,
                    m >= 0,
            ;
            lemma_div_denominator(decimal_value(longer) * m, p, 10);
            assert(p * 10 == 10 * p);
        }
        scaled = next;
        i -= 1;
    }
    scaled
}

/// Where the parts of a size expression stand in its text.
struct SizeLayout {
    /// The end of the digits before the point.
    whole_end: usize,
    /// The start of the digits behind the point.
    fraction_start: usize,
    /// The end of the digits behind the point.
    fraction_end: usize,
    /// The start of the unit's name, which runs to the end of the text.
    unit_start: usize,
}

impl SizeLayout {
    /// The layout lies within `text` and marks off the parts that
    /// `split_size` finds in it.
    spec fn marks(self, text: Seq<char>, parts: SizeParts) -> bool {
        &&& self.whole_end <= self.fraction_start <= self.fraction_end <= self.unit_start
            <= text.len()
        &&& all_digits(text.subrange(0, self.whole_end as int))
        &&& all_digits(text.subrange(self.fraction_start as int, self.fraction_end as int))
        &&& parts.digits == text.subrange(0, self.whole_end as int) + text.subrange(
            self.fraction_start as int,
            self.fraction_end as int,
        )
        &&& parts.fraction_len == self.fraction_end - self.fraction_start
        &&& parts.unit == text.skip(self.unit_start as int)
    }
}

/// Computes `split_size`, as places in `text`.
fn layout_of(text: &Vec<char>) -> (layout: Option<SizeLayout>)
    ensures
        match split_size(text@) {
            Some(parts) => layout matches Some(found) && found.marks(text@, parts),
            None => layout is None,
        },
{
    assert(text@.skip(0) == text@);
    let whole_end = skip_leading(text, 0, CharClass::Digit);
    if whole_end == 0 {
        return None;
    }
    let ghost rest = text@.skip(whole_end as int);
    let has_point = whole_end < text.len() && text[whole_end] == '.';
    let fraction_start: usize = if has_point {
        whole_end + 1
    } else {
        whole_end
    };
    let fraction_end: usize = if has_point {
        assert(rest.skip(1) == text@.skip(fraction_start as int));
        skip_leading(text, fraction_start, CharClass::Digit)
    } else {
        whole_end
    };
    if has_point && fraction_end == fraction_start {
        return None;
    }
    let ghost fraction = text@.subrange(fraction_start as int, fraction_end as int);
    let ghost tail = text@.skip(fraction_end as int);
    proof {
        if has_point {
            assert(rest.skip(1 + (fraction_end - fraction_start)) == tail);
            assert(rest.subrange(1, 1 + (fraction_end - fraction_start)) == fraction);
        } else {
            assert(fraction == Seq::<char>::empty());
        }
    }
    let unit_start = skip_leading(text, fraction_end, CharClass::Whitespace);
    assert(tail.skip(unit_start - fraction_end) == text@.skip(unit_start as int));
    let unit_end = skip_leading(text, unit_start, CharClass::Letter);
    if unit_end != text.len() {
        return None;
    }
    assert(text@.take(whole_end as int) == text@.subrange(0, whole_end as int));
    Some(SizeLayout { whole_end, fraction_start, fraction_end, unit_start })
}

/// The byte count of a number of units, from the places of its digits in
/// `text`: the whole part ends at `whole_end`, the digits behind the point
/// stand between `fraction_start` and `fraction_end`.
fn bytes_of(
    text: &Vec<char>,
    whole_end: usize,
    fraction_start: usize,
    fraction_end: usize,
    unit: SizeUnit,
) -> (bytes: u64)
    requires
        whole_end <= fraction_start <= fraction_end <= text.len(),
        all_digits(text@.subrange(0, whole_end as int)),
        all_digits(text@.subrange(fraction_start as int, fraction_end as int)),
        unit matches SizeUnit::Bytes(per_unit) ==> 1 <= per_unit <= LARGEST_UNIT,
    ensures
        bytes == saturated(
            size_in_bytes(
                text@.subrange(0, whole_end as int) + text@.subrange(
                    fraction_start as int,
                    fraction_end as int,
                ),
                (fraction_end - fraction_start) as nat,
                unit,
            ),
        ),
{
    let ghost whole = text@.subrange(0, whole_end as int);
    let ghost fraction = text@.subrange(fraction_start as int, fraction_end as int);
    let ghost p = pow(10, fraction.len());
    let ghost all = decimal_value(whole + fraction) as int;
    let ghost i = decimal_value(whole) as int;
    let ghost f = decimal_value(fraction) as int;
    proof {
        lemma_decimal_value_concat(whole, fraction);
        lemma_decimal_value_bound(fraction);
        lemma_pow_positive(10, fraction.len());
    }
    let whole_value = digits_value(text, 0, whole_end);
    match unit {
        SizeUnit::Bits => {
            proof {
                lemma_fundamental_div_mod_converse_div(all, p, i, f);
                lemma_div_denominator(all, p, 8);
            }
            match whole_value {
                None => u64::MAX,
                Some(v) => {
                    let eighth: u128 = v / 8;
                    if eighth >= u64::MAX as u128 {
                        u64::MAX
                    } else {
                        eighth as u64
                    }
                },
            }
        },
        SizeUnit::Bytes(per_unit) => {
            let part = scaled_fraction(text, fraction_start, fraction_end, per_unit);
            proof {
                let m = per_unit as int;
                assert(all * m == f * m + (i * m) * p) by (nonlinear_arith)
                    requires
                        all == i * p + f,
                ;
                lemma_hoist_over_denominator(f * m, i * m, p as nat);
                assert((all * m) / p == part + i * m);
                assert(i * m >= i) by (nonlinear_arith)
                    requires
                        i >= 0,
                        m >= 1,
                ;
            }
            match whole_value {
                None => u64::MAX,
                Some(v) => {
                    if v > u64::MAX as u128 {
                        u64::MAX
                    } else {
                        assert(v * per_unit <= u64::MAX * LARGEST_UNIT) by (nonlinear_arith)
                            requires
                                v <= u64::MAX,
                                per_unit <= LARGEST_UNIT,
                        ;
                        let total: u128 = v * (per_unit as u128) + part as u128;
                        if total >= u64::MAX as u128 {
                            u64::MAX
                        } else {
                            total as u64
                        }
                    }
                },
            }
        },
    }
}

/// `numerator / denominator` rounded to the nearest whole number, a tie
/// going to the even neighbour.
pub open spec fn round_half_even(numerator: nat, denominator: nat) -> nat {
    let quotient = numerator / denominator;
    let rest = numerator % denominator;
    if 2 * rest > denominator || (2 * rest == denominator && quotient % 2 == 1) {
        quotient + 1
    } else {
        quotient
    }
}

/// `bytes / per_unit` written with two digits behind the point.
pub open spec fn two_decimals(bytes: nat, per_unit: nat) -> Seq<char> {
    let hundredths = round_half_even(bytes * 100, per_unit);
    decimal_text(hundredths / 100) + seq![
        '.',
        digit_char(hundredths / 10 % 10),
        digit_char(hundredths % 10),
    ]
}

/// A size for people to read: the largest unit that the size reaches, with
/// two decimals; plain bytes below 1 KB; the infinity sign for 0, which as a
/// bound means none.
pub open spec fn format_size(bytes: u64) -> Seq<char> {
    if bytes == 0 {
        "\u{221e}"@
    } else if bytes >= 0x100_0000_0000 {
        two_decimals(bytes as nat, 0x100_0000_0000) + "TB"@
    } else if bytes >= 0x4000_0000 {
        two_decimals(bytes as nat, 0x4000_0000) + "GB"@
    } else if bytes >= 0x10_0000 {
        two_decimals(bytes as nat, 0x10_0000) + "MB"@
    } else if bytes >= 0x400 {
        two_decimals(bytes as nat, 0x400) + "KB"@
    } else {
        decimal_text(bytes as nat) + "B"@
    }
}

/// Computes `two_decimals` followed by the unit's name.
fn in_unit(bytes: u64, per_unit: u64, name: &str) -> (text: Vec<char>)
    requires
        per_unit >= 1,
    ensures
        text@ == two_decimals(bytes as nat, per_unit as nat) + name@,
{
    let scaled: u128 = bytes as u128 * 100;
    let quotient: u128 = scaled / (per_unit as u128);
    let rest: u128 = scaled % (per_unit as u128);
    let round_up = 2 * rest > per_unit as u128 || (2 * rest == per_unit as u128 && quotient % 2
        == 1);
    let hundredths: u128 = if round_up {
        quotient + 1
    } else {
        quotient
    };
    assert(hundredths == round_half_even(bytes as nat * 100, per_unit as nat));
    assert(hundredths / 100 <= u64::MAX);
    let mut text = decimal_chars((hundredths / 100) as u64);
    text.push('.');
    text.push(digit_of((hundredths / 10 % 10) as u8));
    text.push(digit_of((hundredths % 10) as u8));
    assert(text@ == two_decimals(bytes as nat, per_unit as nat));
    let unit = to_chars(name);
    append_chars(&mut text, &unit);
    text
}

impl FileSize {
    /// Whether this size lies between `min` and `max`, a bound of 0 being no
    /// bound.
    pub open spec fn in_range(self, min: FileSize, max: FileSize) -> bool {
        (min.bytes == 0 || self.bytes >= min.bytes) && (max.bytes == 0 || self.bytes
            <= max.bytes)
    }

    /// Reads a size expression such as `100`, `5MB`, `1.5 GB` or `128Kb`.
    pub fn parse(size_str: &str) -> (r: Result<FileSize, SizeParseError>)
        ensures
            r == parse_size(size_str@),
    {
        let raw = to_chars(size_str);
        let text = chars_trim(&raw);
        let layout = match layout_of(&text) {
            Some(layout) => layout,
            None => {
                return Err(SizeParseError::InvalidFormat);
            },
        };
        let name = chars_between(&text, layout.unit_start, text.len());
        match unit_from_name(&name) {
            None => Err(SizeParseError::UnknownUnit),
            Some(unit) => Ok(
                FileSize {
                    bytes: bytes_of(
                        &text,
                        layout.whole_end,
                        layout.fraction_start,
                        layout.fraction_end,
                        unit,
                    ),
                },
            ),
        }
    }

    /// Whether this size lies between `min` and `max`, both included, where a
    /// bound of 0 is no bound.
    pub fn is_in_range(&self, min: FileSize, max: FileSize) -> (r: bool)
        ensures
            r == self.in_range(min, max),
    {
        let min_ok = min.bytes == 0 || self.bytes >= min.bytes;
        let max_ok = max.bytes == 0 || self.bytes <= max.bytes;
        min_ok && max_ok
    }

    /// The size as people read it, such as `1.50MB`, `512B` or the infinity
    /// sign for 0.
    pub fn format(&self) -> (text: String)
        ensures
            text@ == format_size(self.bytes),
    {
        let chars = if self.bytes == 0 {
            to_chars("\u{221e}")
        } else if self.bytes >= 0x100_0000_0000 {
            in_unit(self.bytes, 0x100_0000_0000, "TB")
        } else if self.bytes >= 0x4000_0000 {
            in_unit(self.bytes, 0x4000_0000, "GB")
        } else if self.bytes >= 0x10_0000 {
            in_unit(self.bytes, 0x10_0000, "MB")
        } else if self.bytes >= 0x400 {
            in_unit(self.bytes, 0x400, "KB")
        } else {
            let mut digits = decimal_chars(self.bytes);
            let unit = to_chars("B");
            append_chars(&mut digits, &unit);
            digits
        };
        from_chars(&chars)
    }
}

} // verus!
