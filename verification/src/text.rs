//! Fixed-point quantities written out as decimal text.

use vstd::prelude::*;
use vstd::string::*;
use crate::units::{UNITS_PER_DEGREE, UNITS_PER_METRE};

verus! {

/// The character of a decimal digit.
pub open spec fn digit_char(d: int) -> char {
    if d == 0 {
        '0'
    } else if d == 1 {
        '1'
    } else if d == 2 {
        '2'
    } else if d == 3 {
        '3'
    } else if d == 4 {
        '4'
    } else if d == 5 {
        '5'
    } else if d == 6 {
        '6'
    } else if d == 7 {
        '7'
    } else if d == 8 {
        '8'
    } else {
        '9'
    }
}

/// The decimal digits of `n`, most significant first, without leading zeros.
pub open spec fn decimal_digits(n: nat) -> Seq<char>
    decreases n,
{
    if n < 10 {
        seq![digit_char(n as int)]
    } else {
        decimal_digits(n / 10).push(digit_char((n % 10) as int))
    }
}

/// The last `width` decimal digits of `n`, most significant first, with
/// leading zeros where `n` has fewer.
pub open spec fn padded_digits(n: nat, width: nat) -> Seq<char>
    decreases width,
{
    if width == 0 {
        Seq::empty()
    } else {
        padded_digits(n / 10, (width - 1) as nat).push(digit_char((n % 10) as int))
    }
}

/// The last `width` decimal digits of `n` without the zeros at their end:
/// the digits of a fraction as they are written after the point. Empty where
/// all of them are zero.
pub open spec fn fraction_digits(n: nat, width: nat) -> Seq<char>
    decreases width,
{
    if width == 0 {
        Seq::empty()
    } else if n % 10 == 0 {
        fraction_digits(n / 10, (width - 1) as nat)
    } else {
        padded_digits(n, width)
    }
}

/// A fixed-point value as the shortest decimal text: a minus sign where it
/// is negative, the whole units, and, where the value is not whole, a point
/// and the digits of the fraction up to the last that is not zero. One whole
/// unit is `scale` of the value's units, and a fraction has `width` digits.
pub open spec fn fixed_text(value: int, scale: nat, width: nat) -> Seq<char> {
    let magnitude: nat = if value < 0 {
        (-value) as nat
    } else {
        value as nat
    };
    let sign: Seq<char> = if value < 0 {
        seq!['-']
    } else {
        Seq::empty()
    };
    let fraction = fraction_digits(magnitude % scale, width);
    let tail: Seq<char> = if fraction.len() == 0 {
        Seq::empty()
    } else {
        seq!['.'] + fraction
    };
    sign + decimal_digits(magnitude / scale) + tail
}

/// An angle in degrees, with up to seven decimals.
pub open spec fn degrees_text(angle: int) -> Seq<char> {
    fixed_text(angle, UNITS_PER_DEGREE as nat, 7)
}

/// A length in metres, with up to three decimals.
pub open spec fn metres_text(length: int) -> Seq<char> {
    fixed_text(length, UNITS_PER_METRE as nat, 3)
}

/// Padded digits are as many as the width.
pub proof fn lemma_padded_len(n: nat, width: nat)
    ensures
        padded_digits(n, width).len() == width,
    decreases width,
{
    if width > 0 {
        lemma_padded_len(n / 10, (width - 1) as nat);
    }
}

/// The text of one decimal digit.
fn digit_str(d: u64) -> (s: &'static str)
    requires
        d < 10,
    ensures
        s@ == seq![digit_char(d as int)],
{
    proof {
        reveal_strlit("0");
        reveal_strlit("1");
        reveal_strlit("2");
        reveal_strlit("3");
        reveal_strlit("4");
        reveal_strlit("5");
        reveal_strlit("6");
        reveal_strlit("7");
        reveal_strlit("8");
        reveal_strlit("9");
    }
    let s = if d == 0 {
        "0"
    } else if d == 1 {
        "1"
    } else if d == 2 {
        "2"
    } else if d == 3 {
        "3"
    } else if d == 4 {
        "4"
    } else if d == 5 {
        "5"
    } else if d == 6 {
        "6"
    } else if d == 7 {
        "7"
    } else if d == 8 {
        "8"
    } else {
        "9"
    };
    assert(s@ =~= seq![digit_char(d as int)]);
    s
}

/// Appends the decimal digits of `n` to `out`.
fn push_decimal(out: &mut String, n: u64)
    ensures
        final(out)@ == old(out)@ + decimal_digits(n as nat),
    decreases n,
{
    if n >= 10 {
        push_decimal(out, n / 10);
    }
    out.append(digit_str(n % 10));
    assert(out@ =~= old(out)@ + decimal_digits(n as nat));
}

/// Appends the last `width` decimal digits of `n` to `out`.
fn push_padded(out: &mut String, n: u64, width: usize)
    ensures
        final(out)@ == old(out)@ + padded_digits(n as nat, width as nat),
    decreases width,
{
    if width > 0 {
        push_padded(out, n / 10, width - 1);
        out.append(digit_str(n % 10));
    }
    assert(out@ =~= old(out)@ + padded_digits(n as nat, width as nat));
}

/// Appends to `out` a point and the digits of the fraction `n` up to the last
/// that is not zero, or nothing where all `width` digits are zero.
fn push_fraction(out: &mut String, n: u64, width: usize)
    ensures
        fraction_digits(n as nat, width as nat).len() == 0 ==> final(out)@ == old(out)@,
        fraction_digits(n as nat, width as nat).len() != 0 ==> final(out)@ == old(out)@
            + seq!['.'] + fraction_digits(n as nat, width as nat),
    decreases width,
{
    if width == 0 {
    } else if n % 10 == 0 {
        push_fraction(out, n / 10, width - 1);
    } else {
        proof {
            reveal_strlit(".");
            lemma_padded_len(n as nat, width as nat);
        }
        out.append(".");
        push_padded(out, n, width);
        assert(out@ =~= old(out)@ + seq!['.'] + fraction_digits(n as nat, width as nat));
    }
}

/// Writes `value` as `fixed_text` describes.
fn write_fixed(value: i64, scale: u64, width: usize) -> (text: String)
    requires
        scale > 0,
    ensures
        text@ == fixed_text(value as int, scale as nat, width as nat),
{
    let mut text = String::from_str("");
    proof {
        reveal_strlit("");
        reveal_strlit("-");
    }
    let magnitude: u64 = if value < 0 {
        text.append("-");
        (-(value as i128)) as u64
    } else {
        value as u64
    };
    push_decimal(&mut text, magnitude / scale);
    push_fraction(&mut text, magnitude % scale, width);
    assert(text@ =~= fixed_text(value as int, scale as nat, width as nat));
    text
}

/// Writes an angle in degrees, with up to seven decimals.
pub fn write_degrees(angle: i64) -> (text: String)
    ensures
        text@ == degrees_text(angle as int),
{
    write_fixed(angle, UNITS_PER_DEGREE as u64, 7)
}

/// Writes a length in metres, with up to three decimals.
pub fn write_metres(length: i64) -> (text: String)
    ensures
        text@ == metres_text(length as int),
{
    write_fixed(length, UNITS_PER_METRE as u64, 3)
}

} // verus!
