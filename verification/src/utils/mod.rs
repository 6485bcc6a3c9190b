//! Helpers shared by the explorer: the entry model and the formatting of
//! sizes.

pub mod dir;
pub mod naming;
pub mod order;
pub mod sort;

use vstd::prelude::*;
use vstd::string::StringExecFns;

verus! {

/// The number of bytes in a kilobyte.
pub const KILOBYTE: u64 = 1024;

/// The number of bytes in a megabyte.
pub const MEGABYTE: u64 = 1048576;

/// The number of bytes in a gigabyte.
pub const GIGABYTE: u64 = 1073741824;

/// The number of bytes in a terabyte.
pub const TERABYTE: u64 = 1099511627776;

/// The first number that a double-precision float cannot tell from its
/// neighbours: two to the power of 53.
pub const DOUBLE_EXACT_BELOW: u64 = 9007199254740992;

/// The character of the decimal digit `digit`.
pub open spec fn digit_char(digit: nat) -> char {
    if digit == 0 {
        '0'
    } else if digit == 1 {
        '1'
    } else if digit == 2 {
        '2'
    } else if digit == 3 {
        '3'
    } else if digit == 4 {
        '4'
    } else if digit == 5 {
        '5'
    } else if digit == 6 {
        '6'
    } else if digit == 7 {
        '7'
    } else if digit == 8 {
        '8'
    } else {
        '9'
    }
}

/// The decimal digits of `n` as text, without leading zeros.
pub open spec fn decimal_text(n: nat) -> Seq<char>
    decreases n,
{
    if n < 10 {
        seq![digit_char(n)]
    } else {
        decimal_text(n / 10).push(digit_char(n % 10))
    }
}

/// The quotient of `n` by `unit`, rounded to the nearest whole number,
/// and to the even one of two that are equally near.
pub open spec fn round_half_even(n: nat, unit: nat) -> nat {
    let quotient = n / unit;
    let rest = n % unit;
    if 2 * rest > unit || (2 * rest == unit && quotient % 2 == 1) {
        quotient + 1
    } else {
        quotient
    }
}

/// The distance between neighbouring double-precision floats at `n`, as
/// far as it exceeds 1.
pub open spec fn double_spacing(n: nat) -> nat
    decreases n,
{
    if n < DOUBLE_EXACT_BELOW {
        1
    } else {
        2 * double_spacing(n / 2)
    }
}

/// The double-precision float nearest to `n`, as a whole number.
pub open spec fn nearest_double(n: nat) -> nat {
    round_half_even(n, double_spacing(n)) * double_spacing(n)
}

/// The text of a count of bytes in the unit `unit` with two decimal
/// places: the count is taken as the nearest double-precision float and
/// the quotient is rounded to hundredths.
pub open spec fn two_places(bytes: nat, unit: nat) -> Seq<char> {
    let hundredths = round_half_even(nearest_double(bytes) * 100, unit);
    decimal_text(hundredths / 100).push('.').push(digit_char((hundredths / 10) % 10)).push(
        digit_char(hundredths % 10),
    )
}

/// The text that shows a count of bytes to a reader: in bytes below a
/// kilobyte, in whole kilobytes below a megabyte, and above that in
/// megabytes, gigabytes or terabytes with two decimal places.
pub open spec fn size_text(bytes: u64) -> Seq<char> {
    if bytes >= TERABYTE {
        two_places(bytes as nat, TERABYTE as nat) + " TB"@
    } else if bytes >= GIGABYTE {
        two_places(bytes as nat, GIGABYTE as nat) + " GB"@
    } else if bytes >= MEGABYTE {
        two_places(bytes as nat, MEGABYTE as nat) + " MB"@
    } else if bytes >= KILOBYTE {
        decimal_text(round_half_even(bytes as nat, KILOBYTE as nat)) + " kB"@
    } else {
        decimal_text(bytes as nat) + " b"@
    }
}

/// Appends the decimal digit `digit` to `text`.
fn push_digit(text: &mut String, digit: u128)
    requires
        digit < 10,
    ensures
        final(text)@ == old(text)@.push(digit_char(digit as nat)),
{
    proof {
        reveal_strlit("0");
        reveal_strlit("1");
        reveal_strlit("2");
        reveal_strlit("3");
        reveal_strlit("4");
        reveal_strlit("5");
        reveal_strlit("6");
        reveal_strlit("7");
        reveal_strlit("8");
        reveal_strlit("9");
    }
    let ghost before = text@;
    let literal = if digit == 0 {
        "0"
    } else if digit == 1 {
        "1"
    } else if digit == 2 {
        "2"
    } else if digit == 3 {
        "3"
    } else if digit == 4 {
        "4"
    } else if digit == 5 {
        "5"
    } else if digit == 6 {
        "6"
    } else if digit == 7 {
        "7"
    } else if digit == 8 {
        "8"
    } else {
        "9"
    };
    assert(literal@ =~= seq![digit_char(digit as nat)]);
    text.append(literal);
    assert(text@ =~= before.push(digit_char(digit as nat)));
}

/// Appends the decimal digits of `n` to `text`.
fn push_decimal(text: &mut String, n: u128)
    ensures
        final(text)@ == old(text)@ + decimal_text(n as nat),
    decreases n,
{
    let ghost before = text@;
    if n < 10 {
        push_digit(text, n);
        assert(text@ =~= before + decimal_text(n as nat));
    } else {
        push_decimal(text, n / 10);
        push_digit(text, n % 10);
        assert(text@ =~= before + decimal_text(n as nat));
    }
}

/// The quotient of `n` by `unit`, rounded to the nearest whole number,
/// and to the even one of two that are equally near.
fn rounded_quotient(n: u128, unit: u128) -> (rounded: u128)
    requires
        unit > 0,
        2 * unit <= u128::MAX,
    ensures
        rounded == round_half_even(n as nat, unit as nat),
{
    let quotient = n / unit;
    let rest = n % unit;
    if 2 * rest > unit || (2 * rest == unit && quotient % 2 == 1) {
        assert(quotient < u128::MAX) by {
            assert(n == unit * quotient + rest) by (nonlinear_arith)
                requires
                    quotient == n / unit,
                    rest == n % unit,
                    unit > 0,
            ;
            assert(rest > 0);
            assert(unit * quotient >= quotient) by (nonlinear_arith)
                requires
                    unit >= 1,
                    quotient >= 0,
            ;
        }
        quotient + 1
    } else {
        quotient
    }
}

/// The double-precision float nearest to `bytes`, as a whole number.
fn to_nearest_double(bytes: u64) -> (double: u128)
    ensures
        double == nearest_double(bytes as nat),
        double <= 2 * (bytes as nat),
{
    let mut spacing: u128 = 1;
    let mut rest: u64 = bytes;
    while rest >= DOUBLE_EXACT_BELOW
        invariant
            1 <= spacing <= 4096,
            spacing * double_spacing(rest as nat) == double_spacing(bytes as nat),
            rest * spacing <= bytes,
        decreases rest,
    {
        proof {
            let inner = double_spacing((rest / 2) as nat);
            assert(spacing * (2 * inner) == (spacing * 2) * inner) by (nonlinear_arith);
            assert((rest / 2) * (spacing * 2) <= rest * spacing) by (nonlinear_arith)
                requires
                    spacing >= 1,
                    (rest / 2) * 2 <= rest,
            ;
            assert(spacing < 2048) by {
                if spacing >= 2048 {
                    assert(rest * spacing >= DOUBLE_EXACT_BELOW * 2048) by (nonlinear_arith)
                        requires
                            rest >= DOUBLE_EXACT_BELOW,
                            spacing >= 2048,
                    ;
                }
            }
        }
        rest = rest / 2;
        spacing = spacing * 2;
    }
    assert(double_spacing(rest as nat) == 1);
    assert(spacing * 1 == spacing) by (nonlinear_arith);
    let whole = rounded_quotient(bytes as u128, spacing);
    proof {
        let n = bytes as nat;
        let s = spacing as nat;
        assert(n == s * (n / s) + n % s) by (nonlinear_arith)
            requires
                s > 0,
        ;
        assert(whole <= n / s + 1);
        assert(whole * s <= 2 * n) by (nonlinear_arith)
            requires
                whole <= n / s + 1,
                n == s * (n / s) + n % s,
                whole == n / s || (whole == n / s + 1 && 2 * (n % s) >= s),
                s > 0,
                n % s >= 0,
        ;
    }
    whole * spacing
}

/// Appends the text of `bytes` in the unit `unit` with two decimal
/// places to `text`.
fn push_two_places(text: &mut String, bytes: u64, unit: u64)
    requires
        unit > 0,
    ensures
        final(text)@ == old(text)@ + two_places(bytes as nat, unit as nat),
{
    let ghost before = text@;
    let double = to_nearest_double(bytes);
    let hundredths = rounded_quotient(double * 100, unit as u128);
    push_decimal(text, hundredths / 100);
    proof {
        reveal_strlit(".");
    }
    let ghost whole = text@;
    text.append(".");
    assert(text@ =~= whole.push('.'));
    push_digit(text, (hundredths / 10) % 10);
    push_digit(text, hundredths % 10);
    assert(text@ =~= before + two_places(bytes as nat, unit as nat));
}

/// The text that shows a count of bytes to a reader.
pub fn human_readable_size(bytes: u64) -> (text: String)
    ensures
        text@ == size_text(bytes),
{
    let mut text = String::new();
    if bytes >= TERABYTE {
        push_two_places(&mut text, bytes, TERABYTE);
        let ghost number = text@;
        text.append(" TB");
        assert(text@ =~= size_text(bytes));
    } else if bytes >= GIGABYTE {
        push_two_places(&mut text, bytes, GIGABYTE);
        text.append(" GB");
        assert(text@ =~= size_text(bytes));
    } else if bytes >= MEGABYTE {
        push_two_places(&mut text, bytes, MEGABYTE);
        text.append(" MB");
        assert(text@ =~= size_text(bytes));
    } else if bytes >= KILOBYTE {
        push_decimal(&mut text, rounded_quotient(bytes as u128, KILOBYTE as u128));
        text.append(" kB");
        assert(text@ =~= size_text(bytes));
    } else {
        push_decimal(&mut text, bytes as u128);
        text.append(" b");
        assert(text@ =~= size_text(bytes));
    }
    text
}

} // verus!
