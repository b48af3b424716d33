//! Decimal rendering of token amounts: a whole number as its digit string,
//! and an amount formatted with a decimal point at a token's precision.

use vstd::prelude::*;
use crate::helpers::{pow10, pow10_u128};

verus! {

/// The character of one decimal digit.
pub open spec fn digit_char(d: nat) -> char {
    if d == 0 {
        '0'
    } else if d == 1 {
        '1'
    } else if d == 2 {
        '2'
    } else if d == 3 {
        '3'
    } else if d == 4 {
        '4'
    } else if d == 5 {
        '5'
    } else if d == 6 {
        '6'
    } else if d == 7 {
        '7'
    } else if d == 8 {
        '8'
    } else {
        '9'
    }
}

/// The decimal digits of `n`, most significant first, no leading zeros
/// (the single digit `0` for zero).
pub open spec fn dec_digits(n: nat) -> Seq<char>
    decreases n,
{
    if n < 10 {
        seq![digit_char(n)]
    } else {
        dec_digits(n / 10) + seq![digit_char(n % 10)]
    }
}

/// Exactly `d` decimal digits of `frac`, most significant first, with
/// leading zeros.
pub open spec fn frac_digits(frac: nat, d: nat) -> Seq<char>
    decreases d,
{
    if d == 0 {
        Seq::empty()
    } else {
        frac_digits(frac / 10, (d - 1) as nat) + seq![digit_char(frac % 10)]
    }
}

/// The sequence with its trailing `'0'` characters removed.
pub open spec fn trim_trailing_zeros(s: Seq<char>) -> Seq<char>
    decreases s.len(),
{
    if s.len() > 0 && s.last() == '0' {
        trim_trailing_zeros(s.drop_last())
    } else {
        s
    }
}

/// An amount at a token's precision: the whole part, a decimal point, then
/// the fractional digits with trailing zeros removed — at least one digit
/// on each side.
pub open spec fn format_units_spec(n: nat, d: nat) -> Seq<char> {
    let frac = trim_trailing_zeros(frac_digits(n % pow10(d), d));
    dec_digits(n / pow10(d)) + seq!['.'] + (if frac.len() == 0 {
        seq!['0']
    } else {
        frac
    })
}

/// One decimal digit as a string slice.
fn digit_str(d: u128) -> (r: &'static str)
    requires
        d < 10,
    ensures
        r@ == seq![digit_char(d as nat)],
{
    proof {
        reveal_strlit("0");
        reveal_strlit("1");
        reveal_strlit("2");
        reveal_strlit("3");
        reveal_strlit("4");
        reveal_strlit("5");
        reveal_strlit("6");
        reveal_strlit("7");
        reveal_strlit("8");
        reveal_strlit("9");
    }
    let r = if d == 0 {
        "0"
    } else if d == 1 {
        "1"
    } else if d == 2 {
        "2"
    } else if d == 3 {
        "3"
    } else if d == 4 {
        "4"
    } else if d == 5 {
        "5"
    } else if d == 6 {
        "6"
    } else if d == 7 {
        "7"
    } else if d == 8 {
        "8"
    } else {
        "9"
    };
    proof {
        assert(r@ =~= seq![digit_char(d as nat)]);
    }
    r
}

/// The decimal digit string of a whole number.
pub fn u128_to_dec_string(n: u128) -> (r: String)
    ensures
        r@ == dec_digits(n as nat),
    decreases n,
{
    if n < 10 {
        String::from_str(digit_str(n))
    } else {
        let mut s = u128_to_dec_string(n / 10);
        s.append(digit_str(n % 10));
        s
    }
}

/// Exactly `d` digits of `frac`, leading zeros kept.
fn frac_digit_string(frac: u128, d: u8) -> (r: String)
    ensures
        r@ == frac_digits(frac as nat, d as nat),
    decreases d,
{
    if d == 0 {
        let r = String::new();
        proof {
            assert(r@ =~= frac_digits(frac as nat, 0));
        }
        r
    } else {
        let mut s = frac_digit_string(frac / 10, d - 1);
        s.append(digit_str(frac % 10));
        s
    }
}

/// Format an amount with a decimal point `units` digits from the right,
/// trailing fractional zeros removed, at least one digit on each side.
/// `units` is bounded so the divisor fits a machine word.
pub fn format_units(wei: u128, units: u8) -> (r: String)
    requires
        units <= 31,
    ensures
        r@ == format_units_spec(wei as nat, units as nat),
{
    let p = pow10_u128(units as u32);
    proof {
        crate::helpers::lemma_pow10_le(0, units as nat);
    }
    let int_part = wei / p;
    let mut frac = wei % p;
    let mut width: u8 = units;
    let ghost frac0 = (wei as nat) % pow10(units as nat);
    while width > 0 && frac % 10 == 0
        invariant
            width <= units,
            units <= 31,
            trim_trailing_zeros(frac_digits(frac as nat, width as nat)) == trim_trailing_zeros(
                frac_digits(frac0, units as nat),
            ),
        decreases width,
    {
        proof {
            assert(frac_digits(frac as nat, width as nat).last() == digit_char(
                (frac as nat) % 10,
            ));
            assert(frac_digits(frac as nat, width as nat).drop_last() =~= frac_digits(
                (frac as nat) / 10,
                (width - 1) as nat,
            ));
        }
        frac = frac / 10;
        width = width - 1;
    }
    proof {
        if width > 0 {
            assert(frac_digits(frac as nat, width as nat).last() == digit_char((frac as nat) % 10));
            assert(digit_char((frac as nat) % 10) != '0');
        } else {
            assert(frac_digits(frac as nat, 0).len() == 0);
        }
        reveal_strlit(".");
        reveal_strlit("0");
    }
    let mut s = u128_to_dec_string(int_part);
    s.append(".");
    if width == 0 {
        s.append("0");
        proof {
            assert("0"@ =~= seq!['0']);
            assert("."@ =~= seq!['.']);
            assert(s@ =~= format_units_spec(wei as nat, units as nat));
        }
    } else {
        let fs = frac_digit_string(frac, width);
        s.append(fs.as_str());
        proof {
            assert("."@ =~= seq!['.']);
            assert(s@ =~= format_units_spec(wei as nat, units as nat));
        }
    }
    s
}

} // verus!
