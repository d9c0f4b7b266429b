//! Decimal rendering of integers, for log messages that carry an exit
//! code.

use vstd::prelude::*;

verus! {

/// The decimal digit character for `d` in `0 ..= 9`.
pub open spec fn spec_digit(d: int) -> char {
    if d == 0 {
        '0'
    } else if d == 1 {
        '1'
    } else if d == 2 {
        '2'
    } else if d == 3 {
        '3'
    } else if d == 4 {
        '4'
    } else if d == 5 {
        '5'
    } else if d == 6 {
        '6'
    } else if d == 7 {
        '7'
    } else if d == 8 {
        '8'
    } else {
        '9'
    }
}

/// The usual decimal rendering of a non-negative integer, without
/// leading zeros (a single `0` for zero itself).
pub open spec fn spec_nat_decimal(n: int) -> Seq<char>
    decreases n,
{
    if n < 10 {
        seq![spec_digit(n)]
    } else {
        spec_nat_decimal(n / 10) + seq![spec_digit(n % 10)]
    }
}

/// The decimal rendering of an integer, with a leading minus sign when
/// it is negative.
pub open spec fn spec_int_decimal(n: int) -> Seq<char> {
    if n < 0 {
        seq!['-'] + spec_nat_decimal(-n)
    } else {
        spec_nat_decimal(n)
    }
}

/// The digit `d` as a one-character string.
fn digit_str(d: u32) -> (r: &'static str)
    requires
        d < 10,
    ensures
        r@ == seq![spec_digit(d as int)],
{
    let r: &'static str = if d == 0 {
        "0"
    } else if d == 1 {
        "1"
    } else if d == 2 {
        "2"
    } else if d == 3 {
        "3"
    } else if d == 4 {
        "4"
    } else if d == 5 {
        "5"
    } else if d == 6 {
        "6"
    } else if d == 7 {
        "7"
    } else if d == 8 {
        "8"
    } else {
        "9"
    };
    proof {
        reveal_strlit("0");
        reveal_strlit("1");
        reveal_strlit("2");
        reveal_strlit("3");
        reveal_strlit("4");
        reveal_strlit("5");
        reveal_strlit("6");
        reveal_strlit("7");
        reveal_strlit("8");
        reveal_strlit("9");
        assert(r@ =~= seq![spec_digit(d as int)]);
    }
    r
}

/// Renders a non-negative number in decimal.
pub fn nat_decimal(n: u32) -> (r: String)
    ensures
        r@ == spec_nat_decimal(n as int),
    decreases n,
{
    if n < 10 {
        let mut r = String::new();
        r.append(digit_str(n));
        proof {
            assert(r@ =~= spec_nat_decimal(n as int));
        }
        r
    } else {
        let mut r = nat_decimal(n / 10);
        r.append(digit_str(n % 10));
        proof {
            assert(r@ =~= spec_nat_decimal(n as int));
        }
        r
    }
}

/// Renders a signed number in decimal.
pub fn int_decimal(n: i32) -> (r: String)
    ensures
        r@ == spec_int_decimal(n as int),
{
    if n >= 0 {
        nat_decimal(n as u32)
    } else {
        let wide: i64 = n as i64;
        let magnitude: u32 = (-wide) as u32;
        proof {
            assert(magnitude as int == -(n as int));
        }
        let mut r = String::new();
        r.append("-");
        let digits = nat_decimal(magnitude);
        r.append(digits.as_str());
        proof {
            reveal_strlit("-");
            assert(r@ =~= spec_int_decimal(n as int));
        }
        r
    }
}

} // verus!
