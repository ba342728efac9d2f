//! The calls this library makes into nannou. Verus reads none of the bodies
//! here: each contract states what nannou's source shows of the function
//! called, and the proofs elsewhere rest on it.

use vstd::prelude::*;
use crate::fixed::{quotient, SCALE};

verus! {

/// The distance of `x` from zero.
pub open spec fn magnitude_of(x: int) -> int {
    if x < 0 {
        -x
    } else {
        x
    }
}

/// `nannou::prelude::abs`, which is num-traits' `abs`: for a signed integer
/// it returns the integer itself, or its opposite if it is negative. The
/// least 128-bit integer has no opposite and is left out.
#[verifier::external_body]
pub(crate) fn magnitude(x: i128) -> (r: i128)
    requires
        x > i128::MIN,
    ensures
        r == magnitude_of(x as int),
{
    nannou::prelude::abs(x)
}

/// `nannou::prelude::pow` with exponent 2, which is num-traits' `pow`: it
/// squares the base once and returns it. The square must fit, or the
/// multiplication overflows.
#[verifier::external_body]
pub(crate) fn squared(x: u128) -> (r: u128)
    requires
        x * x <= u128::MAX,
    ensures
        r == x * x,
{
    nannou::prelude::pow(x, 2)
}

/// A magnitude up to which whole numbers, and the difference of any two of
/// them, are exact as 64-bit floats.
pub const EXACT: i64 = 4503599627370496;

/// What nannou's `map_range` returns on 64-bit integers, for arguments of
/// which the contract of `map_between` says no more.
pub uninterp spec fn mapped(val: int, in_min: int, in_max: int, out_min: int, out_max: int) -> int;

/// Whether the input range is a whole number of units long and the output
/// range runs from zero to one unit, a unit being `SCALE`.
pub open spec fn to_unit_range(in_min: int, in_max: int, out_min: int, out_max: int) -> bool {
    out_min == 0 && out_max == SCALE && (in_max - in_min) % (SCALE as int) == 0
}

/// `val` carried from the range `in_min..in_max` to the range
/// `out_min..out_max`. Each end of the one goes to the same end of the
/// other. Where the input range is a whole number of units long and the
/// output range is one unit from zero, the result is the way into the input
/// range over that whole number, rounded toward zero. Any other value goes
/// where nannou's `map_range` takes it.
pub open spec fn carried(val: int, in_min: int, in_max: int, out_min: int, out_max: int) -> int {
    if val == in_min {
        out_min
    } else if val == in_max {
        out_max
    } else if to_unit_range(in_min, in_max, out_min, out_max) {
        quotient(val - in_min, (in_max - in_min) / (SCALE as int))
    } else {
        mapped(val, in_min, in_max, out_min, out_max)
    }
}

/// `nannou::prelude::map_range` on 64-bit integers. It turns its arguments
/// into 64-bit floats, computes
/// `(val - in_min) / (in_max - in_min) * (out_max - out_min) + out_min`
/// there, and turns the result back into an integer, toward zero. It panics
/// where that last step fails. The conditions here keep every argument and
/// difference exact as a float, the divisor away from zero, and the output
/// range no wider than the input range, so that the result stays far inside
/// the 64-bit integers and the step does not fail.
///
/// The contract says what the result is in two cases, and otherwise only
/// gives it a name.
///
/// At the two ends of the input range the quotient is exactly zero or
/// exactly one, and every step of the formula is exact.
///
/// Where the input range is `d` units of 2^32 long, for a whole number `d`,
/// and the output range is one unit from zero, the two powers of two cancel
/// without rounding, so that the float is `(val - in_min) / d` rounded once.
/// The rounding moves it by less than one part in 2^53 of its size, which is
/// less than `1 / d`, while a quotient that is not whole lies at least
/// `1 / d` from the whole numbers. So the rounded float lies on the same side
/// of the same whole numbers as the true quotient, and turned into an integer
/// it is that quotient rounded toward zero.
#[verifier::external_body]
pub(crate) fn map_between(val: i64, in_min: i64, in_max: i64, out_min: i64, out_max: i64) -> (r:
    i64)
    requires
        -EXACT <= val <= EXACT,
        -EXACT <= in_min < in_max <= EXACT,
        -EXACT <= out_min <= EXACT,
        -EXACT <= out_max <= EXACT,
        magnitude_of(out_max - out_min) <= in_max - in_min,
    ensures
        val == in_min ==> r == out_min,
        val == in_max ==> r == out_max,
        to_unit_range(in_min as int, in_max as int, out_min as int, out_max as int) ==> r
            == quotient(val - in_min, (in_max - in_min) / (SCALE as int)),
        val != in_min && val != in_max ==> r == mapped(
            val as int,
            in_min as int,
            in_max as int,
            out_min as int,
            out_max as int,
        ),
{
    nannou::prelude::map_range(val, in_min, in_max, out_min, out_max)
}

/// `nannou::rand::random`, which is rand's `random`, for 32 bits from the
/// thread's generator. Nothing is promised of them.
#[verifier::external_body]
pub(crate) fn random_bits() -> u32 {
    nannou::rand::random()
}

} // verus!
