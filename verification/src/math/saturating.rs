//! Saturating arithmetic on signed 128-bit integers, used where the index
//! and ledger math must never wrap.

use vstd::prelude::*;

verus! {

/// Clamp an unbounded integer into the `i128` range.
pub open spec fn spec_sat_i128(x: int) -> int {
    if x > i128::MAX {
        i128::MAX as int
    } else if x < i128::MIN {
        i128::MIN as int
    } else {
        x
    }
}

pub fn sat_add_i128(a: i128, b: i128) -> (r: i128)
    ensures
        r == spec_sat_i128(a + b),
{
    match a.checked_add(b) {
        Some(v) => v,
        None => if a > 0 {
            i128::MAX
        } else {
            i128::MIN
        },
    }
}

pub fn sat_sub_i128(a: i128, b: i128) -> (r: i128)
    ensures
        r == spec_sat_i128(a - b),
{
    match a.checked_sub(b) {
        Some(v) => v,
        None => if b < 0 {
            i128::MAX
        } else {
            i128::MIN
        },
    }
}

pub fn sat_mul_i128(a: i128, b: i128) -> (r: i128)
    ensures
        r == spec_sat_i128(a * b),
{
    match a.checked_mul(b) {
        Some(v) => v,
        None => {
            proof {
                assert((a * b > i128::MAX || a * b < i128::MIN) ==> a != 0 && b != 0);
                assert(a > 0 && b > 0 ==> a * b > 0) by (nonlinear_arith);
                assert(a < 0 && b < 0 ==> a * b > 0) by (nonlinear_arith);
                assert(a > 0 && b < 0 ==> a * b < 0) by (nonlinear_arith);
                assert(a < 0 && b > 0 ==> a * b < 0) by (nonlinear_arith);
            }
            if (a > 0) == (b > 0) {
                i128::MAX
            } else {
                i128::MIN
            }
        },
    }
}

} // verus!
