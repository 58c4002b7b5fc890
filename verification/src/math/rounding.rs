//! Checked integer division primitives with explicit floor / ceil semantics.
//!
//! These are the only permitted way to divide in the financial math: every
//! division is checked, and the rounding direction is always explicit.

use vstd::prelude::*;

use crate::types::DomainError;

verus! {

/// Truncating (toward-zero) division on unbounded integers, matching the
/// behaviour of Rust's `/` on signed integers.
pub open spec fn trunc_div(a: int, b: int) -> int
    recommends
        b != 0,
{
    if a >= 0 {
        if b > 0 {
            a / b
        } else {
            -(a / -b)
        }
    } else {
        if b > 0 {
            -(-a / b)
        } else {
            -a / -b
        }
    }
}

/// Ceiling division, defined only for `a >= 0, b > 0`.
pub open spec fn spec_div_ceil(a: int, b: int) -> int
    recommends
        a >= 0,
        b > 0,
{
    a / b + if a % b == 0 {
        0int
    } else {
        1int
    }
}

/// `ceil(a / b)` for `a >= 0, b > 0`; fails with a domain error otherwise.
///
/// The result equals `div_floor_u(a, b)` plus one exactly when `b` does not
/// divide `a`.
pub fn div_ceil_u(a: i128, b: i128) -> (r: Result<i128, DomainError>)
    ensures
        r is Ok <==> a >= 0 && b > 0,
        r is Ok ==> r->Ok_0 == spec_div_ceil(a as int, b as int),
        r is Err ==> r->Err_0 == DomainError::DivCeilInvalid,
{
    if a < 0 || b <= 0 {
        return Err(DomainError::DivCeilInvalid);
    }
    let q = a.checked_div(b).unwrap();
    let rem = a.checked_rem(b).unwrap();
    proof {
        vstd::arithmetic::div_mod::lemma_div_pos_is_pos(a as int, b as int);
        vstd::arithmetic::div_mod::lemma_div_nonincreasing(a as int, b as int);
        vstd::arithmetic::div_mod::lemma_fundamental_div_mod(a as int, b as int);
        vstd::arithmetic::div_mod::lemma_mod_bound(a as int, b as int);
        assert(rem != 0 ==> q < i128::MAX) by (nonlinear_arith)
            requires
                a as int == b as int * (q as int) + rem as int,
                0 <= rem < b,
                b > 0,
                q >= 0,
                a <= i128::MAX,
        {
        }
    }
    Ok(if rem == 0 {
        q
    } else {
        q + 1
    })
}

/// `floor(a / b)` for `a >= 0, b > 0`; fails with a domain error otherwise.
pub fn div_floor_u(a: i128, b: i128) -> (r: Result<i128, DomainError>)
    ensures
        r is Ok <==> a >= 0 && b > 0,
        r is Ok ==> r->Ok_0 == a as int / b as int,
        r is Err ==> r->Err_0 == DomainError::DivFloorInvalid,
{
    if a < 0 || b <= 0 {
        return Err(DomainError::DivFloorInvalid);
    }
    proof {
        vstd::arithmetic::div_mod::lemma_div_pos_is_pos(a as int, b as int);
        vstd::arithmetic::div_mod::lemma_div_nonincreasing(a as int, b as int);
    }
    Ok(a.checked_div(b).unwrap())
}

/// `a * b / denom` with a checked intermediate product and truncating
/// (toward-zero) division, exactly as on unbounded integers whenever
/// `a * b` fits in an `i128`.
pub fn mul_div_i128(a: i128, b: i128, denom: i128) -> (r: Result<i128, DomainError>)
    ensures
        r is Ok <==> denom != 0 && i128::MIN <= a as int * b as int <= i128::MAX
            && i128::MIN <= trunc_div(a as int * b as int, denom as int) <= i128::MAX,
        r is Ok ==> r->Ok_0 == trunc_div(a as int * b as int, denom as int),
        denom == 0 ==> r == Err::<i128, DomainError>(DomainError::MulDivZeroDenom),
        denom != 0 && !(i128::MIN <= a as int * b as int <= i128::MAX) ==> r
            == Err::<i128, DomainError>(DomainError::MulOverflow),
        r is Err ==> r->Err_0 == DomainError::MulDivZeroDenom || r->Err_0
            == DomainError::MulOverflow || r->Err_0 == DomainError::DivOverflow,
{
    if denom == 0 {
        return Err(DomainError::MulDivZeroDenom);
    }
    let p = match a.checked_mul(b) {
        Some(p) => p,
        None => {
            return Err(DomainError::MulOverflow);
        },
    };
    match p.checked_div(denom) {
        Some(q) => Ok(q),
        None => Err(DomainError::DivOverflow),
    }
}

/// Rounding law: the floor quotient brackets the dividend,
/// `(a / b) * b <= a < (a / b + 1) * b` for all `a >= 0, b > 0`.
pub proof fn lemma_div_floor_bounds(a: int, b: int)
    requires
        a >= 0,
        b > 0,
    ensures
        (a / b) * b <= a < (a / b + 1) * b,
{
    vstd::arithmetic::div_mod::lemma_fundamental_div_mod(a, b);
    vstd::arithmetic::div_mod::lemma_mod_bound(a, b);
    vstd::arithmetic::mul::lemma_mul_is_commutative(a / b, b);
    vstd::arithmetic::mul::lemma_mul_is_distributive_add_other_way(b, a / b, 1);
}

/// Rounding law: ceiling division is floor division plus one exactly when
/// the remainder is non-zero, for all `a >= 0, b > 0`.
pub proof fn lemma_div_ceil_is_floor_plus_indicator(a: int, b: int)
    requires
        a >= 0,
        b > 0,
    ensures
        spec_div_ceil(a, b) == a / b + if a % b == 0 {
            0int
        } else {
            1int
        },
{
}

/// Rounding law: `trunc_div` truncates toward zero. Its magnitude is the
/// floor of the magnitude quotient, and its sign follows the operands.
pub proof fn lemma_trunc_div_toward_zero(x: int, d: int)
    requires
        d != 0,
    ensures
        vstd::math::abs(trunc_div(x, d)) == vstd::math::abs(x) / vstd::math::abs(d),
        x >= 0 && d > 0 ==> trunc_div(x, d) >= 0,
        x <= 0 && d > 0 ==> trunc_div(x, d) <= 0,
        trunc_div(-x, d) == -trunc_div(x, d),
{
    let ax = vstd::math::abs(x) as int;
    let ad = vstd::math::abs(d) as int;
    vstd::arithmetic::div_mod::lemma_div_pos_is_pos(ax, ad);
}

} // verus!
