//! Unsigned 256-bit arithmetic for the price-impact fixed-point math.
//!
//! A value is held as two 128-bit halves; the heavy operations (full
//! multiplication and division) are delegated to `primitive_types::U256`.

use vstd::prelude::*;

verus! {

/// An unsigned 256-bit integer: `value = hi * 2^128 + lo`.
#[derive(Clone, Copy, Debug, PartialEq, Eq, Structural)]
pub struct Wide256 {
    pub hi: u128,
    pub lo: u128,
}

/// Largest value representable in 256 bits, `2^256 - 1`.
pub open spec fn u256_max() -> nat {
    0xffffffffffffffffffffffffffffffffffffffffffffffffffffffffffffffffnat
}

/// Clamp a non-negative unbounded integer into the 256-bit range.
pub open spec fn sat256(x: int) -> nat
    recommends
        x >= 0,
{
    if x > u256_max() {
        u256_max()
    } else if x < 0 {
        0
    } else {
        x as nat
    }
}

impl View for Wide256 {
    type V = nat;

    open spec fn view(&self) -> nat {
        (self.hi as nat) * 0x100000000000000000000000000000000nat + (self.lo as nat)
    }
}

/// The value held is at most `u256_max`.
pub proof fn lemma_wide256_bound(w: Wide256)
    ensures
        w@ <= u256_max(),
{
    assert(w.hi <= u128::MAX && w.lo <= u128::MAX);
    vstd::arithmetic::mul::lemma_mul_inequality(
        w.hi as int,
        u128::MAX as int,
        0x100000000000000000000000000000000int,
    );
}

pub fn wide_from_u128(x: u128) -> (r: Wide256)
    ensures
        r@ == x,
{
    Wide256 { hi: 0, lo: x }
}

/// Relies on `primitive_types::U256::saturating_mul`: the full 256-bit
/// product of the two values, saturating to `U256::MAX` on overflow.
#[verifier::external_body]
pub(crate) fn wide_saturating_mul(a: &Wide256, b: &Wide256) -> (r: Wide256)
    ensures
        r@ == sat256(a@ as int * b@ as int),
{
    let x = (primitive_types::U256::from(a.hi) << 128) | primitive_types::U256::from(a.lo);
    let y = (primitive_types::U256::from(b.hi) << 128) | primitive_types::U256::from(b.lo);
    let p = x.saturating_mul(y);
    Wide256 { hi: (p >> 128).low_u128(), lo: p.low_u128() }
}

/// Relies on `primitive_types::U256::div_mod`: the unsigned 256-bit
/// quotient of the two values; the divisor must be non-zero.
#[verifier::external_body]
pub(crate) fn wide_div(a: &Wide256, b: &Wide256) -> (r: Wide256)
    requires
        b@ > 0,
    ensures
        r@ == a@ / b@,
{
    let x = (primitive_types::U256::from(a.hi) << 128) | primitive_types::U256::from(a.lo);
    let y = (primitive_types::U256::from(b.hi) << 128) | primitive_types::U256::from(b.lo);
    let (q, _) = x.div_mod(y);
    Wide256 { hi: (q >> 128).low_u128(), lo: q.low_u128() }
}

pub fn wide_ge(a: &Wide256, b: &Wide256) -> (r: bool)
    ensures
        r == (a@ >= b@),
{
    if a.hi != b.hi {
        proof {
            if a.hi > b.hi {
                vstd::arithmetic::mul::lemma_mul_inequality(
                    b.hi as int + 1,
                    a.hi as int,
                    0x100000000000000000000000000000000int,
                );
                vstd::arithmetic::mul::lemma_mul_is_distributive_add_other_way(
                    0x100000000000000000000000000000000int,
                    b.hi as int,
                    1,
                );
            } else {
                vstd::arithmetic::mul::lemma_mul_inequality(
                    a.hi as int + 1,
                    b.hi as int,
                    0x100000000000000000000000000000000int,
                );
                vstd::arithmetic::mul::lemma_mul_is_distributive_add_other_way(
                    0x100000000000000000000000000000000int,
                    a.hi as int,
                    1,
                );
            }
        }
        a.hi > b.hi
    } else {
        a.lo >= b.lo
    }
}

/// Difference of two wide values; the first must be at least the second.
pub fn wide_sub(a: &Wide256, b: &Wide256) -> (r: Wide256)
    requires
        a@ >= b@,
    ensures
        r@ == a@ - b@,
{
    proof {
        if a.hi < b.hi {
            vstd::arithmetic::mul::lemma_mul_inequality(
                a.hi as int + 1,
                b.hi as int,
                0x100000000000000000000000000000000int,
            );
            vstd::arithmetic::mul::lemma_mul_is_distributive_add_other_way(
                0x100000000000000000000000000000000int,
                a.hi as int,
                1,
            );
            assert(false);
        }
    }
    if a.lo >= b.lo {
        Wide256 { hi: a.hi - b.hi, lo: a.lo - b.lo }
    } else {
        proof {
            if a.hi == b.hi {
                assert(false);
            }
            vstd::arithmetic::mul::lemma_mul_is_distributive_sub(
                0x100000000000000000000000000000000int,
                a.hi as int,
                b.hi as int,
            );
            vstd::arithmetic::mul::lemma_mul_is_distributive_sub(
                0x100000000000000000000000000000000int,
                a.hi as int - b.hi as int,
                1,
            );
        }
        Wide256 { hi: a.hi - b.hi - 1, lo: (u128::MAX - b.lo) + a.lo + 1 }
    }
}

/// Saturating multiplication composes with the clamp: multiplying the
/// clamped values and clamping again equals clamping the true product.
proof fn lemma_sat256_mul(a: int, b: int)
    requires
        a >= 0,
        b >= 0,
    ensures
        sat256(sat256(a) as int * sat256(b) as int) == sat256(a * b),
{
    let m = u256_max() as int;
    if a <= m && b <= m {
    } else if b == 0 {
        assert(a * b == 0) by (nonlinear_arith)
            requires
                b == 0,
        {
        }
        assert(sat256(a) as int * sat256(b) as int == 0) by (nonlinear_arith)
            requires
                sat256(b) == 0,
        {
        }
    } else if a == 0 {
        assert(a * b == 0) by (nonlinear_arith)
            requires
                a == 0,
        {
        }
        assert(sat256(a) as int * sat256(b) as int == 0) by (nonlinear_arith)
            requires
                sat256(a) == 0,
        {
        }
    } else {
        assert(a >= 1 && b >= 1 && (a > m || b > m));
        assert(a * b > m) by (nonlinear_arith)
            requires
                a >= 1,
                b >= 1,
                a > m || b > m,
                m >= 1,
        {
        }
        assert(sat256(a) as int * sat256(b) as int >= m) by (nonlinear_arith)
            requires
                sat256(a) >= 1,
                sat256(b) >= 1,
                sat256(a) == m || sat256(b) == m,
                m >= 1,
        {
        }
    }
}

/// `x ^ exp` by square-and-multiply, saturating each step; the result is
/// the true power clamped into 256 bits.
pub fn wide_pow_saturating(x: &Wide256, exp: u32) -> (r: Wide256)
    ensures
        r@ == sat256(vstd::arithmetic::power::pow(x@ as int, exp as nat)),
{
    let mut result = wide_from_u128(1);
    let mut base = Wide256 { hi: x.hi, lo: x.lo };
    let mut e = exp;
    let ghost mut bt: int = x@ as int;
    let ghost mut rt: int = 1;
    proof {
        lemma_wide256_bound(*x);
    }
    while e > 0
        invariant
            base@ == sat256(bt),
            result@ == sat256(rt),
            bt >= 0,
            rt >= 0,
            rt * vstd::arithmetic::power::pow(bt, e as nat) == vstd::arithmetic::power::pow(
                x@ as int,
                exp as nat,
            ),
        decreases e,
    {
        let ghost e0: nat = e as nat;
        if e % 2 == 1 {
            proof {
                lemma_sat256_mul(rt, bt);
            }
            result = wide_saturating_mul(&result, &base);
            proof {
                let k = (e0 - 1) / 2;
                assert(e0 == 2 * k + 1);
                vstd::arithmetic::power::lemma_square_is_pow2(bt);
                vstd::arithmetic::power::lemma_pow_multiplies(bt, 2, k as nat);
                vstd::arithmetic::power::lemma_pow1(bt);
                vstd::arithmetic::power::lemma_pow_adds(bt, 1, (2 * k) as nat);
                assert((rt * bt) * vstd::arithmetic::power::pow(bt * bt, k as nat)
                    == rt * vstd::arithmetic::power::pow(bt, e0)) by (nonlinear_arith)
                    requires
                        vstd::arithmetic::power::pow(bt * bt, k as nat)
                            == vstd::arithmetic::power::pow(bt, (2 * k) as nat),
                        vstd::arithmetic::power::pow(bt, e0) == bt * vstd::arithmetic::power::pow(
                            bt,
                            (2 * k) as nat,
                        ),
                {
                }
                rt = rt * bt;
            }
        } else {
            proof {
                let k = e0 / 2;
                assert(e0 == 2 * k);
                vstd::arithmetic::power::lemma_square_is_pow2(bt);
                vstd::arithmetic::power::lemma_pow_multiplies(bt, 2, k as nat);
            }
        }
        proof {
            lemma_sat256_mul(bt, bt);
            vstd::arithmetic::mul::lemma_mul_nonnegative(bt, bt);
        }
        base = wide_saturating_mul(&base, &base);
        proof {
            bt = bt * bt;
        }
        e = e / 2;
    }
    proof {
        vstd::arithmetic::power::lemma_pow0(bt);
    }
    result
}

/// Clamp a wide value to the non-negative `i128` range.
pub fn wide_to_i128_saturating(a: &Wide256) -> (r: i128)
    ensures
        r == if a@ > i128::MAX as nat {
            i128::MAX as int
        } else {
            a@ as int
        },
        r >= 0,
{
    if a.hi != 0 || a.lo > 0x7fffffffffffffffffffffffffffffff {
        proof {
            if a.hi != 0 {
                vstd::arithmetic::mul::lemma_mul_inequality(
                    1,
                    a.hi as int,
                    0x100000000000000000000000000000000int,
                );
            }
        }
        i128::MAX
    } else {
        a.lo as i128
    }
}

} // verus!
