//! Price-impact curve: maps an open-interest change to a signed USD impact
//! and a "balance improved" flag.
//!
//! A trade that shrinks `|long - short|` earns a positive impact, one that
//! grows it pays a negative impact; trades that cross the balance point are
//! scored as a benefit on the closed gap minus a penalty on the new gap.
//! Imbalances are raised to a configured exponent in saturating 256-bit
//! arithmetic, multiplied by fixed-point factors, and reduced by the
//! fixed-point scale.

use vstd::prelude::*;

use crate::services::open_interest::OpenInterestParams;
use crate::services::wide::{
    sat256, wide_div, wide_from_u128, wide_ge, wide_pow_saturating, wide_saturating_mul, wide_sub,
    wide_to_i128_saturating, Wide256,
};
use crate::types::Usd;

verus! {

/// Fixed-point scale for impact factors, `10^18`.
pub fn fp_scale() -> (r: u128)
    ensures
        r == 1000000000000000000u128,
{
    1_000_000_000_000_000_000
}

/// Config for the impact curve. All factors are fixed-point with scale
/// `10^18`.
#[derive(Clone, Copy, Debug, PartialEq, Eq, Structural)]
pub struct ImpactRebalanceConfig {
    /// Exponent `e` in `d^e` (e.g. 1, 2, 3).
    pub impact_exponent: u32,
    /// Same-side factor for trades that improve the balance (helpful).
    pub same_side_positive_factor_fp: u128,
    /// Same-side factor for trades that worsen the balance (harmful).
    pub same_side_negative_factor_fp: u128,
    /// Crossover factor applied to the initial imbalance.
    pub crossover_positive_factor_fp: u128,
    /// Crossover factor applied to the next imbalance.
    pub crossover_negative_factor_fp: u128,
}

impl ImpactRebalanceConfig {
    /// Simple quadratic profile: helpful trades earn a small positive
    /// impact, harmful trades pay about four times as much.
    pub fn default_quadratic() -> (r: ImpactRebalanceConfig)
        ensures
            r == (ImpactRebalanceConfig {
                impact_exponent: 2u32,
                same_side_positive_factor_fp: 1000000000000u128,
                same_side_negative_factor_fp: 4000000000000u128,
                crossover_positive_factor_fp: 1000000000000u128,
                crossover_negative_factor_fp: 4000000000000u128,
            }),
    {
        let one = fp_scale();
        ImpactRebalanceConfig {
            impact_exponent: 2,
            same_side_positive_factor_fp: one / 1_000_000,
            same_side_negative_factor_fp: one * 4 / 1_000_000,
            crossover_positive_factor_fp: one / 1_000_000,
            crossover_negative_factor_fp: one * 4 / 1_000_000,
        }
    }
}

/// `|a - b|` on unbounded integers.
pub open spec fn spec_abs_diff(a: int, b: int) -> int {
    if a >= b {
        a - b
    } else {
        b - a
    }
}

/// Initial absolute imbalance, `|long0 - short0|`.
pub open spec fn spec_initial_diff(oi: OpenInterestParams) -> int {
    spec_abs_diff(oi.current.long_usd as int, oi.current.short_usd as int)
}

/// Next absolute imbalance, `|long1 - short1|`.
pub open spec fn spec_next_diff(oi: OpenInterestParams) -> int {
    spec_abs_diff(oi.next.long_usd as int, oi.next.short_usd as int)
}

/// Whether the heavy side stays the same side.
pub open spec fn spec_is_same_side(oi: OpenInterestParams) -> bool {
    (oi.current.long_usd <= oi.current.short_usd) == (oi.next.long_usd <= oi.next.short_usd)
}

/// An imbalance raised to the configured exponent, saturating in 256 bits.
pub open spec fn spec_diff_pow(d: int, e: u32) -> int {
    sat256(vstd::arithmetic::power::pow(d, e as nat)) as int
}

/// Clamp a non-negative unbounded integer to the `i128` range.
pub open spec fn spec_sat_to_i128(x: int) -> int
    recommends
        x >= 0,
{
    if x > i128::MAX {
        i128::MAX as int
    } else {
        x
    }
}

/// A saturating fixed-point product reduced by the scale and clamped to
/// `i128`: the unsigned magnitude of one impact term.
pub open spec fn spec_reduced_magnitude(diff_e: int, factor: u128) -> int {
    spec_sat_to_i128(sat256(diff_e * factor) as int / 1000000000000000000)
}

/// The signed USD price impact and the "balance improved" flag for an
/// open-interest change, mirroring the saturating fixed-point pipeline.
pub open spec fn spec_price_impact(oi: OpenInterestParams, cfg: ImpactRebalanceConfig) -> (int,
    bool) {
    let d0 = spec_initial_diff(oi);
    let d1 = spec_next_diff(oi);
    let improved = d1 < d0;
    let d0e = spec_diff_pow(d0, cfg.impact_exponent);
    let d1e = spec_diff_pow(d1, cfg.impact_exponent);
    if spec_is_same_side(oi) {
        let factor = if improved {
            cfg.same_side_positive_factor_fp
        } else {
            cfg.same_side_negative_factor_fp
        };
        if d0e >= d1e {
            (spec_reduced_magnitude(d0e - d1e, factor), improved)
        } else {
            (-spec_reduced_magnitude(d1e - d0e, factor), improved)
        }
    } else {
        let t0 = sat256(d0e * cfg.crossover_positive_factor_fp) as int;
        let t1 = sat256(d1e * cfg.crossover_negative_factor_fp) as int;
        if t0 >= t1 {
            (spec_sat_to_i128((t0 - t1) / 1000000000000000000), improved)
        } else {
            (-spec_sat_to_i128((t1 - t0) / 1000000000000000000), improved)
        }
    }
}

/// Absolute imbalance of a snapshot pair as a wide value.
fn abs_diff_wide(long_usd: i128, short_usd: i128) -> (r: Wide256)
    requires
        long_usd >= 0,
        short_usd >= 0,
    ensures
        r@ == spec_abs_diff(long_usd as int, short_usd as int),
{
    if long_usd >= short_usd {
        wide_from_u128((long_usd - short_usd) as u128)
    } else {
        wide_from_u128((short_usd - long_usd) as u128)
    }
}

/// Reduce a saturating fixed-point magnitude by the scale and clamp it to
/// the `i128` range.
fn from_fp_to_usd_saturating(v_fp: &Wide256) -> (r: i128)
    ensures
        r == spec_sat_to_i128(v_fp@ as int / 1000000000000000000),
        r >= 0,
{
    let scale = wide_from_u128(fp_scale());
    let q = wide_div(v_fp, &scale);
    proof {
        vstd::arithmetic::div_mod::lemma_div_pos_is_pos(v_fp@ as int, 1000000000000000000int);
    }
    wide_to_i128_saturating(&q)
}

/// Signed USD impact for an open-interest change.
///
/// Returns the impact (positive rewards, negative penalizes) and whether
/// the absolute imbalance shrank. Open interest must be non-negative.
pub fn get_price_impact_usd(oi: &OpenInterestParams, cfg: &ImpactRebalanceConfig) -> (r: (
    Usd,
    bool,
))
    requires
        oi.current.long_usd >= 0,
        oi.current.short_usd >= 0,
        oi.next.long_usd >= 0,
        oi.next.short_usd >= 0,
    ensures
        r.0 == spec_price_impact(*oi, *cfg).0,
        r.1 == spec_price_impact(*oi, *cfg).1,
{
    let initial_long_le_short = oi.current.long_usd <= oi.current.short_usd;
    let next_long_le_short = oi.next.long_usd <= oi.next.short_usd;
    let is_same_side_rebalance = initial_long_le_short == next_long_le_short;

    let initial_diff = abs_diff_wide(oi.current.long_usd, oi.current.short_usd);
    let next_diff = abs_diff_wide(oi.next.long_usd, oi.next.short_usd);

    let balance_was_improved = !wide_ge(&next_diff, &initial_diff);

    let e = cfg.impact_exponent;
    let d0e = wide_pow_saturating(&initial_diff, e);
    let d1e = wide_pow_saturating(&next_diff, e);

    if is_same_side_rebalance {
        let factor_fp = wide_from_u128(
            if balance_was_improved {
                cfg.same_side_positive_factor_fp
            } else {
                cfg.same_side_negative_factor_fp
            },
        );
        if wide_ge(&d0e, &d1e) {
            let diff_e = wide_sub(&d0e, &d1e);
            let mag_fp = wide_saturating_mul(&diff_e, &factor_fp);
            let impact_usd = from_fp_to_usd_saturating(&mag_fp);
            (impact_usd, balance_was_improved)
        } else {
            let diff_e = wide_sub(&d1e, &d0e);
            let mag_fp = wide_saturating_mul(&diff_e, &factor_fp);
            let impact_usd = from_fp_to_usd_saturating(&mag_fp);
            (-impact_usd, balance_was_improved)
        }
    } else {
        let p_fp = wide_from_u128(cfg.crossover_positive_factor_fp);
        let n_fp = wide_from_u128(cfg.crossover_negative_factor_fp);
        let term0 = wide_saturating_mul(&d0e, &p_fp);
        let term1 = wide_saturating_mul(&d1e, &n_fp);
        if wide_ge(&term0, &term1) {
            let mag_fp = wide_sub(&term0, &term1);
            let impact_usd = from_fp_to_usd_saturating(&mag_fp);
            (impact_usd, balance_was_improved)
        } else {
            let mag_fp = wide_sub(&term1, &term0);
            let impact_usd = from_fp_to_usd_saturating(&mag_fp);
            (-impact_usd, balance_was_improved)
        }
    }
}

/// Abstract interface for the price-impact computation.
pub trait PriceImpactService {
    fn compute_price_impact_usd(&self, oi: &OpenInterestParams, cfg: &ImpactRebalanceConfig) -> (r:
        (Usd, bool))
        requires
            oi.current.long_usd >= 0,
            oi.current.short_usd >= 0,
            oi.next.long_usd >= 0,
            oi.next.short_usd >= 0,
        ensures
            r.0 == spec_price_impact(*oi, *cfg).0,
            r.1 == spec_price_impact(*oi, *cfg).1,
    ;
}

proof fn lemma_pow_nonneg(b: int, e: nat)
    requires
        b >= 0,
    ensures
        vstd::arithmetic::power::pow(b, e) >= 0,
    decreases e,
{
    reveal(vstd::arithmetic::power::pow);
    if e > 0 {
        lemma_pow_nonneg(b, (e - 1) as nat);
        vstd::arithmetic::mul::lemma_mul_nonnegative(
            b,
            vstd::arithmetic::power::pow(b, (e - 1) as nat),
        );
    }
}

/// Raising to a power is monotone in a non-negative base.
proof fn lemma_pow_base_monotone(b1: int, b2: int, e: nat)
    requires
        0 <= b1 <= b2,
    ensures
        vstd::arithmetic::power::pow(b1, e) <= vstd::arithmetic::power::pow(b2, e),
    decreases e,
{
    reveal(vstd::arithmetic::power::pow);
    if e > 0 {
        lemma_pow_base_monotone(b1, b2, (e - 1) as nat);
        lemma_pow_nonneg(b1, (e - 1) as nat);
        let p1 = vstd::arithmetic::power::pow(b1, (e - 1) as nat);
        let p2 = vstd::arithmetic::power::pow(b2, (e - 1) as nat);
        assert(b1 * p1 <= b2 * p2) by (nonlinear_arith)
            requires
                0 <= b1 <= b2,
                0 <= p1 <= p2,
        {
        }
    }
}

proof fn lemma_sat256_monotone(x: int, y: int)
    requires
        x <= y,
    ensures
        sat256(x) <= sat256(y),
{
}

/// Both imbalance powers are monotone images of the imbalances.
proof fn lemma_diff_pow_monotone(d1: int, d2: int, e: u32)
    requires
        0 <= d1 <= d2,
    ensures
        spec_diff_pow(d1, e) <= spec_diff_pow(d2, e),
{
    lemma_pow_base_monotone(d1, d2, e as nat);
    lemma_sat256_monotone(
        vstd::arithmetic::power::pow(d1, e as nat),
        vstd::arithmetic::power::pow(d2, e as nat),
    );
}

/// The unsigned magnitude of one impact term is non-negative and monotone
/// in the raised imbalance difference.
proof fn lemma_reduced_magnitude_monotone(x1: int, x2: int, factor: u128)
    requires
        0 <= x1 <= x2,
    ensures
        0 <= spec_reduced_magnitude(x1, factor) <= spec_reduced_magnitude(x2, factor),
{
    let scale = 1000000000000000000int;
    vstd::arithmetic::mul::lemma_mul_nonnegative(x1, factor as int);
    vstd::arithmetic::mul::lemma_mul_inequality(x1, x2, factor as int);
    lemma_sat256_monotone(x1 * factor, x2 * factor);
    vstd::arithmetic::div_mod::lemma_div_is_ordered(
        sat256(x1 * factor) as int,
        sat256(x2 * factor) as int,
        scale,
    );
    vstd::arithmetic::div_mod::lemma_div_pos_is_pos(sat256(x1 * factor) as int, scale);
}

/// The signed impact lies within the `i128` range in magnitude: each
/// term is clamped on its way out of the fixed-point pipeline.
pub proof fn lemma_price_impact_in_i128(oi: OpenInterestParams, cfg: ImpactRebalanceConfig)
    ensures
        -(i128::MAX as int) <= spec_price_impact(oi, cfg).0 <= i128::MAX as int,
{
    let scale = 1000000000000000000int;
    let d0e = spec_diff_pow(spec_initial_diff(oi), cfg.impact_exponent);
    let d1e = spec_diff_pow(spec_next_diff(oi), cfg.impact_exponent);
    if spec_is_same_side(oi) {
        let factor = if spec_next_diff(oi) < spec_initial_diff(oi) {
            cfg.same_side_positive_factor_fp
        } else {
            cfg.same_side_negative_factor_fp
        };
        if d0e >= d1e {
            lemma_reduced_magnitude_monotone(0, d0e - d1e, factor);
        } else {
            lemma_reduced_magnitude_monotone(0, d1e - d0e, factor);
        }
    } else {
        let t0 = sat256(d0e * cfg.crossover_positive_factor_fp) as int;
        let t1 = sat256(d1e * cfg.crossover_negative_factor_fp) as int;
        if t0 >= t1 {
            vstd::arithmetic::div_mod::lemma_div_pos_is_pos(t0 - t1, scale);
        } else {
            vstd::arithmetic::div_mod::lemma_div_pos_is_pos(t1 - t0, scale);
        }
    }
}

/// No-op law: when the open interest does not change at all, the price
/// impact is exactly zero and the balance is not counted as improved.
pub proof fn lemma_impact_zero_when_oi_unchanged(oi: OpenInterestParams, cfg: ImpactRebalanceConfig)
    requires
        oi.current == oi.next,
    ensures
        spec_price_impact(oi, cfg) == (0int, false),
{
    let d0e = spec_diff_pow(spec_initial_diff(oi), cfg.impact_exponent);
    vstd::arithmetic::mul::lemma_mul_basics(
        (if spec_next_diff_for_law(oi) {
            cfg.same_side_positive_factor_fp
        } else {
            cfg.same_side_negative_factor_fp
        }) as int,
    );
    assert(spec_reduced_magnitude(0, cfg.same_side_positive_factor_fp) == 0) by {
        vstd::arithmetic::div_mod::lemma_div_of0(1000000000000000000int);
    }
    assert(spec_reduced_magnitude(0, cfg.same_side_negative_factor_fp) == 0) by {
        vstd::arithmetic::div_mod::lemma_div_of0(1000000000000000000int);
    }
}

/// Helper naming for the improved flag in the law above.
spec fn spec_next_diff_for_law(oi: OpenInterestParams) -> bool {
    spec_next_diff(oi) < spec_initial_diff(oi)
}

/// Sign-discipline law: a same-side trade that shrinks the absolute
/// imbalance never pays (impact at least zero), and one that grows it is
/// never paid (impact at most zero).
pub proof fn lemma_impact_sign_same_side(oi: OpenInterestParams, cfg: ImpactRebalanceConfig)
    requires
        spec_is_same_side(oi),
    ensures
        spec_next_diff(oi) < spec_initial_diff(oi) ==> spec_price_impact(oi, cfg).0 >= 0,
        spec_next_diff(oi) > spec_initial_diff(oi) ==> spec_price_impact(oi, cfg).0 <= 0,
{
    let d0 = spec_initial_diff(oi);
    let d1 = spec_next_diff(oi);
    let e = cfg.impact_exponent;
    let d0e = spec_diff_pow(d0, e);
    let d1e = spec_diff_pow(d1, e);
    if d1 < d0 {
        lemma_diff_pow_monotone(d1, d0, e);
        lemma_reduced_magnitude_monotone(
            0,
            d0e - d1e,
            cfg.same_side_positive_factor_fp,
        );
    } else if d1 > d0 {
        lemma_diff_pow_monotone(d0, d1, e);
        if d0e >= d1e {
            assert(d0e == d1e);
            vstd::arithmetic::mul::lemma_mul_basics(cfg.same_side_negative_factor_fp as int);
            vstd::arithmetic::div_mod::lemma_div_of0(1000000000000000000int);
        } else {
            lemma_reduced_magnitude_monotone(
                0,
                d1e - d0e,
                cfg.same_side_negative_factor_fp,
            );
        }
    }
}

/// Monotonicity law: holding the config and the initial open interest
/// fixed, of two same-side balance-improving trades the one that shrinks
/// the imbalance further earns at least as much impact, and both earn a
/// non-negative impact.
pub proof fn lemma_impact_monotone_same_side_helpful(
    oi1: OpenInterestParams,
    oi2: OpenInterestParams,
    cfg: ImpactRebalanceConfig,
)
    requires
        oi1.current == oi2.current,
        spec_is_same_side(oi1),
        spec_is_same_side(oi2),
        spec_next_diff(oi2) <= spec_next_diff(oi1) < spec_initial_diff(oi1),
    ensures
        spec_price_impact(oi2, cfg).0 >= spec_price_impact(oi1, cfg).0 >= 0,
{
    let d0 = spec_initial_diff(oi1);
    let d1 = spec_next_diff(oi1);
    let d1b = spec_next_diff(oi2);
    let e = cfg.impact_exponent;
    let d0e = spec_diff_pow(d0, e);
    let d1e = spec_diff_pow(d1, e);
    let d1be = spec_diff_pow(d1b, e);
    lemma_diff_pow_monotone(d1, d0, e);
    lemma_diff_pow_monotone(d1b, d1, e);
    lemma_reduced_magnitude_monotone(
        d0e - d1e,
        d0e - d1be,
        cfg.same_side_positive_factor_fp,
    );
    lemma_reduced_magnitude_monotone(0, d0e - d1e, cfg.same_side_positive_factor_fp);
}

/// Basic implementation: forwards to `get_price_impact_usd`.
#[derive(Default)]
pub struct BasicPriceImpactService;

impl PriceImpactService for BasicPriceImpactService {
    fn compute_price_impact_usd(&self, oi: &OpenInterestParams, cfg: &ImpactRebalanceConfig) -> (r:
        (Usd, bool)) {
        get_price_impact_usd(oi, cfg)
    }
}

} // verus!
