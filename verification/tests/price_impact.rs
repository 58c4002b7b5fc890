use perp_core::services::open_interest::{OpenInterestParams, OpenInterestSnapshot};
use perp_core::services::price_impact::{get_price_impact_usd, ImpactRebalanceConfig};
use perp_core::types::Usd;

fn cfg() -> ImpactRebalanceConfig {
    ImpactRebalanceConfig::default_quadratic()
}

fn oi_params(long0: Usd, short0: Usd, long1: Usd, short1: Usd) -> OpenInterestParams {
    OpenInterestParams {
        current: OpenInterestSnapshot { long_usd: long0, short_usd: short0 },
        next: OpenInterestSnapshot { long_usd: long1, short_usd: short1 },
    }
}

#[test]
fn helpful_short_on_long_heavy_market_gives_positive_impact() {
    // Initial: longs = 150k, shorts = 50k (market is long-heavy, diff = 100k)
    // After:   longs = 150k, shorts = 60k (diff = 90k, imbalance decreased)
    let oi = oi_params(150_000, 50_000, 150_000, 60_000);
    let (impact, improved) = get_price_impact_usd(&oi, &cfg());

    assert!(
        improved,
        "Imbalance should shrink for a helpful trade (short on long-heavy market)"
    );
    assert!(
        impact > 0,
        "Helpful trade should result in positive price impact (user gets a small benefit)"
    );
}

#[test]
fn harmful_long_on_long_heavy_market_gives_negative_impact() {
    // Initial: longs = 150k, shorts = 50k (long-heavy)
    // After:   longs = 160k, shorts = 50k (diff grows from 100k to 110k)
    let oi = oi_params(150_000, 50_000, 160_000, 50_000);
    let (impact, improved) = get_price_impact_usd(&oi, &cfg());

    assert!(
        !improved,
        "Imbalance should grow for a harmful trade (extra long on long-heavy market)"
    );
    assert!(
        impact < 0,
        "Harmful trade should result in negative price impact (user pays a penalty)"
    );
}

#[test]
fn crossover_from_long_heavy_to_short_heavy_is_non_trivial_case() {
    // Initial: longs = 150k, shorts = 50k  -> long-heavy
    // After:   longs =  80k, shorts = 120k -> short-heavy
    let oi = oi_params(150_000, 50_000, 80_000, 120_000);
    let (impact, _improved) = get_price_impact_usd(&oi, &cfg());

    assert_ne!(
        impact, 0,
        "Crossover rebalance should result in a non-zero price impact"
    );
}

#[test]
fn no_change_in_oi_gives_zero_impact() {
    let oi = oi_params(100_000, 100_000, 100_000, 100_000);
    let (impact, improved) = get_price_impact_usd(&oi, &cfg());

    assert!(
        !improved,
        "With identical current/next OI, we consider it as 'no improvement'"
    );
    assert_eq!(
        impact, 0,
        "If OI does not change at all, price impact must be exactly zero"
    );
}

#[test]
fn larger_helpful_move_has_at_least_as_much_impact_as_smaller() {
    let cfg = cfg();

    // Same initial state: longs = 150k, shorts = 50k (long-heavy, diff = 100k)
    let oi_small = oi_params(150_000, 50_000, 150_000, 55_000);
    let oi_big = oi_params(150_000, 50_000, 150_000, 80_000);

    let (impact_small, _) = get_price_impact_usd(&oi_small, &cfg);
    let (impact_big, _) = get_price_impact_usd(&oi_big, &cfg);

    assert!(
        impact_small > 0 && impact_big > 0,
        "Both trades are helpful (more shorts on long-heavy market), impact must be > 0"
    );
    assert!(
        impact_big.abs() >= impact_small.abs(),
        "Larger helpful trade should produce impact with at least as large magnitude"
    );
}

#[test]
fn quadratic_impact_has_exact_value_on_helpful_trade() {
    // diff drops from 100_000 to 90_000; with exponent 2 and a positive
    // factor of 1e-6 the impact is (100_000^2 - 90_000^2) / 1_000_000.
    let oi = oi_params(150_000, 50_000, 150_000, 60_000);
    let (impact, improved) = get_price_impact_usd(&oi, &cfg());
    assert!(improved);
    assert_eq!(impact, 1_900);
}

#[test]
fn quadratic_impact_has_exact_value_on_harmful_trade() {
    // diff grows from 100_000 to 110_000; the negative factor is 4e-6, so
    // the penalty is 4 * (110_000^2 - 100_000^2) / 1_000_000.
    let oi = oi_params(150_000, 50_000, 160_000, 50_000);
    let (impact, improved) = get_price_impact_usd(&oi, &cfg());
    assert!(!improved);
    assert_eq!(impact, -8_400);
}

#[test]
fn crossover_impact_scores_both_gaps_independently() {
    // Long-heavy 100k gap closes and a 40k short-heavy gap opens:
    // 100_000^2 * 1e-6 - 40_000^2 * 4e-6 = 10_000 - 6_400.
    let oi = oi_params(150_000, 50_000, 80_000, 120_000);
    let (impact, improved) = get_price_impact_usd(&oi, &cfg());
    assert!(improved);
    assert_eq!(impact, 3_600);
}

#[test]
fn exponent_one_impact_is_linear_in_the_gap_change() {
    let cfg = ImpactRebalanceConfig {
        impact_exponent: 1,
        same_side_positive_factor_fp: 1_000_000_000_000,
        same_side_negative_factor_fp: 4_000_000_000_000,
        crossover_positive_factor_fp: 1_000_000_000_000,
        crossover_negative_factor_fp: 4_000_000_000_000,
    };
    // Gap shrinks by 2_000_000: impact = 2_000_000 * 1e-6 = 2.
    let oi = oi_params(5_000_000, 1_000_000, 5_000_000, 3_000_000);
    let (impact, improved) = get_price_impact_usd(&oi, &cfg);
    assert!(improved);
    assert_eq!(impact, 2);
}

#[test]
fn default_quadratic_profile_has_documented_factors() {
    let c = cfg();
    assert_eq!(c.impact_exponent, 2);
    assert_eq!(c.same_side_positive_factor_fp, 1_000_000_000_000);
    assert_eq!(c.same_side_negative_factor_fp, 4_000_000_000_000);
    assert_eq!(c.crossover_positive_factor_fp, 1_000_000_000_000);
    assert_eq!(c.crossover_negative_factor_fp, 4_000_000_000_000);
}
