use perp_core::services::open_interest::{OpenInterestParams, OpenInterestSnapshot};
use perp_core::services::price_impact::{BasicPriceImpactService, ImpactRebalanceConfig};
use perp_core::services::pricing::{
    BasicPricingService, ExecutionPriceIncreaseParams, PricingError, PricingService,
};
use perp_core::types::{OraclePrices, Side, Usd};

fn mk_oi(long0: Usd, short0: Usd, long1: Usd, short1: Usd) -> OpenInterestParams {
    OpenInterestParams {
        current: OpenInterestSnapshot { long_usd: long0, short_usd: short0 },
        next: OpenInterestSnapshot { long_usd: long1, short_usd: short1 },
    }
}

fn mk_prices(min: Usd, max: Usd) -> OraclePrices {
    OraclePrices {
        index_price_min: min,
        index_price_max: max,
        collateral_price_min: min,
        collateral_price_max: max,
    }
}

#[test]
fn zero_size_delta_returns_zero_impact_and_uses_oracle_price() {
    let pricing = BasicPricingService::default();
    let impact = BasicPriceImpactService::default();

    let oi = mk_oi(100_000, 100_000, 100_000, 100_000);
    let cfg = ImpactRebalanceConfig::default_quadratic();
    let prices = mk_prices(1_000, 1_100);

    let res = pricing
        .get_execution_price_for_increase(
            &impact,
            ExecutionPriceIncreaseParams {
                oi,
                impact_cfg: cfg,
                side: Side::Long,
                size_delta_usd: 0,
                prices,
            },
        )
        .expect("pricing should succeed for zero size");

    assert_eq!(res.price_impact_usd, 0);
    assert_eq!(res.price_impact_amount_tokens, 0);
    assert_eq!(res.base_size_delta_tokens, 0);
    assert_eq!(res.size_delta_tokens, 0);
    // For longs we pick index_price_max
    assert_eq!(res.execution_price, prices.index_price_max);
}

#[test]
fn helpful_long_trade_gets_more_tokens_and_better_price_than_base() {
    let pricing = BasicPricingService::default();
    let impact = BasicPriceImpactService::default();

    // Market is short-heavy (shorts > longs), opening a long helps rebalance.
    let oi = mk_oi(50_000, 150_000, 60_000, 150_000);
    let cfg = ImpactRebalanceConfig::default_quadratic();
    // Use same min/max to eliminate rounding differences
    let prices = mk_prices(1_000, 1_000);

    let size_delta_usd: Usd = 10_000;

    let res = pricing
        .get_execution_price_for_increase(
            &impact,
            ExecutionPriceIncreaseParams {
                oi,
                impact_cfg: cfg,
                side: Side::Long,
                size_delta_usd,
                prices,
            },
        )
        .expect("pricing should succeed");

    let expected_base = size_delta_usd / prices.index_price_max;
    assert_eq!(
        res.base_size_delta_tokens, expected_base,
        "Base tokens must match simple size / max_price division"
    );

    assert!(
        res.price_impact_usd >= 0,
        "Helpful long trade should have non-negative impact (ideally positive)"
    );
    assert!(
        res.size_delta_tokens >= res.base_size_delta_tokens,
        "Helpful long should receive at least as many tokens as the base amount"
    );

    let base_price = prices.index_price_max;
    assert!(
        res.execution_price <= base_price,
        "Execution price for a helpful long should be no worse (<=) than the base price"
    );
}

#[test]
fn harmful_long_trade_gets_fewer_tokens_and_worse_price_than_base() {
    let pricing = BasicPricingService::default();
    let impact = BasicPriceImpactService::default();

    // Slightly long-heavy market: the harmful penalty stays small enough
    // that it does not exceed the order size.
    let oi = mk_oi(100_500, 100_000, 101_000, 100_000);

    let cfg = ImpactRebalanceConfig::default_quadratic();
    let prices = mk_prices(1_000, 1_000);
    let size_delta_usd: Usd = 10_000;

    let res = pricing
        .get_execution_price_for_increase(
            &impact,
            ExecutionPriceIncreaseParams {
                oi,
                impact_cfg: cfg,
                side: Side::Long,
                size_delta_usd,
                prices,
            },
        )
        .expect("pricing should succeed for harmful long trade");

    let expected_base = size_delta_usd / prices.index_price_max;
    assert_eq!(
        res.base_size_delta_tokens, expected_base,
        "Base tokens must be computed as size / max_price for longs"
    );

    assert!(
        res.price_impact_usd <= 0,
        "Harmful long trade should have non-positive impact (ideally negative)"
    );
    assert!(
        res.size_delta_tokens <= res.base_size_delta_tokens,
        "Harmful long should receive at most the base amount of tokens"
    );

    let base_price = prices.index_price_max;
    assert!(
        res.execution_price >= base_price,
        "Execution price for harmful long should be no better (>=) than base price"
    );
}

#[test]
fn short_rounding_uses_min_price_and_rounds_up() {
    let pricing = BasicPricingService::default();
    let impact = BasicPriceImpactService::default();

    let oi = mk_oi(100_000, 100_000, 100_000, 100_000);
    let cfg = ImpactRebalanceConfig::default_quadratic();

    // Choose prices such that size / min_price is fractional,
    // so we can see the ceil behaviour clearly.
    let prices = mk_prices(1_000, 1_050);
    let size_delta_usd: Usd = 10_001;

    let res = pricing
        .get_execution_price_for_increase(
            &impact,
            ExecutionPriceIncreaseParams {
                oi,
                impact_cfg: cfg,
                side: Side::Short,
                size_delta_usd,
                prices,
            },
        )
        .expect("pricing should succeed");

    let q = size_delta_usd / prices.index_price_min;
    let r = size_delta_usd % prices.index_price_min;
    let expected_base = if r == 0 { q } else { q + 1 };

    assert_eq!(
        res.base_size_delta_tokens, expected_base,
        "Short base tokens must be computed using min price with rounding up (ceil)"
    );
}

#[test]
fn non_positive_base_price_is_rejected() {
    let pricing = BasicPricingService::default();
    let impact = BasicPriceImpactService::default();
    let oi = mk_oi(100_000, 100_000, 100_000, 100_000);
    let cfg = ImpactRebalanceConfig::default_quadratic();
    let prices = mk_prices(0, 0);

    let res = pricing.get_execution_price_for_increase(
        &impact,
        ExecutionPriceIncreaseParams {
            oi,
            impact_cfg: cfg,
            side: Side::Long,
            size_delta_usd: 1_000,
            prices,
        },
    );
    assert!(matches!(res, Err(PricingError::ZeroSizeDelta)));
}

#[test]
fn order_smaller_than_one_token_is_rejected_after_impact() {
    let pricing = BasicPricingService::default();
    let impact = BasicPriceImpactService::default();
    // Flat market: zero impact; 500 USD buys zero tokens at price 1_000.
    let oi = mk_oi(100_000, 100_000, 100_000, 100_000);
    let cfg = ImpactRebalanceConfig::default_quadratic();
    let prices = mk_prices(1_000, 1_000);

    let res = pricing.get_execution_price_for_increase(
        &impact,
        ExecutionPriceIncreaseParams {
            oi,
            impact_cfg: cfg,
            side: Side::Long,
            size_delta_usd: 500,
            prices,
        },
    );
    assert!(matches!(res, Err(PricingError::ZeroSizeTokensAfterImpact)));
}

#[test]
fn penalty_larger_than_order_size_is_rejected() {
    let pricing = BasicPricingService::default();
    let impact = BasicPriceImpactService::default();
    // Strongly harmful trade on a very imbalanced market: the negative
    // impact converts to more tokens than the whole order is worth.
    let oi = mk_oi(10_000_000, 0, 11_000_000, 0);
    let cfg = ImpactRebalanceConfig::default_quadratic();
    let prices = mk_prices(1_000, 1_000);

    let res = pricing.get_execution_price_for_increase(
        &impact,
        ExecutionPriceIncreaseParams {
            oi,
            impact_cfg: cfg,
            side: Side::Long,
            size_delta_usd: 10_000,
            prices,
        },
    );
    match res {
        Err(PricingError::PriceImpactLargerThanOrderSize { price_impact_usd, size_delta_usd }) => {
            assert!(price_impact_usd < 0);
            assert_eq!(size_delta_usd, 10_000);
        },
        other => panic!("expected PriceImpactLargerThanOrderSize, got {:?}", other),
    }
}

#[test]
fn execution_price_is_truncated_quotient_of_size_by_tokens() {
    let pricing = BasicPricingService::default();
    let impact = BasicPriceImpactService::default();
    let oi = mk_oi(100_000, 100_000, 100_000, 100_000);
    let cfg = ImpactRebalanceConfig::default_quadratic();
    let prices = mk_prices(900, 1_000);

    let res = pricing
        .get_execution_price_for_increase(
            &impact,
            ExecutionPriceIncreaseParams {
                oi,
                impact_cfg: cfg,
                side: Side::Long,
                size_delta_usd: 10_500,
                prices,
            },
        )
        .expect("pricing should succeed");
    // base = 10_500 / 1_000 = 10 tokens; no impact on a flat market.
    assert_eq!(res.size_delta_tokens, 10);
    assert_eq!(res.execution_price, 1_050);
}
