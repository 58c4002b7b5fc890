//! Execution pricing for increase orders: combines the price impact with
//! oracle prices to produce a signed token delta and an execution price.

use vstd::prelude::*;

use crate::math::rounding::{div_ceil_u, div_floor_u, spec_div_ceil};
use crate::services::open_interest::OpenInterestParams;
use crate::services::price_impact::{
    lemma_price_impact_in_i128, spec_price_impact, ImpactRebalanceConfig, PriceImpactService,
};
use crate::types::{OraclePrices, Side, TokenAmount, Usd};

verus! {

#[derive(Clone, Copy, Debug, PartialEq, Eq, Structural)]
pub enum PricingError {
    ZeroSizeDelta,
    PriceImpactLargerThanOrderSize { price_impact_usd: Usd, size_delta_usd: Usd },
    ZeroSizeTokensAfterImpact,
}

/// Input params for execution price calculation on increase.
#[derive(Clone, Copy, Debug)]
pub struct ExecutionPriceIncreaseParams {
    /// Long / short OI before and after the action.
    pub oi: OpenInterestParams,
    /// Market config for impact exponents and factors.
    pub impact_cfg: ImpactRebalanceConfig,
    /// Side (long / short).
    pub side: Side,
    /// Requested size delta in USD.
    pub size_delta_usd: Usd,
    /// Oracle min / max prices.
    pub prices: OraclePrices,
}

#[derive(Clone, Copy, Debug, PartialEq, Eq, Structural)]
pub struct ExecutionPriceIncreaseResult {
    pub price_impact_usd: Usd,
    pub price_impact_amount_tokens: TokenAmount,
    pub base_size_delta_tokens: TokenAmount,
    pub size_delta_tokens: TokenAmount,
    pub execution_price: Usd,
    pub balance_was_improved: bool,
}

/// Impact USD converted to index tokens with bonus-conservative rounding:
/// positive impact uses the max price rounded down (fewer bonus tokens),
/// negative impact uses the min price rounded up and negated (more penalty
/// tokens); a non-positive price yields zero tokens.
pub open spec fn spec_impact_amount_tokens(impact: int, prices: OraclePrices) -> int {
    if impact > 0 {
        if prices.index_price_max > 0 {
            impact / prices.index_price_max as int
        } else {
            0
        }
    } else if impact < 0 {
        if prices.index_price_min > 0 {
            -spec_div_ceil(-impact, prices.index_price_min as int)
        } else {
            0
        }
    } else {
        0
    }
}

/// Whether the base-size price pick for the side is positive.
pub open spec fn spec_base_price_ok(side: Side, prices: OraclePrices) -> bool {
    match side {
        Side::Long => prices.index_price_max > 0,
        Side::Short => prices.index_price_min > 0,
    }
}

/// Base size delta in tokens, without impact: longs divide by the max
/// price rounded down, shorts divide by the min price rounded up. Both
/// asymmetries undervalue the tokens delivered to the trader.
pub open spec fn spec_base_size_delta_tokens(side: Side, size_delta_usd: int, prices: OraclePrices) -> int
    recommends
        spec_base_price_ok(side, prices),
{
    match side {
        Side::Long => size_delta_usd / prices.index_price_max as int,
        Side::Short => spec_div_ceil(size_delta_usd, prices.index_price_min as int),
    }
}

/// Total size delta in tokens: longs gain bonus tokens from positive
/// impact, shorts owe fewer tokens when impact is negative.
pub open spec fn spec_total_size_delta_tokens(side: Side, base: int, impact_tokens: int) -> int {
    match side {
        Side::Long => base + impact_tokens,
        Side::Short => base - impact_tokens,
    }
}

/// Execution price used when the requested size is zero: the conservative
/// oracle pick for the side.
pub open spec fn spec_zero_size_execution_price(side: Side, prices: OraclePrices) -> int {
    match side {
        Side::Long => prices.index_price_max as int,
        Side::Short => prices.index_price_min as int,
    }
}

/// High-level trait for pricing logic.
pub trait PricingService {
    /// Execution price and token delta for an increase of
    /// `params.size_delta_usd` USD, using `price_impact` for the curve.
    ///
    /// With a zero size the result is all-zero except for the oracle
    /// reference price. Otherwise the base token amount is adjusted by the
    /// impact tokens; a negative adjusted amount is rejected as
    /// `PriceImpactLargerThanOrderSize`, a zero one as
    /// `ZeroSizeTokensAfterImpact`, and a non-positive base price pick as
    /// `ZeroSizeDelta`. The execution price is the truncated quotient
    /// `size_delta_usd / size_delta_tokens`.
    fn get_execution_price_for_increase<P: PriceImpactService>(
        &self,
        price_impact: &P,
        params: ExecutionPriceIncreaseParams,
    ) -> (r: Result<ExecutionPriceIncreaseResult, PricingError>)
        requires
            params.oi.current.long_usd >= 0,
            params.oi.current.short_usd >= 0,
            params.oi.next.long_usd >= 0,
            params.oi.next.short_usd >= 0,
            params.size_delta_usd >= 0,
            params.size_delta_usd > 0 && spec_base_price_ok(params.side, params.prices)
                ==> i128::MIN <= spec_total_size_delta_tokens(
                params.side,
                spec_base_size_delta_tokens(
                    params.side,
                    params.size_delta_usd as int,
                    params.prices,
                ),
                spec_impact_amount_tokens(
                    spec_price_impact(params.oi, params.impact_cfg).0,
                    params.prices,
                ),
            ) <= i128::MAX,
        ensures
            params.size_delta_usd == 0 ==> r == Ok::<ExecutionPriceIncreaseResult, PricingError>(
                ExecutionPriceIncreaseResult {
                    price_impact_usd: 0,
                    price_impact_amount_tokens: 0,
                    base_size_delta_tokens: 0,
                    size_delta_tokens: 0,
                    execution_price: spec_zero_size_execution_price(
                        params.side,
                        params.prices,
                    ) as i128,
                    balance_was_improved: false,
                },
            ),
            params.size_delta_usd > 0 && !spec_base_price_ok(params.side, params.prices) ==> r
                == Err::<ExecutionPriceIncreaseResult, PricingError>(PricingError::ZeroSizeDelta),
            params.size_delta_usd > 0 && spec_base_price_ok(params.side, params.prices) ==> ({
                let impact = spec_price_impact(params.oi, params.impact_cfg).0;
                let improved = spec_price_impact(params.oi, params.impact_cfg).1;
                let impact_tokens = spec_impact_amount_tokens(impact, params.prices);
                let base = spec_base_size_delta_tokens(
                    params.side,
                    params.size_delta_usd as int,
                    params.prices,
                );
                let total = spec_total_size_delta_tokens(params.side, base, impact_tokens);
                if total < 0 {
                    r == Err::<ExecutionPriceIncreaseResult, PricingError>(
                        PricingError::PriceImpactLargerThanOrderSize {
                            price_impact_usd: impact as i128,
                            size_delta_usd: params.size_delta_usd,
                        },
                    )
                } else if total == 0 {
                    r == Err::<ExecutionPriceIncreaseResult, PricingError>(
                        PricingError::ZeroSizeTokensAfterImpact,
                    )
                } else {
                    r == Ok::<ExecutionPriceIncreaseResult, PricingError>(
                        ExecutionPriceIncreaseResult {
                            price_impact_usd: impact as i128,
                            price_impact_amount_tokens: impact_tokens as i128,
                            base_size_delta_tokens: base as i128,
                            size_delta_tokens: total as i128,
                            execution_price: (params.size_delta_usd as int / total) as i128,
                            balance_was_improved: improved,
                        },
                    )
                }
            }),
    ;
}

/// Basic implementation that uses a `PriceImpactService` inside.
#[derive(Default)]
pub struct BasicPricingService;

impl PricingService for BasicPricingService {
    fn get_execution_price_for_increase<P: PriceImpactService>(
        &self,
        price_impact: &P,
        params: ExecutionPriceIncreaseParams,
    ) -> (r: Result<ExecutionPriceIncreaseResult, PricingError>) {
        let side = params.side;
        let size_delta_usd = params.size_delta_usd;
        let prices = params.prices;

        if size_delta_usd == 0 {
            let execution_price = match side {
                Side::Long => prices.index_price_max,
                Side::Short => prices.index_price_min,
            };
            return Ok(
                ExecutionPriceIncreaseResult {
                    price_impact_usd: 0,
                    price_impact_amount_tokens: 0,
                    base_size_delta_tokens: 0,
                    size_delta_tokens: 0,
                    execution_price,
                    balance_was_improved: false,
                },
            );
        }
        let (price_impact_usd, balance_was_improved) = price_impact.compute_price_impact_usd(
            &params.oi,
            &params.impact_cfg,
        );
        proof {
            lemma_price_impact_in_i128(params.oi, params.impact_cfg);
        }
        let mut price_impact_amount_tokens: TokenAmount = 0;
        if price_impact_usd > 0 {
            let p_max = prices.index_price_max;
            if p_max > 0 {
                price_impact_amount_tokens = div_floor_u(price_impact_usd, p_max).unwrap();
            }
        } else if price_impact_usd < 0 {
            let p_min = prices.index_price_min;
            if p_min > 0 {
                let abs = -price_impact_usd;
                let ceil = div_ceil_u(abs, p_min).unwrap();
                proof {
                    vstd::arithmetic::div_mod::lemma_div_pos_is_pos(abs as int, p_min as int);
                }
                price_impact_amount_tokens = -ceil;
            }
        }
        let base_size_delta_tokens: TokenAmount = match side {
            Side::Long => {
                let p_max = prices.index_price_max;
                if p_max > 0 {
                    div_floor_u(size_delta_usd, p_max).unwrap()
                } else {
                    return Err(PricingError::ZeroSizeDelta);
                }
            },
            Side::Short => {
                let p_min = prices.index_price_min;
                if p_min > 0 {
                    div_ceil_u(size_delta_usd, p_min).unwrap()
                } else {
                    return Err(PricingError::ZeroSizeDelta);
                }
            },
        };
        let size_delta_tokens: TokenAmount = match side {
            Side::Long => base_size_delta_tokens + price_impact_amount_tokens,
            Side::Short => base_size_delta_tokens - price_impact_amount_tokens,
        };
        if size_delta_tokens < 0 {
            return Err(
                PricingError::PriceImpactLargerThanOrderSize { price_impact_usd, size_delta_usd },
            );
        }
        if size_delta_tokens == 0 {
            return Err(PricingError::ZeroSizeTokensAfterImpact);
        }
        let execution_price: Usd = div_floor_u(size_delta_usd, size_delta_tokens).unwrap();
        Ok(
            ExecutionPriceIncreaseResult {
                price_impact_usd,
                price_impact_amount_tokens,
                base_size_delta_tokens,
                size_delta_tokens,
                execution_price,
                balance_was_improved,
            },
        )
    }
}

} // verus!
