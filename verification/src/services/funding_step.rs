//! Applying funding to a single position on a single step: payer-side
//! costs are returned, receiver-side rewards are minted as claimables.

use vstd::prelude::*;

use crate::math::saturating::spec_sat_i128;
use crate::services::funding::{spec_current_index, spec_funding_fee, FundingService};
use crate::state::claimables::Claimables;
use crate::state::market::MarketState;
use crate::state::position_store::Position;
use crate::types::{DomainError, OraclePrices, TokenAmount, Usd};

verus! {

/// Result of applying funding for a single position on a single step.
#[derive(Debug, Clone, Copy, PartialEq, Eq, Structural)]
pub struct FundingStep {
    /// How much funding the position must pay in USD; always non-negative.
    pub cost_usd: Usd,
}

/// Tokens credited to the receiver side for a negative funding fee:
/// `(-fee) / collateral_price_min`, truncated.
pub open spec fn spec_funding_reward_tokens(fee_usd: int, collateral_price_min: int) -> int {
    (-fee_usd) / collateral_price_min
}

/// Apply funding for a single position: settle the funding delta (which
/// advances the position's index snapshot), then either return the fee as
/// a positive cost, or mint the reward as funding claimables in the
/// position's collateral token and return zero cost.
///
/// Fails with `InvalidCollateralPriceMin` when a reward must be converted
/// but the collateral price is non-positive; the snapshot stays advanced.
pub fn apply_funding_step<F: FundingService>(
    funding_svc: &F,
    market: &MarketState,
    pos: &mut Position,
    claimables: &mut Claimables,
    prices: &OraclePrices,
) -> (r: Result<FundingStep, DomainError>)
    requires
        old(claimables).wf(),
        i128::MIN <= spec_current_index(*market, old(pos).key.side) - old(pos).funding_index
            <= i128::MAX,
    ensures
        final(claimables).wf(),
        *final(pos) == (Position {
            funding_index: spec_current_index(*market, old(pos).key.side) as i128,
            ..*old(pos)
        }),
        final(claimables).fees_view() == old(claimables).fees_view(),
        ({
            let fee = spec_funding_fee(
                old(pos).size_usd as int,
                spec_current_index(*market, old(pos).key.side) - old(pos).funding_index,
            );
            if fee >= 0 {
                r == Ok::<FundingStep, DomainError>(FundingStep { cost_usd: fee as i128 })
                    && final(claimables).funding_view() == old(claimables).funding_view()
            } else if prices.collateral_price_min <= 0 {
                r == Err::<FundingStep, DomainError>(DomainError::InvalidCollateralPriceMin)
                    && final(claimables).funding_view() == old(claimables).funding_view()
            } else {
                let reward_tokens = spec_funding_reward_tokens(
                    fee,
                    prices.collateral_price_min as int,
                );
                r == Ok::<FundingStep, DomainError>(FundingStep { cost_usd: 0 })
                    && final(claimables).funding_view() == (if reward_tokens > 0 {
                    old(claimables).funding_view().insert(
                        (old(pos).key.account, old(pos).key.collateral_token),
                        spec_sat_i128(
                            old(claimables).funding_view()[(old(pos).key.account, old(
                                pos,
                            ).key.collateral_token)] + reward_tokens,
                        ) as i128,
                    )
                } else {
                    old(claimables).funding_view()
                })
            }
        }),
{
    let account = pos.key.account;
    let collateral_token = pos.key.collateral_token;
    let delta = funding_svc.settle_position_funding(market, pos);
    let fee_usd = delta.funding_fee_usd;
    if fee_usd == 0 {
        return Ok(FundingStep { cost_usd: 0 });
    }
    if fee_usd > 0 {
        return Ok(FundingStep { cost_usd: fee_usd });
    }
    if prices.collateral_price_min <= 0 {
        return Err(DomainError::InvalidCollateralPriceMin);
    }
    proof {
        crate::services::funding::lemma_funding_fee_bounds(
            old(pos).size_usd as int,
            spec_current_index(*market, old(pos).key.side) - old(pos).funding_index,
        );
    }
    let reward_usd: Usd = -fee_usd;
    proof {
        vstd::arithmetic::div_mod::lemma_div_pos_is_pos(
            reward_usd as int,
            prices.collateral_price_min as int,
        );
        vstd::arithmetic::div_mod::lemma_div_nonincreasing(
            reward_usd as int,
            prices.collateral_price_min as int,
        );
    }
    let reward_tokens: TokenAmount = reward_usd.checked_div(prices.collateral_price_min).unwrap();
    if reward_tokens > 0 {
        claimables.add_funding(account, collateral_token, reward_tokens);
    }
    Ok(FundingStep { cost_usd: 0 })
}

} // verus!
