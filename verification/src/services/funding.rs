//! Funding: evolves per-side cumulative indices from the open-interest
//! imbalance, and settles per-position deltas against index snapshots.

use vstd::prelude::*;

use crate::math::rounding::trunc_div;
use crate::math::saturating::{sat_add_i128, sat_sub_i128, sat_mul_i128, spec_sat_i128};
use crate::state::market::{FundingState, MarketState};
use crate::state::position_store::Position;
use crate::types::{Side, Timestamp, Usd};

verus! {

/// Internal scale for the funding index: the index counts funding USD per
/// 1 USD of position, times this scale.
pub const FUNDING_INDEX_SCALE: i128 = 1_000_000;

/// Fixed absolute funding rate, in index units per second.
pub const FUNDING_RATE_PER_SEC: i128 = 10;

/// Result of funding settlement for a single position.
#[derive(Debug, Clone, Copy, PartialEq, Eq, Structural)]
pub struct FundingDelta {
    /// Positive means the position pays, negative means it receives.
    pub funding_fee_usd: Usd,
}

/// The market funding index for a position side.
pub open spec fn spec_current_index(market: MarketState, side: Side) -> int {
    match side {
        Side::Long => market.funding.cumulative_index_long as int,
        Side::Short => market.funding.cumulative_index_short as int,
    }
}

/// Market funding state after an index update at `now`: on first use the
/// timestamp is latched; afterwards, when time has passed and one side is
/// heavier, the heavy side's index rises and the light side's falls by
/// `rate * dt`, saturating.
pub open spec fn spec_update_indices(m: MarketState, now: Timestamp) -> MarketState {
    if m.funding.last_updated_at == 0 {
        MarketState { funding: FundingState { last_updated_at: now, ..m.funding }, ..m }
    } else if now <= m.funding.last_updated_at {
        m
    } else {
        let dt = now - m.funding.last_updated_at;
        let long_oi: int = if m.oi_long_usd > 0 {
            m.oi_long_usd as int
        } else {
            0
        };
        let short_oi: int = if m.oi_short_usd > 0 {
            m.oi_short_usd as int
        } else {
            0
        };
        if long_oi == 0 && short_oi == 0 {
            MarketState { funding: FundingState { last_updated_at: now, ..m.funding }, ..m }
        } else {
            let delta = FUNDING_RATE_PER_SEC * dt;
            if long_oi > short_oi {
                MarketState {
                    funding: FundingState {
                        cumulative_index_long: spec_sat_i128(
                            m.funding.cumulative_index_long + delta,
                        ) as i128,
                        cumulative_index_short: spec_sat_i128(
                            m.funding.cumulative_index_short - delta,
                        ) as i128,
                        last_updated_at: now,
                    },
                    ..m
                }
            } else if short_oi > long_oi {
                MarketState {
                    funding: FundingState {
                        cumulative_index_long: spec_sat_i128(
                            m.funding.cumulative_index_long - delta,
                        ) as i128,
                        cumulative_index_short: spec_sat_i128(
                            m.funding.cumulative_index_short + delta,
                        ) as i128,
                        last_updated_at: now,
                    },
                    ..m
                }
            } else {
                MarketState { funding: FundingState { last_updated_at: now, ..m.funding }, ..m }
            }
        }
    }
}

/// Funding fee in USD for a position of `size_usd` over an index delta:
/// `size_usd * delta / scale`, saturating the product and truncating the
/// quotient toward zero. Positive pays, negative receives.
pub open spec fn spec_funding_fee(size_usd: int, delta_idx: int) -> int {
    if delta_idx == 0 || size_usd == 0 {
        0
    } else {
        trunc_div(spec_sat_i128(size_usd * delta_idx), FUNDING_INDEX_SCALE as int)
    }
}

/// Funding service: evolves market funding indices over time and computes
/// per-position funding deltas from snapshots.
pub trait FundingService {
    /// Update market funding indices up to `now` from the OI imbalance.
    fn update_indices(&self, market: &mut MarketState, now: Timestamp)
        ensures
            *final(market) == spec_update_indices(*old(market), now),
    ;

    /// Settle the funding delta for a position against the market indices
    /// and advance the position's snapshot; returns the signed fee.
    fn settle_position_funding(&self, market: &MarketState, pos: &mut Position) -> (r: FundingDelta)
        requires
            i128::MIN <= spec_current_index(*market, old(pos).key.side) - old(
                pos,
            ).funding_index <= i128::MAX,
        ensures
            *final(pos) == (Position {
                funding_index: spec_current_index(*market, old(pos).key.side) as i128,
                ..*old(pos)
            }),
            r.funding_fee_usd == spec_funding_fee(
                old(pos).size_usd as int,
                spec_current_index(*market, old(pos).key.side) - old(pos).funding_index,
            ),
    ;
}

/// The cumulative funding index for the given position side.
pub fn current_index_for_side(market: &MarketState, side: Side) -> (r: i128)
    ensures
        r == spec_current_index(*market, side),
{
    match side {
        Side::Long => market.funding.cumulative_index_long,
        Side::Short => market.funding.cumulative_index_short,
    }
}

/// Basic implementation: a fixed absolute rate whose direction follows the
/// sign of the open-interest imbalance; the heavy side pays.
#[derive(Default)]
pub struct BasicFundingService;

impl FundingService for BasicFundingService {
    fn update_indices(&self, market: &mut MarketState, now: Timestamp) {
        if market.funding.last_updated_at == 0 {
            market.funding.last_updated_at = now;
            return ;
        }
        if now <= market.funding.last_updated_at {
            return ;
        }
        let dt: u64 = now - market.funding.last_updated_at;
        let long_oi = if market.oi_long_usd > 0 {
            market.oi_long_usd
        } else {
            0
        };
        let short_oi = if market.oi_short_usd > 0 {
            market.oi_short_usd
        } else {
            0
        };
        if long_oi == 0 && short_oi == 0 {
            market.funding.last_updated_at = now;
            return ;
        }
        let delta_index_fp = FUNDING_RATE_PER_SEC * (dt as i128);
        if long_oi > short_oi {
            market.funding.cumulative_index_long = sat_add_i128(
                market.funding.cumulative_index_long,
                delta_index_fp,
            );
            market.funding.cumulative_index_short = sat_sub_i128(
                market.funding.cumulative_index_short,
                delta_index_fp,
            );
        } else if short_oi > long_oi {
            market.funding.cumulative_index_long = sat_sub_i128(
                market.funding.cumulative_index_long,
                delta_index_fp,
            );
            market.funding.cumulative_index_short = sat_add_i128(
                market.funding.cumulative_index_short,
                delta_index_fp,
            );
        }
        market.funding.last_updated_at = now;
    }

    fn settle_position_funding(&self, market: &MarketState, pos: &mut Position) -> (r:
        FundingDelta) {
        let current_idx = current_index_for_side(market, pos.key.side);
        let prev_idx = pos.funding_index;
        let delta_idx = current_idx - prev_idx;
        if delta_idx == 0 || pos.size_usd == 0 {
            pos.funding_index = current_idx;
            return FundingDelta { funding_fee_usd: 0 };
        }
        let prod = sat_mul_i128(pos.size_usd, delta_idx);
        proof {
            crate::math::rounding::lemma_trunc_div_toward_zero(
                prod as int,
                FUNDING_INDEX_SCALE as int,
            );
            vstd::arithmetic::div_mod::lemma_div_is_ordered_by_denominator(
                vstd::math::abs(prod as int) as int,
                2,
                FUNDING_INDEX_SCALE as int,
            );
        }
        let fee = prod.checked_div(FUNDING_INDEX_SCALE).unwrap();
        pos.funding_index = current_idx;
        FundingDelta { funding_fee_usd: fee }
    }
}

/// The funding fee magnitude is far below the `i128` bounds: the scaled
/// product is clamped to the range and then shrunk by the scale.
pub proof fn lemma_funding_fee_bounds(size_usd: int, delta_idx: int)
    ensures
        -(i128::MAX as int) <= spec_funding_fee(size_usd, delta_idx) <= i128::MAX as int,
{
    if delta_idx != 0 && size_usd != 0 {
        let x = spec_sat_i128(size_usd * delta_idx);
        crate::math::rounding::lemma_trunc_div_toward_zero(x, FUNDING_INDEX_SCALE as int);
        vstd::arithmetic::div_mod::lemma_div_is_ordered_by_denominator(
            vstd::math::abs(x) as int,
            2,
            FUNDING_INDEX_SCALE as int,
        );
    }
}

/// Index symmetry law: an index update moves the two sides by equal and
/// opposite amounts, so the sum of the cumulative indices is preserved
/// whenever neither side's index saturates.
pub proof fn lemma_funding_index_sum_preserved(m: MarketState, now: Timestamp)
    requires
        ({
            let delta = if m.funding.last_updated_at != 0 && now > m.funding.last_updated_at {
                FUNDING_RATE_PER_SEC * (now - m.funding.last_updated_at)
            } else {
                0int
            };
            &&& i128::MIN <= m.funding.cumulative_index_long - delta
            &&& m.funding.cumulative_index_long + delta <= i128::MAX
            &&& i128::MIN <= m.funding.cumulative_index_short - delta
            &&& m.funding.cumulative_index_short + delta <= i128::MAX
        }),
    ensures
        spec_update_indices(m, now).funding.cumulative_index_long + spec_update_indices(
            m,
            now,
        ).funding.cumulative_index_short == m.funding.cumulative_index_long
            + m.funding.cumulative_index_short,
{
}

/// Funding conservation law: for one (size, index-delta) footprint, what
/// the payer side pays equals what the receiver side receives; the
/// truncating division is odd-symmetric, so the two fees cancel exactly
/// whenever the scaled product stays in range.
pub proof fn lemma_funding_conservation(size_usd: int, delta_idx: int)
    requires
        -(i128::MAX as int) <= size_usd * delta_idx <= i128::MAX as int,
    ensures
        spec_funding_fee(size_usd, delta_idx) + spec_funding_fee(size_usd, -delta_idx) == 0,
{
    if delta_idx != 0 && size_usd != 0 {
        assert(size_usd * (-delta_idx) == -(size_usd * delta_idx)) by (nonlinear_arith);
        crate::math::rounding::lemma_trunc_div_toward_zero(
            size_usd * delta_idx,
            FUNDING_INDEX_SCALE as int,
        );
    }
}

} // verus!
