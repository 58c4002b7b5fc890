//! Borrowing: evolves a single cumulative factor from pool utilization and
//! settles per-position borrowing cost against factor snapshots.

use vstd::prelude::*;

use crate::math::rounding::trunc_div;
use crate::math::saturating::{sat_add_i128, sat_mul_i128, spec_sat_i128};
use crate::state::market::{BorrowingState, MarketState};
use crate::state::pool_balances::PoolBalances;
use crate::state::position_store::Position;
use crate::types::{AssetId, MarketId, Timestamp, TokenAmount, Usd};

verus! {

/// Internal scale for the borrowing factor: factor per 1 USD of position,
/// times this scale.
pub const BORROW_INDEX_SCALE: i128 = 1_000_000;

/// Minimal borrowing rate at zero utilization, index units per second.
pub const BORROW_BASE_RATE_PER_SEC: i128 = 5;

/// How fast the rate grows with utilization, index units per second at
/// full utilization.
pub const BORROW_SLOPE_PER_SEC: i128 = 20;

/// Result of borrowing settlement for a position.
#[derive(Debug, Clone, Copy, PartialEq, Eq, Structural)]
pub struct BorrowingDelta {
    /// Borrowing is a pure cost: non-negative for well-formed positions.
    pub borrowing_fee_usd: Usd,
}

/// Pool utilization as a fixed point in `[0, scale]`:
/// `min(borrowed * scale / liquidity, scale)`, zero without liquidity.
pub open spec fn spec_utilization_fp(m: MarketState) -> int {
    let borrowed: int = if m.oi_long_usd + m.oi_short_usd > 0 {
        m.oi_long_usd + m.oi_short_usd
    } else {
        0
    };
    let liquidity: int = if m.liquidity_usd > 0 {
        m.liquidity_usd as int
    } else {
        0
    };
    if liquidity == 0 {
        0
    } else {
        let ratio = trunc_div(spec_sat_i128(borrowed * BORROW_INDEX_SCALE), liquidity);
        if ratio > BORROW_INDEX_SCALE {
            BORROW_INDEX_SCALE as int
        } else {
            ratio
        }
    }
}

/// Per-second borrowing rate: `base + slope * utilization / scale`,
/// saturating.
pub open spec fn spec_borrow_rate_per_sec(m: MarketState) -> int {
    spec_sat_i128(
        BORROW_BASE_RATE_PER_SEC + trunc_div(
            spec_sat_i128(BORROW_SLOPE_PER_SEC * spec_utilization_fp(m)),
            BORROW_INDEX_SCALE as int,
        ),
    )
}

/// Market borrowing state after an index update at `now`.
pub open spec fn spec_update_index(m: MarketState, now: Timestamp) -> MarketState {
    if m.borrowing.last_updated_at == 0 {
        MarketState { borrowing: BorrowingState { last_updated_at: now, ..m.borrowing }, ..m }
    } else if now <= m.borrowing.last_updated_at {
        m
    } else {
        let dt = now - m.borrowing.last_updated_at;
        let delta = spec_sat_i128(spec_borrow_rate_per_sec(m) * dt);
        MarketState {
            borrowing: BorrowingState {
                cumulative_factor: spec_sat_i128(m.borrowing.cumulative_factor + delta) as i128,
                last_updated_at: now,
            },
            ..m
        }
    }
}

/// Borrowing fee in USD for a position of `size_usd` over a factor delta:
/// zero when the delta is non-positive or the position empty, else
/// `size_usd * delta / scale`, saturating the product and truncating.
pub open spec fn spec_borrowing_fee(size_usd: int, delta_idx: int) -> int {
    if delta_idx <= 0 || size_usd == 0 {
        0
    } else {
        trunc_div(spec_sat_i128(size_usd * delta_idx), BORROW_INDEX_SCALE as int)
    }
}

/// Service for borrowing logic: evolves the market borrowing index over
/// time and computes what each position pays.
pub trait BorrowingService {
    /// Update the borrowing index for the market up to `now` from the
    /// current utilization. The cumulative factor never decreases.
    fn update_index(&self, market: &mut MarketState, now: Timestamp)
        requires
            i128::MIN <= old(market).oi_long_usd + old(market).oi_short_usd <= i128::MAX,
        ensures
            *final(market) == spec_update_index(*old(market), now),
            final(market).borrowing.cumulative_factor >= old(market).borrowing.cumulative_factor,
    ;

    /// Settle the borrowing fee for a position against the market factor
    /// and advance the position's snapshot.
    fn settle_position_borrowing(&self, market: &MarketState, pos: &mut Position) -> (r:
        BorrowingDelta)
        requires
            i128::MIN <= market.borrowing.cumulative_factor - old(pos).borrowing_index
                <= i128::MAX,
        ensures
            *final(pos) == (Position {
                borrowing_index: market.borrowing.cumulative_factor,
                ..*old(pos)
            }),
            r.borrowing_fee_usd == spec_borrowing_fee(
                old(pos).size_usd as int,
                market.borrowing.cumulative_factor - old(pos).borrowing_index,
            ),
            old(pos).size_usd >= 0 ==> r.borrowing_fee_usd >= 0,
    ;
}

/// Basic implementation: utilization is `(oi_long + oi_short) / liquidity`
/// and the rate is a simple linear function of it.
#[derive(Default)]
pub struct BasicBorrowingService;

impl BasicBorrowingService {
    /// Utilization as a fixed point in `[0, scale]`.
    pub fn compute_utilization_fp(market: &MarketState) -> (r: i128)
        requires
            i128::MIN <= market.oi_long_usd + market.oi_short_usd <= i128::MAX,
        ensures
            r == spec_utilization_fp(*market),
            0 <= r <= BORROW_INDEX_SCALE,
    {
        let sum = market.oi_long_usd + market.oi_short_usd;
        let borrowed = if sum > 0 {
            sum
        } else {
            0
        };
        let liquidity = if market.liquidity_usd > 0 {
            market.liquidity_usd
        } else {
            0
        };
        if liquidity == 0 {
            return 0;
        }
        let num = sat_mul_i128(borrowed, BORROW_INDEX_SCALE);
        proof {
            crate::math::rounding::lemma_trunc_div_toward_zero(num as int, liquidity as int);
            vstd::arithmetic::div_mod::lemma_div_nonincreasing(
                vstd::math::abs(num as int) as int,
                liquidity as int,
            );
        }
        let ratio_fp = num.checked_div(liquidity).unwrap();
        if ratio_fp > BORROW_INDEX_SCALE {
            BORROW_INDEX_SCALE
        } else {
            ratio_fp
        }
    }
}

impl BorrowingService for BasicBorrowingService {
    fn update_index(&self, market: &mut MarketState, now: Timestamp) {
        if market.borrowing.last_updated_at == 0 {
            market.borrowing.last_updated_at = now;
            return ;
        }
        if now <= market.borrowing.last_updated_at {
            return ;
        }
        let dt: u64 = now - market.borrowing.last_updated_at;
        let util_fp = Self::compute_utilization_fp(market);
        let scaled = sat_mul_i128(BORROW_SLOPE_PER_SEC, util_fp);
        proof {
            crate::math::rounding::lemma_trunc_div_toward_zero(
                scaled as int,
                BORROW_INDEX_SCALE as int,
            );
            vstd::arithmetic::div_mod::lemma_div_is_ordered_by_denominator(
                vstd::math::abs(scaled as int) as int,
                2,
                BORROW_INDEX_SCALE as int,
            );
            vstd::arithmetic::div_mod::lemma_div_pos_is_pos(
                vstd::math::abs(scaled as int) as int,
                BORROW_INDEX_SCALE as int,
            );
        }
        let slope_part = scaled.checked_div(BORROW_INDEX_SCALE).unwrap();
        let rate_per_sec_fp = sat_add_i128(BORROW_BASE_RATE_PER_SEC, slope_part);
        let delta_index_fp = sat_mul_i128(rate_per_sec_fp, dt as i128);
        proof {
            assert(rate_per_sec_fp as int * (dt as int) >= 0) by (nonlinear_arith)
                requires
                    rate_per_sec_fp >= 0,
                    dt >= 0,
            {
            }
        }
        market.borrowing.cumulative_factor = sat_add_i128(
            market.borrowing.cumulative_factor,
            delta_index_fp,
        );
        market.borrowing.last_updated_at = now;
    }

    fn settle_position_borrowing(&self, market: &MarketState, pos: &mut Position) -> (r:
        BorrowingDelta) {
        let current_idx = market.borrowing.cumulative_factor;
        let prev_idx = pos.borrowing_index;
        let delta_idx = current_idx - prev_idx;
        if delta_idx <= 0 || pos.size_usd == 0 {
            pos.borrowing_index = current_idx;
            return BorrowingDelta { borrowing_fee_usd: 0 };
        }
        let prod = sat_mul_i128(pos.size_usd, delta_idx);
        proof {
            crate::math::rounding::lemma_trunc_div_toward_zero(
                prod as int,
                BORROW_INDEX_SCALE as int,
            );
            vstd::arithmetic::div_mod::lemma_div_is_ordered_by_denominator(
                vstd::math::abs(prod as int) as int,
                2,
                BORROW_INDEX_SCALE as int,
            );
            if pos.size_usd > 0 {
                assert(pos.size_usd as int * delta_idx as int > 0) by (nonlinear_arith)
                    requires
                        pos.size_usd > 0,
                        delta_idx > 0,
                {
                }
                vstd::arithmetic::div_mod::lemma_div_pos_is_pos(
                    vstd::math::abs(prod as int) as int,
                    BORROW_INDEX_SCALE as int,
                );
            }
        }
        let fee = prod.checked_div(BORROW_INDEX_SCALE).unwrap();
        pos.borrowing_index = current_idx;
        BorrowingDelta { borrowing_fee_usd: fee }
    }
}

/// Borrowing monotonicity law: an index update never decreases the
/// cumulative factor, whatever `now` is.
pub proof fn lemma_borrowing_update_monotonic(m: MarketState, now: Timestamp)
    ensures
        spec_update_index(m, now).borrowing.cumulative_factor >= m.borrowing.cumulative_factor,
{
    if m.borrowing.last_updated_at != 0 && now > m.borrowing.last_updated_at {
        let dt = now - m.borrowing.last_updated_at;
        let util = spec_utilization_fp(m);
        assert(util >= 0) by {
            if m.liquidity_usd > 0 {
                let borrowed: int = if m.oi_long_usd + m.oi_short_usd > 0 {
                    m.oi_long_usd + m.oi_short_usd
                } else {
                    0
                };
                vstd::arithmetic::mul::lemma_mul_nonnegative(borrowed, BORROW_INDEX_SCALE as int);
                crate::math::rounding::lemma_trunc_div_toward_zero(
                    spec_sat_i128(borrowed * BORROW_INDEX_SCALE),
                    m.liquidity_usd as int,
                );
                vstd::arithmetic::div_mod::lemma_div_pos_is_pos(
                    vstd::math::abs(spec_sat_i128(borrowed * BORROW_INDEX_SCALE)) as int,
                    m.liquidity_usd as int,
                );
            }
        }
        let scaled = spec_sat_i128(BORROW_SLOPE_PER_SEC * util);
        assert(BORROW_SLOPE_PER_SEC as int * util >= 0) by (nonlinear_arith)
            requires
                util >= 0,
        {
        }
        crate::math::rounding::lemma_trunc_div_toward_zero(scaled, BORROW_INDEX_SCALE as int);
        vstd::arithmetic::div_mod::lemma_div_pos_is_pos(
            vstd::math::abs(scaled) as int,
            BORROW_INDEX_SCALE as int,
        );
        let rate = spec_borrow_rate_per_sec(m);
        assert(rate >= 0);
        assert(rate * dt >= 0) by (nonlinear_arith)
            requires
                rate >= 0,
                dt >= 0,
        {
        }
    }
}

/// Route borrowing fees (already converted to collateral tokens) to the
/// pool of (market, collateral token).
pub fn apply_borrowing_fees_to_pool(
    pools: &mut PoolBalances,
    market_id: MarketId,
    collateral_token: AssetId,
    borrowing_tokens: TokenAmount,
)
    requires
        old(pools).wf(),
        borrowing_tokens >= 0,
    ensures
        final(pools).wf(),
        final(pools)@ == old(pools)@.insert(
            (market_id, collateral_token),
            spec_sat_i128(old(pools)@[(market_id, collateral_token)] + borrowing_tokens) as i128,
        ),
{
    if borrowing_tokens == 0 {
        proof {
            old(pools).lemma_view_total();
            assert(old(pools)@.insert(
                (market_id, collateral_token),
                old(pools)@[(market_id, collateral_token)],
            ) =~= old(pools)@);
        }
        return ;
    }
    pools.add_fee_to_pool(market_id, collateral_token, borrowing_tokens);
}

} // verus!
