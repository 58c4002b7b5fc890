//! Per-step trading and liquidation fees in basis points, with a rebate
//! for trades that improve the open-interest balance.

use vstd::prelude::*;

use crate::math::saturating::spec_sat_i128;
use crate::state::claimables::Claimables;
use crate::state::pool_balances::PoolBalances;
use crate::state::position_store::Position;
use crate::types::{AssetId, MarketId, OraclePrices, Order, OrderType, TokenAmount, Usd};

verus! {

/// Per-step trading fees for a single position change.
#[derive(Debug, Clone, Copy, PartialEq, Eq, Structural)]
pub struct StepFees {
    pub position_fee_usd: Usd,
    pub position_fee_tokens: TokenAmount,
    pub liquidation_fee_usd: Usd,
    pub liquidation_fee_tokens: TokenAmount,
    pub market_id: MarketId,
    pub fee_asset: AssetId,
}

/// High-level interface for fee calculation and distribution, used for
/// increase, decrease and liquidation steps alike.
pub trait FeesService {
    /// What `compute_fees` returns, fixed by the implementation.
    spec fn spec_compute_fees(
        &self,
        pos: Position,
        order: Order,
        prices: OraclePrices,
        balance_was_improved: bool,
        size_delta_usd: Usd,
    ) -> StepFees;

    /// What `compute_fees` needs of its inputs, fixed by the
    /// implementation (bounds that keep the fee math in range).
    spec fn compute_fees_req(&self, order: Order, size_delta_usd: Usd) -> bool;

    /// Compute position and liquidation fees for a single step.
    /// `balance_was_improved` comes from the price-impact service.
    fn compute_fees(
        &self,
        pos: &Position,
        order: &Order,
        prices: &OraclePrices,
        balance_was_improved: bool,
        size_delta_usd: Usd,
    ) -> (r: StepFees)
        requires
            self.compute_fees_req(*order, size_delta_usd),
        ensures
            r == self.spec_compute_fees(
                *pos,
                *order,
                *prices,
                balance_was_improved,
                size_delta_usd,
            ),
    ;

    /// Route the computed fee tokens to the pool of (market, fee asset).
    /// Claimables are reserved for future referral / rebate routing and
    /// are left untouched.
    fn apply_fees(
        &self,
        pools: &mut PoolBalances,
        claimables: &mut Claimables,
        step_fees: &StepFees,
    )
        requires
            old(pools).wf(),
            step_fees.position_fee_tokens >= 0,
            step_fees.liquidation_fee_tokens >= 0,
            step_fees.position_fee_tokens + step_fees.liquidation_fee_tokens <= i128::MAX,
        ensures
            final(pools).wf(),
            final(pools)@ == old(pools)@.insert(
                (step_fees.market_id, step_fees.fee_asset),
                spec_sat_i128(
                    old(pools)@[(step_fees.market_id, step_fees.fee_asset)]
                        + step_fees.position_fee_tokens + step_fees.liquidation_fee_tokens,
                ) as i128,
            ),
            *final(claimables) == *old(claimables),
    ;
}

/// Basic fee schedule: flat bps per order type, a percentage rebate on the
/// position fee for balance-improving trades, and a liquidation fee that
/// applies to liquidation orders only.
#[derive(Debug, Clone, Copy, Default)]
pub struct BasicFeesService {
    /// Trading fee in basis points (e.g. 10 = 0.1%, 30 = 0.3%).
    pub position_fee_bps_increase: u32,
    pub position_fee_bps_decrease: u32,
    pub liquidation_fee_bps: u32,
    /// Percent discount on the position fee (plain percent, not bps) when
    /// the trade improves the OI balance.
    pub helpful_rebate_percent: u32,
}

/// The base position-fee bps for an order type; liquidations pay no
/// position fee.
pub open spec fn spec_base_position_fee_bps(cfg: BasicFeesService, order_type: OrderType) -> u32 {
    match order_type {
        OrderType::Increase => cfg.position_fee_bps_increase,
        OrderType::Decrease => cfg.position_fee_bps_decrease,
        OrderType::Liquidation => 0u32,
    }
}

/// The effective position-fee bps after the helpful-trade rebate:
/// `base * (100 - rebate) / 100`, truncating, with the product saturating
/// in `u32`.
pub open spec fn spec_effective_position_fee_bps(
    cfg: BasicFeesService,
    order_type: OrderType,
    balance_was_improved: bool,
) -> int {
    let bps = spec_base_position_fee_bps(cfg, order_type) as int;
    if balance_was_improved && bps > 0 && cfg.helpful_rebate_percent > 0 {
        (if bps * (100 - cfg.helpful_rebate_percent) > u32::MAX {
            u32::MAX as int
        } else {
            bps * (100 - cfg.helpful_rebate_percent)
        }) / 100
    } else {
        bps
    }
}

/// The absolute value of the requested size delta.
pub open spec fn spec_notional(size_delta_usd: int) -> int {
    if size_delta_usd < 0 {
        -size_delta_usd
    } else {
        size_delta_usd
    }
}

/// Fee USD converted to collateral tokens by truncating division with the
/// minimum collateral price; zero when the price is non-positive.
pub open spec fn spec_fee_tokens(fee_usd: int, collateral_price_min: int) -> int {
    if collateral_price_min > 0 {
        fee_usd / collateral_price_min
    } else {
        0
    }
}

/// The fees the basic schedule charges for one step.
pub open spec fn spec_basic_fees(
    cfg: BasicFeesService,
    pos: Position,
    order: Order,
    prices: OraclePrices,
    balance_was_improved: bool,
    size_delta_usd: Usd,
) -> StepFees {
    let notional = spec_notional(size_delta_usd as int);
    let position_fee_usd = notional * spec_effective_position_fee_bps(
        cfg,
        order.order_type,
        balance_was_improved,
    ) / 10000;
    let liquidation_fee_usd: int = if order.order_type == OrderType::Liquidation {
        notional * cfg.liquidation_fee_bps / 10000
    } else {
        0
    };
    StepFees {
        position_fee_usd: position_fee_usd as i128,
        position_fee_tokens: spec_fee_tokens(
            position_fee_usd,
            prices.collateral_price_min as int,
        ) as i128,
        liquidation_fee_usd: liquidation_fee_usd as i128,
        liquidation_fee_tokens: spec_fee_tokens(
            liquidation_fee_usd,
            prices.collateral_price_min as int,
        ) as i128,
        market_id: pos.key.market_id,
        fee_asset: pos.key.collateral_token,
    }
}

impl BasicFeesService {
    pub fn new(
        increase_bps: u32,
        decrease_bps: u32,
        liquidation_bps: u32,
        helpful_rebate_percent: u32,
    ) -> (r: BasicFeesService)
        ensures
            r == (BasicFeesService {
                position_fee_bps_increase: increase_bps,
                position_fee_bps_decrease: decrease_bps,
                liquidation_fee_bps: liquidation_bps,
                helpful_rebate_percent,
            }),
    {
        BasicFeesService {
            position_fee_bps_increase: increase_bps,
            position_fee_bps_decrease: decrease_bps,
            liquidation_fee_bps: liquidation_bps,
            helpful_rebate_percent,
        }
    }

    fn base_position_fee_bps(&self, order_type: OrderType) -> (r: u32)
        ensures
            r == spec_base_position_fee_bps(*self, order_type),
    {
        match order_type {
            OrderType::Increase => self.position_fee_bps_increase,
            OrderType::Decrease => self.position_fee_bps_decrease,
            OrderType::Liquidation => 0,
        }
    }
}

impl FeesService for BasicFeesService {
    open spec fn spec_compute_fees(
        &self,
        pos: Position,
        order: Order,
        prices: OraclePrices,
        balance_was_improved: bool,
        size_delta_usd: Usd,
    ) -> StepFees {
        spec_basic_fees(*self, pos, order, prices, balance_was_improved, size_delta_usd)
    }

    open spec fn compute_fees_req(&self, order: Order, size_delta_usd: Usd) -> bool {
        &&& size_delta_usd > i128::MIN
        &&& self.helpful_rebate_percent <= 100
        &&& spec_notional(size_delta_usd as int) * spec_base_position_fee_bps(
            *self,
            order.order_type,
        ) <= i128::MAX
        &&& spec_notional(size_delta_usd as int) * self.liquidation_fee_bps <= i128::MAX
    }

    fn compute_fees(
        &self,
        pos: &Position,
        order: &Order,
        prices: &OraclePrices,
        balance_was_improved: bool,
        size_delta_usd: Usd,
    ) -> (r: StepFees) {
        let notional_usd: Usd = if size_delta_usd < 0 {
            -size_delta_usd
        } else {
            size_delta_usd
        };
        let mut pos_bps = self.base_position_fee_bps(order.order_type);
        let ghost base_bps = pos_bps;
        if balance_was_improved && pos_bps > 0 && self.helpful_rebate_percent > 0 {
            pos_bps = match pos_bps.checked_mul(100 - self.helpful_rebate_percent) {
                Some(v) => v / 100,
                None => u32::MAX / 100,
            };
            proof {
                assert(pos_bps <= base_bps) by (nonlinear_arith)
                    requires
                        pos_bps == (if base_bps as int * (100 - self.helpful_rebate_percent)
                            > u32::MAX {
                            u32::MAX as int
                        } else {
                            base_bps as int * (100 - self.helpful_rebate_percent)
                        }) / 100,
                        base_bps > 0,
                        0 < self.helpful_rebate_percent <= 100,
                        base_bps <= u32::MAX,
                {
                }
            }
        }
        proof {
            assert(notional_usd as int * pos_bps as int <= notional_usd as int * base_bps as int)
                by (nonlinear_arith)
                requires
                    notional_usd >= 0,
                    0 <= pos_bps <= base_bps,
            {
            }
            vstd::arithmetic::mul::lemma_mul_nonnegative(notional_usd as int, pos_bps as int);
        }
        let fee_prod = notional_usd.checked_mul(pos_bps as i128).unwrap();
        proof {
            vstd::arithmetic::div_mod::lemma_div_pos_is_pos(fee_prod as int, 10000int);
            vstd::arithmetic::div_mod::lemma_div_nonincreasing(fee_prod as int, 10000int);
        }
        let position_fee_usd: Usd = fee_prod.checked_div(10_000).unwrap();
        let liquidation_fee_usd: Usd = if order.order_type == OrderType::Liquidation {
            proof {
                vstd::arithmetic::mul::lemma_mul_nonnegative(
                    notional_usd as int,
                    self.liquidation_fee_bps as int,
                );
            }
            let liq_prod = notional_usd.checked_mul(self.liquidation_fee_bps as i128).unwrap();
            proof {
                vstd::arithmetic::div_mod::lemma_div_pos_is_pos(liq_prod as int, 10000int);
                vstd::arithmetic::div_mod::lemma_div_nonincreasing(liq_prod as int, 10000int);
            }
            liq_prod.checked_div(10_000).unwrap()
        } else {
            0
        };
        let p = prices.collateral_price_min;
        let (position_fee_tokens, liquidation_fee_tokens): (TokenAmount, TokenAmount) = if p > 0 {
            proof {
                vstd::arithmetic::div_mod::lemma_div_pos_is_pos(position_fee_usd as int, p as int);
                vstd::arithmetic::div_mod::lemma_div_nonincreasing(
                    position_fee_usd as int,
                    p as int,
                );
                vstd::arithmetic::div_mod::lemma_div_pos_is_pos(
                    liquidation_fee_usd as int,
                    p as int,
                );
                vstd::arithmetic::div_mod::lemma_div_nonincreasing(
                    liquidation_fee_usd as int,
                    p as int,
                );
            }
            (position_fee_usd.checked_div(p).unwrap(), liquidation_fee_usd.checked_div(p).unwrap())
        } else {
            (0, 0)
        };
        StepFees {
            position_fee_usd,
            position_fee_tokens,
            liquidation_fee_usd,
            liquidation_fee_tokens,
            market_id: pos.key.market_id,
            fee_asset: pos.key.collateral_token,
        }
    }

    fn apply_fees(
        &self,
        pools: &mut PoolBalances,
        claimables: &mut Claimables,
        step_fees: &StepFees,
    ) {
        let total_fee_tokens = step_fees.position_fee_tokens + step_fees.liquidation_fee_tokens;
        if total_fee_tokens == 0 {
            proof {
                old(pools).lemma_view_total();
                assert(old(pools)@.insert(
                    (step_fees.market_id, step_fees.fee_asset),
                    old(pools)@[(step_fees.market_id, step_fees.fee_asset)],
                ) =~= old(pools)@);
            }
            return ;
        }
        pools.add_fee_to_pool(step_fees.market_id, step_fees.fee_asset, total_fee_tokens);
    }
}

} // verus!
