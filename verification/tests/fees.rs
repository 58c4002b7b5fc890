use perp_core::services::fees::{BasicFeesService, FeesService, StepFees};
use perp_core::state::claimables::Claimables;
use perp_core::state::pool_balances::PoolBalances;
use perp_core::state::position_store::{Position, PositionKey};
use perp_core::types::{
    AccountId, AssetId, MarketId, OraclePrices, Order, OrderType, Side,
};

fn mk_pos() -> Position {
    Position {
        key: PositionKey {
            account: AccountId([5u8; 32]),
            market_id: MarketId(4),
            collateral_token: AssetId(8),
            side: Side::Long,
        },
        size_usd: 100_000,
        size_tokens: 100,
        collateral_amount: 10_000,
        pending_impact_tokens: 0,
        funding_index: 0,
        borrowing_index: 0,
        opened_at: 0,
        last_updated_at: 0,
    }
}

fn mk_order(order_type: OrderType) -> Order {
    Order {
        account: AccountId([5u8; 32]),
        market_id: MarketId(4),
        collateral_token: AssetId(8),
        side: Side::Long,
        order_type,
        collateral_delta_tokens: 0,
        size_delta_usd: 0,
        withdraw_collateral_amount: 0,
        target_leverage_x: 0,
        created_at: 0,
        valid_from: 0,
        valid_until: 0,
    }
}

fn mk_prices(cmin: i128) -> OraclePrices {
    OraclePrices {
        index_price_min: 1_000,
        index_price_max: 1_000,
        collateral_price_min: cmin,
        collateral_price_max: cmin,
    }
}

fn svc() -> BasicFeesService {
    BasicFeesService::new(30, 20, 50, 50)
}

#[test]
fn position_fee_uses_bps_for_the_order_type() {
    let fees = svc();
    // Increase at 30 bps on 10_000 notional: 30 USD, 3 tokens at price 10.
    let f = fees.compute_fees(&mk_pos(), &mk_order(OrderType::Increase), &mk_prices(10), false, 10_000);
    assert_eq!(f.position_fee_usd, 30);
    assert_eq!(f.position_fee_tokens, 3);
    assert_eq!(f.liquidation_fee_usd, 0);
    assert_eq!(f.liquidation_fee_tokens, 0);
    assert_eq!(f.market_id, MarketId(4));
    assert_eq!(f.fee_asset, AssetId(8));
    // Decrease at 20 bps.
    let g = fees.compute_fees(&mk_pos(), &mk_order(OrderType::Decrease), &mk_prices(10), false, 10_000);
    assert_eq!(g.position_fee_usd, 20);
}

#[test]
fn helpful_trades_get_the_rebate() {
    let fees = svc();
    // 30 bps with a 50% rebate: effective 15 bps -> 15 USD on 10_000.
    let f = fees.compute_fees(&mk_pos(), &mk_order(OrderType::Increase), &mk_prices(10), true, 10_000);
    assert_eq!(f.position_fee_usd, 15);
    assert_eq!(f.position_fee_tokens, 1);
}

#[test]
fn liquidation_orders_pay_only_the_liquidation_fee() {
    let fees = svc();
    let f = fees.compute_fees(&mk_pos(), &mk_order(OrderType::Liquidation), &mk_prices(10), false, 10_000);
    assert_eq!(f.position_fee_usd, 0);
    // 50 bps on 10_000: 50 USD, 5 tokens.
    assert_eq!(f.liquidation_fee_usd, 50);
    assert_eq!(f.liquidation_fee_tokens, 5);
}

#[test]
fn negative_size_delta_is_charged_on_its_magnitude() {
    let fees = svc();
    let f = fees.compute_fees(&mk_pos(), &mk_order(OrderType::Increase), &mk_prices(10), false, -10_000);
    assert_eq!(f.position_fee_usd, 30);
}

#[test]
fn non_positive_collateral_price_routes_no_tokens() {
    let fees = svc();
    let f = fees.compute_fees(&mk_pos(), &mk_order(OrderType::Increase), &mk_prices(0), false, 10_000);
    assert_eq!(f.position_fee_usd, 30);
    assert_eq!(f.position_fee_tokens, 0);
}

#[test]
fn apply_fees_routes_token_total_to_the_pool() {
    let fees = svc();
    let mut pools = PoolBalances::new();
    let mut claim = Claimables::new();
    let step = StepFees {
        position_fee_usd: 30,
        position_fee_tokens: 3,
        liquidation_fee_usd: 50,
        liquidation_fee_tokens: 5,
        market_id: MarketId(4),
        fee_asset: AssetId(8),
    };
    fees.apply_fees(&mut pools, &mut claim, &step);
    assert_eq!(pools.get_balance(MarketId(4), AssetId(8)), 8);
    // A zero step is a no-op.
    let zero = StepFees { position_fee_tokens: 0, liquidation_fee_tokens: 0, ..step };
    fees.apply_fees(&mut pools, &mut claim, &zero);
    assert_eq!(pools.get_balance(MarketId(4), AssetId(8)), 8);
}
