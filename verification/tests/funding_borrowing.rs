use perp_core::services::borrowing::{
    apply_borrowing_fees_to_pool, BasicBorrowingService, BorrowingService, BORROW_INDEX_SCALE,
};
use perp_core::services::borrowing_step::apply_borrowing_step;
use perp_core::services::funding::{BasicFundingService, FundingService, FUNDING_INDEX_SCALE};
use perp_core::services::funding_step::apply_funding_step;
use perp_core::state::claimables::Claimables;
use perp_core::state::market::MarketState;
use perp_core::state::pool_balances::PoolBalances;
use perp_core::state::position_store::{Position, PositionKey};
use perp_core::types::{AccountId, AssetId, DomainError, MarketId, OraclePrices, Side};

fn mk_market(oi_long: i128, oi_short: i128, liquidity: i128) -> MarketState {
    let mut m = MarketState::default();
    m.oi_long_usd = oi_long;
    m.oi_short_usd = oi_short;
    m.liquidity_usd = liquidity;
    m
}

fn mk_pos(side: Side, size_usd: i128) -> Position {
    Position {
        key: PositionKey {
            account: AccountId([3u8; 32]),
            market_id: MarketId(1),
            collateral_token: AssetId(2),
            side,
        },
        size_usd,
        size_tokens: 0,
        collateral_amount: 0,
        pending_impact_tokens: 0,
        funding_index: 0,
        borrowing_index: 0,
        opened_at: 0,
        last_updated_at: 0,
    }
}

fn mk_prices(cmin: i128) -> OraclePrices {
    OraclePrices {
        index_price_min: 1_000,
        index_price_max: 1_000,
        collateral_price_min: cmin,
        collateral_price_max: cmin,
    }
}

#[test]
fn funding_first_update_only_latches_the_clock() {
    let svc = BasicFundingService::default();
    let mut m = mk_market(100, 0, 0);
    svc.update_indices(&mut m, 1_000);
    assert_eq!(m.funding.last_updated_at, 1_000);
    assert_eq!(m.funding.cumulative_index_long, 0);
    assert_eq!(m.funding.cumulative_index_short, 0);
}

#[test]
fn funding_long_heavy_market_moves_indices_apart() {
    let svc = BasicFundingService::default();
    let mut m = mk_market(150_000, 50_000, 0);
    svc.update_indices(&mut m, 1_000);
    svc.update_indices(&mut m, 1_010);
    // rate 10 per second over 10 seconds: longs pay, shorts receive.
    assert_eq!(m.funding.cumulative_index_long, 100);
    assert_eq!(m.funding.cumulative_index_short, -100);
    assert_eq!(m.funding.last_updated_at, 1_010);
}

#[test]
fn funding_balanced_or_empty_market_moves_nothing() {
    let svc = BasicFundingService::default();
    let mut m = mk_market(70_000, 70_000, 0);
    svc.update_indices(&mut m, 1_000);
    svc.update_indices(&mut m, 2_000);
    assert_eq!(m.funding.cumulative_index_long, 0);
    assert_eq!(m.funding.cumulative_index_short, 0);

    let mut empty = mk_market(0, 0, 0);
    svc.update_indices(&mut empty, 1_000);
    svc.update_indices(&mut empty, 2_000);
    assert_eq!(empty.funding.cumulative_index_long, 0);
    assert_eq!(empty.funding.last_updated_at, 2_000);
}

#[test]
fn funding_settlement_is_conserved_between_the_sides() {
    let svc = BasicFundingService::default();
    let mut m = mk_market(150_000, 50_000, 0);
    svc.update_indices(&mut m, 1_000);
    svc.update_indices(&mut m, 1_007);
    // Indices are now +70 / -70.
    let mut long = mk_pos(Side::Long, 1_234_567);
    let mut short = mk_pos(Side::Short, 1_234_567);
    let fee_long = svc.settle_position_funding(&m, &mut long).funding_fee_usd;
    let fee_short = svc.settle_position_funding(&m, &mut short).funding_fee_usd;
    // size * 70 / 1_000_000, truncated toward zero on both sides.
    assert_eq!(fee_long, 1_234_567 * 70 / FUNDING_INDEX_SCALE);
    assert_eq!(fee_long + fee_short, 0);
    assert_eq!(long.funding_index, 70);
    assert_eq!(short.funding_index, -70);
}

#[test]
fn funding_step_charges_the_payer_side() {
    let svc = BasicFundingService::default();
    let mut m = mk_market(150_000, 50_000, 0);
    svc.update_indices(&mut m, 1_000);
    svc.update_indices(&mut m, 2_000);
    // Long index +10_000: a 1_000_000 position pays 10_000 USD.
    let mut pos = mk_pos(Side::Long, 1_000_000);
    let mut claim = Claimables::new();
    let step = apply_funding_step(&svc, &m, &mut pos, &mut claim, &mk_prices(100)).unwrap();
    assert_eq!(step.cost_usd, 10_000);
    assert_eq!(claim.get_funding(pos.key.account, pos.key.collateral_token), 0);
}

#[test]
fn funding_step_mints_claimables_for_the_receiver_side() {
    let svc = BasicFundingService::default();
    let mut m = mk_market(150_000, 50_000, 0);
    svc.update_indices(&mut m, 1_000);
    svc.update_indices(&mut m, 2_000);
    // Short index -10_000: a 1_000_000 short receives 10_000 USD,
    // credited as 10_000 / 100 = 100 collateral tokens.
    let mut pos = mk_pos(Side::Short, 1_000_000);
    let mut claim = Claimables::new();
    let step = apply_funding_step(&svc, &m, &mut pos, &mut claim, &mk_prices(100)).unwrap();
    assert_eq!(step.cost_usd, 0);
    assert_eq!(claim.get_funding(pos.key.account, pos.key.collateral_token), 100);
    assert_eq!(pos.funding_index, -10_000);
}

#[test]
fn funding_step_rejects_bad_price_on_receiver_side() {
    let svc = BasicFundingService::default();
    let mut m = mk_market(150_000, 50_000, 0);
    svc.update_indices(&mut m, 1_000);
    svc.update_indices(&mut m, 2_000);
    let mut pos = mk_pos(Side::Short, 1_000_000);
    let mut claim = Claimables::new();
    let r = apply_funding_step(&svc, &m, &mut pos, &mut claim, &mk_prices(0));
    assert_eq!(r, Err(DomainError::InvalidCollateralPriceMin));
}

#[test]
fn borrowing_factor_is_monotonic_and_utilization_capped() {
    let svc = BasicBorrowingService::default();
    // Over-utilized market: utilization caps at 1.0, rate = 5 + 20 = 25.
    let mut m = mk_market(300_000, 300_000, 100_000);
    assert_eq!(BasicBorrowingService::compute_utilization_fp(&m), BORROW_INDEX_SCALE);
    svc.update_index(&mut m, 1_000);
    let f0 = m.borrowing.cumulative_factor;
    svc.update_index(&mut m, 1_010);
    let f1 = m.borrowing.cumulative_factor;
    svc.update_index(&mut m, 1_010);
    let f2 = m.borrowing.cumulative_factor;
    assert_eq!(f0, 0);
    assert_eq!(f1, 250);
    assert!(f1 >= f0 && f2 == f1);
}

#[test]
fn borrowing_rate_scales_with_utilization() {
    let svc = BasicBorrowingService::default();
    // Half-utilized: utilization 0.5, rate = 5 + 10 = 15.
    let mut m = mk_market(200_000, 300_000, 1_000_000);
    assert_eq!(
        BasicBorrowingService::compute_utilization_fp(&m),
        BORROW_INDEX_SCALE / 2
    );
    svc.update_index(&mut m, 1_000);
    svc.update_index(&mut m, 1_100);
    assert_eq!(m.borrowing.cumulative_factor, 1_500);
}

#[test]
fn borrowing_settlement_charges_the_factor_delta() {
    let svc = BasicBorrowingService::default();
    let mut m = mk_market(0, 0, 0);
    m.borrowing.cumulative_factor = 2_000_000;
    m.borrowing.last_updated_at = 1;
    let mut pos = mk_pos(Side::Long, 500);
    pos.borrowing_index = 1_000_000;
    // 500 * 1_000_000 / 1_000_000 = 500 USD.
    let d = svc.settle_position_borrowing(&m, &mut pos);
    assert_eq!(d.borrowing_fee_usd, 500);
    assert_eq!(pos.borrowing_index, 2_000_000);
    // A second settlement with no factor move charges nothing.
    let d2 = svc.settle_position_borrowing(&m, &mut pos);
    assert_eq!(d2.borrowing_fee_usd, 0);
}

#[test]
fn borrowing_step_clips_to_a_pure_cost() {
    let svc = BasicBorrowingService::default();
    let mut m = mk_market(0, 0, 0);
    m.borrowing.cumulative_factor = 3_000_000;
    let mut pos = mk_pos(Side::Long, 100);
    let step = apply_borrowing_step(&svc, &m, &mut pos);
    assert_eq!(step.cost_usd, 300);
    // A shrinking snapshot (negative delta) costs nothing.
    let mut behind = mk_pos(Side::Long, 100);
    behind.borrowing_index = 5_000_000;
    let step2 = apply_borrowing_step(&svc, &m, &mut behind);
    assert_eq!(step2.cost_usd, 0);
    assert_eq!(behind.borrowing_index, 3_000_000);
}

#[test]
fn borrowing_fees_route_to_the_pool() {
    let mut pools = PoolBalances::new();
    apply_borrowing_fees_to_pool(&mut pools, MarketId(1), AssetId(2), 250);
    apply_borrowing_fees_to_pool(&mut pools, MarketId(1), AssetId(2), 0);
    assert_eq!(pools.get_balance(MarketId(1), AssetId(2)), 250);
    assert_eq!(pools.get_balance(MarketId(1), AssetId(9)), 0);
}
