use perp_core::risk::config::RiskCfg;
use perp_core::risk::validation::{
    postcheck_remaining_position, precheck_decrease_and_withdraw,
    will_position_collateral_be_sufficient_pre,
};
use perp_core::state::position_store::{Position, PositionKey};
use perp_core::types::{
    AccountId, AssetId, DomainError, MarketId, OraclePrices, Order, OrderType, Side,
};

fn mk_pos(size_usd: i128, size_tokens: i128, collateral: i128) -> Position {
    Position {
        key: PositionKey {
            account: AccountId([7u8; 32]),
            market_id: MarketId(1),
            collateral_token: AssetId(2),
            side: Side::Long,
        },
        size_usd,
        size_tokens,
        collateral_amount: collateral,
        pending_impact_tokens: 0,
        funding_index: 0,
        borrowing_index: 0,
        opened_at: 0,
        last_updated_at: 0,
    }
}

fn mk_order(size_delta_usd: i128, withdraw: i128) -> Order {
    Order {
        account: AccountId([7u8; 32]),
        market_id: MarketId(1),
        collateral_token: AssetId(2),
        side: Side::Long,
        order_type: OrderType::Decrease,
        collateral_delta_tokens: 0,
        size_delta_usd,
        withdraw_collateral_amount: withdraw,
        target_leverage_x: 0,
        created_at: 0,
        valid_from: 0,
        valid_until: 0,
    }
}

fn mk_prices(cmin: i128) -> OraclePrices {
    OraclePrices {
        index_price_min: 1_000,
        index_price_max: 1_000,
        collateral_price_min: cmin,
        collateral_price_max: cmin,
    }
}

fn risk() -> RiskCfg {
    RiskCfg::mvp()
}

#[test]
fn mvp_config_has_documented_values() {
    let r = risk();
    assert_eq!(r.min_position_size_usd, 10);
    assert_eq!(r.min_collateral_usd, 5);
    assert_eq!(r.min_collateral_factor_fp, 20_000_000_000_000_000);
    assert_eq!(r.factor_scale, 1_000_000_000_000_000_000);
    assert_eq!(RiskCfg::default(), r);
}

#[test]
fn dust_remainder_escalates_to_full_close() {
    // pos size 100, dust threshold 10, requested 95: the remaining 5 is
    // dust, so the whole position closes with no withdrawal.
    let pos = mk_pos(100, 100, 50);
    let order = mk_order(95, 3);
    let out = precheck_decrease_and_withdraw(&pos, &order, &mk_prices(1), risk()).unwrap();
    assert_eq!(out, (100, 0, true));
}

#[test]
fn oversized_delta_is_clamped_to_full_close() {
    let pos = mk_pos(100, 100, 50);
    let order = mk_order(250, 7);
    let out = precheck_decrease_and_withdraw(&pos, &order, &mk_prices(1), risk()).unwrap();
    assert_eq!(out, (100, 0, true));
}

#[test]
fn partial_close_keeps_safe_withdrawal() {
    // Remaining size 5_000 with collateral 1_000 at price 1: far above both
    // the $5 floor and the 2% leverage minimum (100).
    let pos = mk_pos(10_000, 10, 1_000);
    let order = mk_order(5_000, 200);
    let out = precheck_decrease_and_withdraw(&pos, &order, &mk_prices(1), risk()).unwrap();
    assert_eq!(out, (5_000, 200, false));
}

#[test]
fn excessive_withdrawal_is_dropped_before_escalating() {
    // Withdrawing 996 of 1_000 leaves 4 USD of collateral: below the $5
    // floor, so the withdrawal is dropped; with it at zero the position is
    // safe again.
    let pos = mk_pos(10_000, 10, 1_000);
    let order = mk_order(5_000, 996);
    let out = precheck_decrease_and_withdraw(&pos, &order, &mk_prices(1), risk()).unwrap();
    assert_eq!(out, (5_000, 0, false));
}

#[test]
fn insufficient_collateral_escalates_to_full_close() {
    // Even with no withdrawal, 3 USD of collateral is below the floor.
    let pos = mk_pos(10_000, 10, 3);
    let order = mk_order(5_000, 0);
    let out = precheck_decrease_and_withdraw(&pos, &order, &mk_prices(1), risk()).unwrap();
    assert_eq!(out, (10_000, 0, true));
}

#[test]
fn precheck_is_idempotent_on_its_own_outputs() {
    let prices = mk_prices(1);
    for (pos, order) in [
        (mk_pos(100, 100, 50), mk_order(95, 3)),
        (mk_pos(10_000, 10, 1_000), mk_order(5_000, 200)),
        (mk_pos(10_000, 10, 1_000), mk_order(5_000, 996)),
        (mk_pos(10_000, 10, 3), mk_order(5_000, 0)),
    ] {
        let (size_delta, withdraw, full) =
            precheck_decrease_and_withdraw(&pos, &order, &prices, risk()).unwrap();
        let again = mk_order(size_delta, withdraw);
        let out2 = precheck_decrease_and_withdraw(&pos, &again, &prices, risk()).unwrap();
        assert_eq!(out2, (size_delta, withdraw, full));
    }
}

#[test]
fn precheck_rejects_malformed_inputs() {
    let prices = mk_prices(1);
    assert_eq!(
        precheck_decrease_and_withdraw(&mk_pos(0, 0, 0), &mk_order(5, 0), &prices, risk()),
        Err(DomainError::PositionEmptyOrCorrupted)
    );
    assert_eq!(
        precheck_decrease_and_withdraw(&mk_pos(100, 100, -1), &mk_order(5, 0), &prices, risk()),
        Err(DomainError::PositionCollateralNegative)
    );
    assert_eq!(
        precheck_decrease_and_withdraw(&mk_pos(100, 100, 50), &mk_order(5, 0), &mk_prices(0), risk()),
        Err(DomainError::InvalidCollateralPriceMin)
    );
    let mut no_scale = risk();
    no_scale.factor_scale = 0;
    assert_eq!(
        precheck_decrease_and_withdraw(&mk_pos(100, 100, 50), &mk_order(5, 0), &prices, no_scale),
        Err(DomainError::InvalidFactorScale)
    );
    assert_eq!(
        precheck_decrease_and_withdraw(&mk_pos(100, 100, 50), &mk_order(0, 0), &prices, risk()),
        Err(DomainError::SizeDeltaUsdMustBePositive)
    );
    assert_eq!(
        precheck_decrease_and_withdraw(&mk_pos(100, 100, 50), &mk_order(5, -1), &prices, risk()),
        Err(DomainError::WithdrawCollateralAmountMustBeNonNegative)
    );
}

#[test]
fn sufficiency_predicate_checks_floor_and_leverage() {
    let prices = mk_prices(1);
    // Withdraw beyond collateral: user-level false.
    assert!(!will_position_collateral_be_sufficient_pre(100, 50, 60, &prices, risk()));
    // 45 USD of collateral for a 100 USD position: fine (needs 2).
    assert!(will_position_collateral_be_sufficient_pre(100, 50, 5, &prices, risk()));
    // Below the absolute floor of 5.
    assert!(!will_position_collateral_be_sufficient_pre(100, 50, 46, &prices, risk()));
    // Leverage minimum: 1_000_000 USD position needs 20_000 of collateral.
    assert!(!will_position_collateral_be_sufficient_pre(1_000_000, 19_999, 0, &prices, risk()));
    assert!(will_position_collateral_be_sufficient_pre(1_000_000, 20_000, 0, &prices, risk()));
}

#[test]
fn postcheck_accepts_closed_and_healthy_positions() {
    let prices = mk_prices(1);
    assert_eq!(postcheck_remaining_position(&mk_pos(0, 0, 0), &prices, risk()), Ok(()));
    assert_eq!(
        postcheck_remaining_position(&mk_pos(100, 100, 50), &prices, risk()),
        Ok(())
    );
}

#[test]
fn postcheck_reports_each_failure_kind() {
    let prices = mk_prices(1);
    assert_eq!(
        postcheck_remaining_position(&mk_pos(100, -1, 50), &prices, risk()),
        Err(DomainError::PositionNegativeValuesAfterSettlement)
    );
    assert_eq!(
        postcheck_remaining_position(&mk_pos(100, 100, 50), &mk_prices(0), risk()),
        Err(DomainError::InvalidCollateralPriceMin)
    );
    assert_eq!(
        postcheck_remaining_position(&mk_pos(100, 100, i128::MAX), &mk_prices(2), risk()),
        Err(DomainError::CollateralUsdOverflow)
    );
    assert_eq!(
        postcheck_remaining_position(&mk_pos(100, 100, 4), &prices, risk()),
        Err(DomainError::RemainingCollateralBelowMin)
    );
    assert_eq!(
        postcheck_remaining_position(&mk_pos(i128::MAX, 100, 50), &prices, risk()),
        Err(DomainError::MinForLeverageOverflow)
    );
    assert_eq!(
        postcheck_remaining_position(&mk_pos(1_000_000, 100, 19_999), &prices, risk()),
        Err(DomainError::RemainingPositionExceedsMaxLeverage)
    );
}
