use perp_core::math::pnl::{
    pick_price_for_pnl, pnl_usd_to_collateral_tokens, realized_pnl_usd, total_position_pnl_usd,
};
use perp_core::math::position::{proportional_pending_impact_tokens, size_delta_in_tokens};
use perp_core::math::rounding::{div_ceil_u, div_floor_u, mul_div_i128};
use perp_core::state::position_store::{Position, PositionKey};
use perp_core::types::{AccountId, AssetId, DomainError, MarketId, OraclePrices, Side};

fn mk_pos(side: Side, size_usd: i128, size_tokens: i128) -> Position {
    Position {
        key: PositionKey {
            account: AccountId([1u8; 32]),
            market_id: MarketId(1),
            collateral_token: AssetId(2),
            side,
        },
        size_usd,
        size_tokens,
        collateral_amount: 0,
        pending_impact_tokens: 0,
        funding_index: 0,
        borrowing_index: 0,
        opened_at: 0,
        last_updated_at: 0,
    }
}

fn mk_prices(imin: i128, imax: i128, cmin: i128, cmax: i128) -> OraclePrices {
    OraclePrices {
        index_price_min: imin,
        index_price_max: imax,
        collateral_price_min: cmin,
        collateral_price_max: cmax,
    }
}

#[test]
fn div_floor_brackets_the_dividend() {
    let q = div_floor_u(7, 2).unwrap();
    assert_eq!(q, 3);
    assert!(q * 2 <= 7 && 7 < (q + 1) * 2);
    assert_eq!(div_floor_u(0, 5).unwrap(), 0);
    assert_eq!(div_floor_u(10, 5).unwrap(), 2);
}

#[test]
fn div_ceil_is_floor_plus_indicator() {
    assert_eq!(div_ceil_u(7, 2).unwrap(), div_floor_u(7, 2).unwrap() + 1);
    assert_eq!(div_ceil_u(10, 5).unwrap(), div_floor_u(10, 5).unwrap());
    assert_eq!(div_ceil_u(0, 3).unwrap(), 0);
    assert_eq!(div_ceil_u(1, 3).unwrap(), 1);
}

#[test]
fn div_helpers_reject_bad_domains() {
    assert_eq!(div_ceil_u(-1, 2), Err(DomainError::DivCeilInvalid));
    assert_eq!(div_ceil_u(1, 0), Err(DomainError::DivCeilInvalid));
    assert_eq!(div_floor_u(-1, 2), Err(DomainError::DivFloorInvalid));
    assert_eq!(div_floor_u(1, -2), Err(DomainError::DivFloorInvalid));
}

#[test]
fn mul_div_truncates_toward_zero() {
    assert_eq!(mul_div_i128(7, 3, 2).unwrap(), 10);
    assert_eq!(mul_div_i128(-7, 3, 2).unwrap(), -10);
    assert_eq!(mul_div_i128(7, -3, 2).unwrap(), -10);
    assert_eq!(mul_div_i128(-7, -3, 2).unwrap(), 10);
    assert_eq!(mul_div_i128(7, 3, -2).unwrap(), -10);
}

#[test]
fn mul_div_reports_each_failure_kind() {
    assert_eq!(mul_div_i128(1, 1, 0), Err(DomainError::MulDivZeroDenom));
    assert_eq!(mul_div_i128(i128::MAX, 2, 1), Err(DomainError::MulOverflow));
    assert_eq!(mul_div_i128(i128::MIN, 1, -1), Err(DomainError::DivOverflow));
}

#[test]
fn pnl_price_pick_is_conservative_per_side() {
    let prices = mk_prices(900, 1_100, 1, 1);
    assert_eq!(pick_price_for_pnl(Side::Long, &prices).unwrap(), 900);
    assert_eq!(pick_price_for_pnl(Side::Short, &prices).unwrap(), 1_100);
    let bad = mk_prices(0, 1_100, 1, 1);
    assert_eq!(
        pick_price_for_pnl(Side::Long, &bad),
        Err(DomainError::InvalidPnlPrice)
    );
}

#[test]
fn pnl_is_zero_at_break_even_for_both_sides() {
    // Long valued at index_price_min: 10 tokens * 1_000 == 10_000 USD.
    let long = mk_pos(Side::Long, 10_000, 10);
    let prices = mk_prices(1_000, 1_200, 1, 1);
    assert_eq!(total_position_pnl_usd(&long, &prices).unwrap(), 0);

    // Short valued at index_price_max: mirrored relation.
    let short = mk_pos(Side::Short, 12_000, 10);
    assert_eq!(total_position_pnl_usd(&short, &prices).unwrap(), 0);
}

#[test]
fn pnl_signs_follow_the_market_move() {
    let prices = mk_prices(1_100, 1_100, 1, 1);
    let long = mk_pos(Side::Long, 10_000, 10);
    assert_eq!(total_position_pnl_usd(&long, &prices).unwrap(), 1_000);
    let short = mk_pos(Side::Short, 10_000, 10);
    assert_eq!(total_position_pnl_usd(&short, &prices).unwrap(), -1_000);
}

#[test]
fn pnl_value_overflow_is_reported() {
    let long = mk_pos(Side::Long, 0, i128::MAX);
    let prices = mk_prices(2, 2, 1, 1);
    assert_eq!(
        total_position_pnl_usd(&long, &prices),
        Err(DomainError::PnlValueOverflow)
    );
}

#[test]
fn realized_pnl_is_a_truncating_proportion() {
    assert_eq!(realized_pnl_usd(1_000, 1, 3).unwrap(), 333);
    assert_eq!(realized_pnl_usd(-1_000, 1, 3).unwrap(), -333);
    assert_eq!(
        realized_pnl_usd(1_000, 1, 0),
        Err(DomainError::InvalidPosSizeTokens)
    );
}

#[test]
fn pnl_conversion_favors_the_pool() {
    let prices = mk_prices(1, 1, 900, 1_100);
    // Positive PnL pays out floor(p / cmax) tokens: worth at most p.
    let out = pnl_usd_to_collateral_tokens(10_000, &prices).unwrap();
    assert_eq!(out, 9);
    assert!(out * prices.collateral_price_max <= 10_000);
    // Negative PnL charges ceil(|p| / cmin) tokens: worth at least |p|.
    let charged = pnl_usd_to_collateral_tokens(-10_000, &prices).unwrap();
    assert_eq!(charged, -12);
    assert!(-charged * prices.collateral_price_min >= 10_000);
    // Zero passes through.
    assert_eq!(pnl_usd_to_collateral_tokens(0, &prices).unwrap(), 0);
}

#[test]
fn pnl_conversion_rejects_bad_prices() {
    let no_max = mk_prices(1, 1, 900, 0);
    assert_eq!(
        pnl_usd_to_collateral_tokens(1, &no_max),
        Err(DomainError::InvalidCollateralPriceMax)
    );
    let no_min = mk_prices(1, 1, 0, 1_100);
    assert_eq!(
        pnl_usd_to_collateral_tokens(-1, &no_min),
        Err(DomainError::InvalidCollateralPriceMin)
    );
}

#[test]
fn size_delta_tokens_round_against_the_trader() {
    // Long partial close rounds up: 10 * 2_500 / 10_000 = 2.5 -> 3.
    let long = mk_pos(Side::Long, 10_000, 10);
    assert_eq!(size_delta_in_tokens(&long, 2_500, false).unwrap(), 3);
    // Short partial close rounds down: 2.5 -> 2.
    let short = mk_pos(Side::Short, 10_000, 10);
    assert_eq!(size_delta_in_tokens(&short, 2_500, false).unwrap(), 2);
}

#[test]
fn size_delta_tokens_full_close_returns_everything() {
    let long = mk_pos(Side::Long, 10_000, 10);
    assert_eq!(size_delta_in_tokens(&long, 1, true).unwrap(), 10);
    assert_eq!(size_delta_in_tokens(&long, 10_000, false).unwrap(), 10);
}

#[test]
fn size_delta_tokens_rejects_bad_inputs() {
    let empty = mk_pos(Side::Long, 0, 0);
    assert_eq!(
        size_delta_in_tokens(&empty, 5, false),
        Err(DomainError::InvalidPositionOrSizeDelta)
    );
    let huge = mk_pos(Side::Long, 10_000, i128::MAX);
    assert_eq!(
        size_delta_in_tokens(&huge, 2, false),
        Err(DomainError::SizeDeltaMulOverflow)
    );
}

#[test]
fn pending_impact_share_is_a_plain_proportion() {
    let mut pos = mk_pos(Side::Long, 10_000, 10);
    pos.pending_impact_tokens = -7;
    // toward-zero: -7 * 2_500 / 10_000 = -1.75 -> -1
    assert_eq!(proportional_pending_impact_tokens(&pos, 2_500).unwrap(), -1);
    // Non-positive inputs yield zero.
    assert_eq!(proportional_pending_impact_tokens(&pos, 0).unwrap(), 0);
    let flat = mk_pos(Side::Long, 0, 0);
    assert_eq!(proportional_pending_impact_tokens(&flat, 10).unwrap(), 0);
}
