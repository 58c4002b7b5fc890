//! Unrealized / realized PnL and USD-to-collateral-token conversion.

use vstd::prelude::*;

use crate::math::rounding::{div_ceil_u, div_floor_u, mul_div_i128, spec_div_ceil, trunc_div};
use crate::state::position_store::Position;
use crate::types::{DomainError, OraclePrices, Side, TokenAmount, Usd};

verus! {

/// Price used to value a position's tokens: the conservative side of the
/// oracle pair (always undervalues the position).
pub open spec fn spec_pnl_price(side: Side, prices: OraclePrices) -> int {
    match side {
        Side::Long => prices.index_price_min as int,
        Side::Short => prices.index_price_max as int,
    }
}

/// Total unrealized PnL on unbounded integers.
pub open spec fn spec_total_pnl(pos: Position, prices: OraclePrices) -> int {
    let value = pos.size_tokens * spec_pnl_price(pos.key.side, prices);
    match pos.key.side {
        Side::Long => value - pos.size_usd,
        Side::Short => pos.size_usd - value,
    }
}

/// Conservative valuation price for a side: `index_price_min` for longs,
/// `index_price_max` for shorts. Fails when that price is non-positive.
pub fn pick_price_for_pnl(side: Side, prices: &OraclePrices) -> (r: Result<Usd, DomainError>)
    ensures
        r is Ok <==> spec_pnl_price(side, *prices) > 0,
        r is Ok ==> r->Ok_0 == spec_pnl_price(side, *prices),
        r is Err ==> r->Err_0 == DomainError::InvalidPnlPrice,
{
    let p = match side {
        Side::Long => prices.index_price_min,
        Side::Short => prices.index_price_max,
    };
    if p <= 0 {
        return Err(DomainError::InvalidPnlPrice);
    }
    Ok(p)
}

/// Total unrealized position PnL in USD: `size_tokens * price - size_usd`
/// for longs, mirrored for shorts, with the conservative price pick.
///
/// Fails on a non-positive price or on multiplication overflow.
pub fn total_position_pnl_usd(pos: &Position, prices: &OraclePrices) -> (r: Result<
    Usd,
    DomainError,
>)
    requires
        spec_pnl_price(pos.key.side, *prices) > 0 && i128::MIN <= pos.size_tokens as int
            * spec_pnl_price(pos.key.side, *prices) <= i128::MAX ==> i128::MIN <= spec_total_pnl(
            *pos,
            *prices,
        ) <= i128::MAX,
    ensures
        r is Ok <==> spec_pnl_price(pos.key.side, *prices) > 0 && i128::MIN <= pos.size_tokens
            as int * spec_pnl_price(pos.key.side, *prices) <= i128::MAX,
        r is Ok ==> r->Ok_0 == spec_total_pnl(*pos, *prices),
        spec_pnl_price(pos.key.side, *prices) <= 0 ==> r->Err_0 == DomainError::InvalidPnlPrice,
        r is Err && spec_pnl_price(pos.key.side, *prices) > 0 ==> r->Err_0
            == DomainError::PnlValueOverflow,
{
    let px = pick_price_for_pnl(pos.key.side, prices)?;
    let value = match pos.size_tokens.checked_mul(px) {
        Some(v) => v,
        None => {
            return Err(DomainError::PnlValueOverflow);
        },
    };
    let pnl = match pos.key.side {
        Side::Long => value - pos.size_usd,
        Side::Short => pos.size_usd - value,
    };
    Ok(pnl)
}

/// Proportional realized PnL for a partial close:
/// `total_pnl * size_delta_tokens / pos_size_tokens`, truncated toward zero.
pub fn realized_pnl_usd(
    total_pnl_usd: Usd,
    size_delta_tokens: TokenAmount,
    pos_size_tokens: TokenAmount,
) -> (r: Result<Usd, DomainError>)
    ensures
        pos_size_tokens <= 0 ==> r == Err::<Usd, DomainError>(DomainError::InvalidPosSizeTokens),
        r is Ok <==> pos_size_tokens > 0 && i128::MIN <= total_pnl_usd as int * size_delta_tokens
            as int <= i128::MAX,
        r is Ok ==> r->Ok_0 == trunc_div(
            total_pnl_usd as int * size_delta_tokens as int,
            pos_size_tokens as int,
        ),
        pos_size_tokens > 0 && r is Err ==> r->Err_0 == DomainError::MulOverflow,
{
    if pos_size_tokens <= 0 {
        return Err(DomainError::InvalidPosSizeTokens);
    }
    proof {
        if i128::MIN <= total_pnl_usd as int * size_delta_tokens as int <= i128::MAX {
            crate::math::rounding::lemma_trunc_div_toward_zero(
                total_pnl_usd as int * size_delta_tokens as int,
                pos_size_tokens as int,
            );
            vstd::arithmetic::div_mod::lemma_div_nonincreasing(
                vstd::math::abs(total_pnl_usd as int * size_delta_tokens as int) as int,
                pos_size_tokens as int,
            );
        }
    }
    mul_div_i128(total_pnl_usd, size_delta_tokens, pos_size_tokens)
}

/// The token amount a signed PnL converts to, on unbounded integers:
/// floor against `collateral_price_max` when positive, negated ceiling
/// against `collateral_price_min` when negative.
pub open spec fn spec_pnl_to_collateral_tokens(pnl: int, prices: OraclePrices) -> int {
    if pnl == 0 {
        0
    } else if pnl > 0 {
        pnl / prices.collateral_price_max as int
    } else {
        -spec_div_ceil(-pnl, prices.collateral_price_min as int)
    }
}

/// Convert signed PnL USD to collateral tokens.
///
/// Positive PnL pays out `floor(pnl / collateral_price_max)` tokens (the
/// fewest tokens); negative PnL charges `ceil(|pnl| / collateral_price_min)`
/// tokens (the most tokens). The asymmetry systematically favors the pool.
pub fn pnl_usd_to_collateral_tokens(pnl_usd: Usd, prices: &OraclePrices) -> (r: Result<
    TokenAmount,
    DomainError,
>)
    requires
        pnl_usd > i128::MIN,
    ensures
        r is Ok <==> (pnl_usd == 0 || (pnl_usd > 0 && prices.collateral_price_max > 0) || (pnl_usd
            < 0 && prices.collateral_price_min > 0)),
        r is Ok ==> r->Ok_0 == spec_pnl_to_collateral_tokens(pnl_usd as int, *prices),
        pnl_usd > 0 && prices.collateral_price_max <= 0 ==> r->Err_0
            == DomainError::InvalidCollateralPriceMax,
        pnl_usd < 0 && prices.collateral_price_min <= 0 ==> r->Err_0
            == DomainError::InvalidCollateralPriceMin,
{
    if pnl_usd == 0 {
        return Ok(0);
    }
    if pnl_usd > 0 {
        let p = prices.collateral_price_max;
        if p <= 0 {
            return Err(DomainError::InvalidCollateralPriceMax);
        }
        Ok(div_floor_u(pnl_usd, p).unwrap())
    } else {
        let p = prices.collateral_price_min;
        if p <= 0 {
            return Err(DomainError::InvalidCollateralPriceMin);
        }
        let abs = -pnl_usd;
        let t = div_ceil_u(abs, p).unwrap();
        proof {
            vstd::arithmetic::div_mod::lemma_div_pos_is_pos(abs as int, p as int);
        }
        Ok(-t)
    }
}

/// PnL symmetry law: when the conservative price values the tokens at
/// exactly the notional, total PnL is zero; this holds for either side.
pub proof fn lemma_pnl_zero_at_break_even(pos: Position, prices: OraclePrices)
    requires
        spec_pnl_price(pos.key.side, prices) * pos.size_tokens == pos.size_usd,
    ensures
        spec_total_pnl(pos, prices) == 0,
{
    vstd::arithmetic::mul::lemma_mul_is_commutative(
        spec_pnl_price(pos.key.side, prices),
        pos.size_tokens as int,
    );
}

/// Pool-favoring rounding law: for any positive PnL `p` and positive
/// collateral prices, the tokens paid out for `+p` are worth at most `p`,
/// and the tokens charged for `-p` are worth at least `p`.
pub proof fn lemma_pnl_conversion_favors_pool(p: int, prices: OraclePrices)
    requires
        p > 0,
        prices.collateral_price_min > 0,
        prices.collateral_price_max > 0,
    ensures
        spec_pnl_to_collateral_tokens(p, prices) * prices.collateral_price_max <= p,
        -spec_pnl_to_collateral_tokens(-p, prices) * prices.collateral_price_min >= p,
{
    let cmax = prices.collateral_price_max as int;
    let cmin = prices.collateral_price_min as int;
    crate::math::rounding::lemma_div_floor_bounds(p, cmax);
    crate::math::rounding::lemma_div_floor_bounds(p, cmin);
    vstd::arithmetic::div_mod::lemma_fundamental_div_mod(p, cmin);
    vstd::arithmetic::div_mod::lemma_mod_bound(p, cmin);
    vstd::arithmetic::mul::lemma_mul_is_distributive_add_other_way(cmin, p / cmin, 1);
    vstd::arithmetic::mul::lemma_mul_is_commutative(p / cmin + 1, cmin);
    vstd::arithmetic::mul::lemma_mul_is_commutative(p / cmin, cmin);
}

} // verus!
