//! Pre-check / normalization for decrease orders and the post-settlement
//! safety check.

use vstd::prelude::*;

use crate::math::rounding::trunc_div;
use crate::risk::config::RiskCfg;
use crate::state::position_store::Position;
use crate::types::{DomainError, OraclePrices, Order, TokenAmount, Usd};

verus! {

/// The conservative collateral-sufficiency predicate on unbounded
/// integers: the collateral left after the withdrawal, valued at the
/// minimum collateral price, covers both the absolute floor and the
/// leverage-implied minimum.
pub open spec fn spec_sufficient(
    next_size_usd: int,
    current_collateral_tokens: int,
    withdraw_tokens: int,
    prices: OraclePrices,
    risk: RiskCfg,
) -> bool
    recommends
        prices.collateral_price_min > 0,
        risk.factor_scale > 0,
{
    &&& withdraw_tokens <= current_collateral_tokens
    &&& {
        let remaining_collateral_usd = (current_collateral_tokens - withdraw_tokens)
            * prices.collateral_price_min;
        &&& remaining_collateral_usd >= risk.min_collateral_usd
        &&& remaining_collateral_usd >= trunc_div(
            next_size_usd * risk.min_collateral_factor_fp,
            risk.factor_scale as int,
        )
    }
}

/// Conservative "will position collateral be sufficient" pre-check.
///
/// `remaining_collateral_usd = (collateral - withdraw) * collateral_price_min`
/// must reach both `min_collateral_usd` and
/// `next_size_usd * min_collateral_factor_fp / factor_scale`.
///
/// Returns `false` for a withdrawal beyond the available collateral. The
/// oracle price and factor scale must be positive, and the intermediate
/// products must fit in an `i128`: an overflow here is an invariant
/// violation, not a user error.
pub fn will_position_collateral_be_sufficient_pre(
    next_size_usd: Usd,
    current_collateral_tokens: TokenAmount,
    withdraw_tokens: TokenAmount,
    prices: &OraclePrices,
    risk: RiskCfg,
) -> (r: bool)
    requires
        prices.collateral_price_min > 0,
        risk.factor_scale > 0,
        withdraw_tokens <= current_collateral_tokens ==> current_collateral_tokens
            - withdraw_tokens <= i128::MAX,
        withdraw_tokens <= current_collateral_tokens ==> i128::MIN <= (current_collateral_tokens
            - withdraw_tokens) * prices.collateral_price_min <= i128::MAX,
        withdraw_tokens <= current_collateral_tokens ==> i128::MIN <= next_size_usd
            * risk.min_collateral_factor_fp <= i128::MAX,
    ensures
        r == spec_sufficient(
            next_size_usd as int,
            current_collateral_tokens as int,
            withdraw_tokens as int,
            *prices,
            risk,
        ),
{
    if withdraw_tokens > current_collateral_tokens {
        return false;
    }
    let next_collateral_tokens = current_collateral_tokens - withdraw_tokens;
    let remaining_collateral_usd = next_collateral_tokens.checked_mul(
        prices.collateral_price_min,
    ).unwrap();
    if remaining_collateral_usd < risk.min_collateral_usd {
        return false;
    }
    let prod = next_size_usd.checked_mul(risk.min_collateral_factor_fp).unwrap();
    proof {
        crate::math::rounding::lemma_trunc_div_toward_zero(prod as int, risk.factor_scale as int);
        vstd::arithmetic::div_mod::lemma_div_nonincreasing(
            vstd::math::abs(prod as int) as int,
            risk.factor_scale as int,
        );
    }
    let min_for_leverage = prod.checked_div(risk.factor_scale).unwrap();
    remaining_collateral_usd >= min_for_leverage
}

/// The decrease pre-check on unbounded integers: sanity checks, size-delta
/// clamp, withdraw normalization, dust escalation, and the conservative
/// sufficiency retry ladder (as requested, then with no withdrawal, then a
/// forced full close).
pub open spec fn spec_precheck(
    pos: Position,
    order: Order,
    prices: OraclePrices,
    risk: RiskCfg,
) -> Result<(Usd, TokenAmount, bool), DomainError> {
    if pos.size_usd <= 0 || pos.size_tokens <= 0 {
        Err(DomainError::PositionEmptyOrCorrupted)
    } else if pos.collateral_amount < 0 {
        Err(DomainError::PositionCollateralNegative)
    } else if prices.collateral_price_min <= 0 {
        Err(DomainError::InvalidCollateralPriceMin)
    } else if risk.factor_scale <= 0 {
        Err(DomainError::InvalidFactorScale)
    } else if order.size_delta_usd <= 0 {
        Err(DomainError::SizeDeltaUsdMustBePositive)
    } else if order.withdraw_collateral_amount < 0 {
        Err(DomainError::WithdrawCollateralAmountMustBeNonNegative)
    } else {
        let size_delta_usd = if order.size_delta_usd > pos.size_usd {
            pos.size_usd
        } else {
            order.size_delta_usd
        };
        let is_full_close = size_delta_usd == pos.size_usd;
        let w0 = if is_full_close {
            0i128
        } else {
            order.withdraw_collateral_amount
        };
        let w1 = if w0 > pos.collateral_amount {
            pos.collateral_amount
        } else {
            w0
        };
        let next_size_usd = pos.size_usd - size_delta_usd;
        if next_size_usd != 0 && next_size_usd < risk.min_position_size_usd {
            Ok((pos.size_usd, 0i128, true))
        } else if next_size_usd != 0 {
            if spec_sufficient(
                next_size_usd,
                pos.collateral_amount as int,
                w1 as int,
                prices,
                risk,
            ) {
                Ok((size_delta_usd, w1, false))
            } else if spec_sufficient(
                next_size_usd,
                pos.collateral_amount as int,
                0,
                prices,
                risk,
            ) {
                Ok((size_delta_usd, 0i128, false))
            } else {
                Ok((pos.size_usd, 0i128, true))
            }
        } else {
            Ok((pos.size_usd, 0i128, true))
        }
    }
}

/// Pre-check and normalization for decrease orders (no state mutation).
///
/// Returns the normalized `(size_delta_usd, withdraw_tokens, is_full_close)`:
/// the size delta may be clamped to a full close, and the withdrawal may be
/// clamped to the available collateral or dropped to zero.
pub fn precheck_decrease_and_withdraw(
    pos: &Position,
    order: &Order,
    prices: &OraclePrices,
    risk: RiskCfg,
) -> (r: Result<(Usd, TokenAmount, bool), DomainError>)
    requires
        pos.size_usd > 0 && pos.size_tokens > 0 && pos.collateral_amount >= 0
            && prices.collateral_price_min > 0 && risk.factor_scale > 0 ==> pos.collateral_amount
            * prices.collateral_price_min <= i128::MAX && i128::MIN <= pos.size_usd
            * risk.min_collateral_factor_fp <= i128::MAX,
    ensures
        r == spec_precheck(*pos, *order, *prices, risk),
{
    if pos.size_usd <= 0 || pos.size_tokens <= 0 {
        return Err(DomainError::PositionEmptyOrCorrupted);
    }
    if pos.collateral_amount < 0 {
        return Err(DomainError::PositionCollateralNegative);
    }
    if prices.collateral_price_min <= 0 {
        return Err(DomainError::InvalidCollateralPriceMin);
    }
    if risk.factor_scale <= 0 {
        return Err(DomainError::InvalidFactorScale);
    }
    let mut size_delta_usd = order.size_delta_usd;
    if size_delta_usd <= 0 {
        return Err(DomainError::SizeDeltaUsdMustBePositive);
    }
    if size_delta_usd > pos.size_usd {
        size_delta_usd = pos.size_usd;
    }
    let mut is_full_close = size_delta_usd == pos.size_usd;
    if order.withdraw_collateral_amount < 0 {
        return Err(DomainError::WithdrawCollateralAmountMustBeNonNegative);
    }
    let mut withdraw_tokens: TokenAmount = if is_full_close {
        0
    } else {
        order.withdraw_collateral_amount
    };
    if withdraw_tokens > pos.collateral_amount {
        withdraw_tokens = pos.collateral_amount;
    }
    let mut next_size_usd = pos.size_usd - size_delta_usd;
    if next_size_usd != 0 && next_size_usd < risk.min_position_size_usd {
        size_delta_usd = pos.size_usd;
        withdraw_tokens = 0;
        is_full_close = true;
        next_size_usd = 0;
    }
    if next_size_usd != 0 {
        proof {
            lemma_sufficiency_products_fit(*pos, next_size_usd as int, withdraw_tokens as int, *prices, risk);
            lemma_sufficiency_products_fit(*pos, next_size_usd as int, 0, *prices, risk);
        }
        let ok_with_withdraw = will_position_collateral_be_sufficient_pre(
            next_size_usd,
            pos.collateral_amount,
            withdraw_tokens,
            prices,
            risk,
        );
        if !ok_with_withdraw {
            withdraw_tokens = 0;
            let ok_without_withdraw = will_position_collateral_be_sufficient_pre(
                next_size_usd,
                pos.collateral_amount,
                withdraw_tokens,
                prices,
                risk,
            );
            if !ok_without_withdraw {
                size_delta_usd = pos.size_usd;
                withdraw_tokens = 0;
                is_full_close = true;
            }
        }
    } else {
        withdraw_tokens = 0;
        is_full_close = true;
    }
    Ok((size_delta_usd, withdraw_tokens, is_full_close))
}

/// The products the sufficiency predicate forms stay in range whenever the
/// pre-check's own bounds hold: the withdrawal is between 0 and the
/// collateral and the next size between 0 and the position size.
proof fn lemma_sufficiency_products_fit(
    pos: Position,
    next_size_usd: int,
    withdraw_tokens: int,
    prices: OraclePrices,
    risk: RiskCfg,
)
    requires
        pos.collateral_amount >= 0,
        prices.collateral_price_min > 0,
        pos.collateral_amount * prices.collateral_price_min <= i128::MAX,
        i128::MIN <= pos.size_usd * risk.min_collateral_factor_fp <= i128::MAX,
        0 <= next_size_usd <= pos.size_usd,
    ensures
        0 <= withdraw_tokens <= pos.collateral_amount ==> 0 <= (pos.collateral_amount
            - withdraw_tokens) * prices.collateral_price_min <= i128::MAX,
        0 <= withdraw_tokens <= pos.collateral_amount ==> i128::MIN <= next_size_usd
            * risk.min_collateral_factor_fp <= i128::MAX,
{
    let c = pos.collateral_amount as int;
    let p = prices.collateral_price_min as int;
    let f = risk.min_collateral_factor_fp as int;
    let s = pos.size_usd as int;
    if 0 <= withdraw_tokens <= c {
        assert(0 <= (c - withdraw_tokens) * p <= c * p) by (nonlinear_arith)
            requires
                p > 0,
                c >= 0,
                0 <= withdraw_tokens <= c,
        {
        }
        assert(i128::MIN <= next_size_usd * f <= i128::MAX) by (nonlinear_arith)
            requires
                0 <= next_size_usd <= s,
                i128::MIN as int <= s * f <= i128::MAX as int,
        {
        }
    }
}

/// The post-settlement check on unbounded integers.
pub open spec fn spec_postcheck(pos_after: Position, prices: OraclePrices, risk: RiskCfg) -> Result<
    (),
    DomainError,
> {
    if pos_after.size_usd == 0 {
        Ok(())
    } else if pos_after.size_usd < 0 || pos_after.size_tokens < 0 || pos_after.collateral_amount
        < 0 {
        Err(DomainError::PositionNegativeValuesAfterSettlement)
    } else if prices.collateral_price_min <= 0 {
        Err(DomainError::InvalidCollateralPriceMin)
    } else if !(pos_after.collateral_amount * prices.collateral_price_min <= i128::MAX) {
        Err(DomainError::CollateralUsdOverflow)
    } else if pos_after.collateral_amount * prices.collateral_price_min
        < risk.min_collateral_usd {
        Err(DomainError::RemainingCollateralBelowMin)
    } else if !(i128::MIN <= pos_after.size_usd * risk.min_collateral_factor_fp <= i128::MAX) {
        Err(DomainError::MinForLeverageOverflow)
    } else if risk.factor_scale == 0 || !(i128::MIN <= trunc_div(
        pos_after.size_usd * risk.min_collateral_factor_fp,
        risk.factor_scale as int,
    ) <= i128::MAX) {
        Err(DomainError::InvalidFactorScale)
    } else if pos_after.collateral_amount * prices.collateral_price_min < trunc_div(
        pos_after.size_usd * risk.min_collateral_factor_fp,
        risk.factor_scale as int,
    ) {
        Err(DomainError::RemainingPositionExceedsMaxLeverage)
    } else {
        Ok(())
    }
}

/// Post-check after settlement (fees, realized PnL, collateral changes):
/// a closed position is always fine; a remaining position must have
/// non-negative fields and sufficient collateral for both the absolute
/// floor and the maximum leverage.
pub fn postcheck_remaining_position(
    pos_after: &Position,
    prices: &OraclePrices,
    risk: RiskCfg,
) -> (r: Result<(), DomainError>)
    ensures
        r == spec_postcheck(*pos_after, *prices, risk),
{
    if pos_after.size_usd == 0 {
        return Ok(());
    }
    if pos_after.size_usd < 0 || pos_after.size_tokens < 0 || pos_after.collateral_amount < 0 {
        return Err(DomainError::PositionNegativeValuesAfterSettlement);
    }
    if prices.collateral_price_min <= 0 {
        return Err(DomainError::InvalidCollateralPriceMin);
    }
    let remaining_collateral_usd = match pos_after.collateral_amount.checked_mul(
        prices.collateral_price_min,
    ) {
        Some(v) => v,
        None => {
            return Err(DomainError::CollateralUsdOverflow);
        },
    };
    proof {
        vstd::arithmetic::mul::lemma_mul_nonnegative(
            pos_after.collateral_amount as int,
            prices.collateral_price_min as int,
        );
    }
    if remaining_collateral_usd < risk.min_collateral_usd {
        return Err(DomainError::RemainingCollateralBelowMin);
    }
    let prod = match pos_after.size_usd.checked_mul(risk.min_collateral_factor_fp) {
        Some(v) => v,
        None => {
            return Err(DomainError::MinForLeverageOverflow);
        },
    };
    if risk.factor_scale == 0 {
        return Err(DomainError::InvalidFactorScale);
    }
    proof {
        crate::math::rounding::lemma_trunc_div_toward_zero(prod as int, risk.factor_scale as int);
        vstd::arithmetic::div_mod::lemma_div_nonincreasing(
            vstd::math::abs(prod as int) as int,
            vstd::math::abs(risk.factor_scale as int) as int,
        );
    }
    let min_for_leverage = match prod.checked_div(risk.factor_scale) {
        Some(v) => v,
        None => {
            return Err(DomainError::InvalidFactorScale);
        },
    };
    if remaining_collateral_usd < min_for_leverage {
        return Err(DomainError::RemainingPositionExceedsMaxLeverage);
    }
    Ok(())
}

/// Dust-escalation law: when the remaining size after the clamped delta
/// would be positive but below the dust threshold, the pre-check escalates
/// to a full close with no withdrawal.
pub proof fn lemma_precheck_dust_escalation(
    pos: Position,
    order: Order,
    prices: OraclePrices,
    risk: RiskCfg,
)
    requires
        pos.size_usd > 0,
        pos.size_tokens > 0,
        pos.collateral_amount >= 0,
        prices.collateral_price_min > 0,
        risk.factor_scale > 0,
        0 < order.size_delta_usd <= pos.size_usd,
        order.withdraw_collateral_amount >= 0,
        0 < pos.size_usd - order.size_delta_usd < risk.min_position_size_usd,
    ensures
        spec_precheck(pos, order, prices, risk) == Ok::<(Usd, TokenAmount, bool), DomainError>(
            (pos.size_usd, 0i128, true),
        ),
{
}

/// Idempotence law: feeding the pre-check's own normalized outputs back in
/// (as the requested size delta and withdrawal) returns the same outputs.
pub proof fn lemma_precheck_idempotent(
    pos: Position,
    order: Order,
    order2: Order,
    prices: OraclePrices,
    risk: RiskCfg,
)
    requires
        spec_precheck(pos, order, prices, risk) is Ok,
        order2.size_delta_usd == spec_precheck(pos, order, prices, risk)->Ok_0.0,
        order2.withdraw_collateral_amount == spec_precheck(pos, order, prices, risk)->Ok_0.1,
    ensures
        spec_precheck(pos, order2, prices, risk) == spec_precheck(pos, order, prices, risk),
{
}

/// Future: liquidation predicate. The triggering condition is deliberately
/// not defined here; a caller-supplied predicate is assumed.
pub fn is_position_liquidatable_future_placeholder() {
}

} // verus!
