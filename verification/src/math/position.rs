//! Proportional size-delta and pending-impact math for partial closes.

use vstd::prelude::*;

use crate::math::rounding::{div_ceil_u, div_floor_u, mul_div_i128, spec_div_ceil, trunc_div};
use crate::state::position_store::Position;
use crate::types::{DomainError, Side, TokenAmount, Usd};

verus! {

/// Tokens to close for a requested USD delta, on unbounded integers:
/// rounded up for longs and down for shorts.
pub open spec fn spec_size_delta_in_tokens(pos: Position, size_delta_usd: int) -> int {
    let n = pos.size_tokens * size_delta_usd;
    match pos.key.side {
        Side::Long => spec_div_ceil(n, pos.size_usd as int),
        Side::Short => n / pos.size_usd as int,
    }
}

/// Size delta in tokens for a (partial) close.
///
/// A full close (or an exact match of the position size) returns all of
/// `pos.size_tokens`. A partial close computes
/// `pos.size_tokens * size_delta_usd / pos.size_usd`, rounded up for longs
/// and down for shorts: the rounding closes more tokens than strictly
/// proportional when shrinking a long and fewer when shrinking a short,
/// keeping the pool whole.
pub fn size_delta_in_tokens(pos: &Position, size_delta_usd: Usd, is_full_close: bool) -> (r: Result<
    TokenAmount,
    DomainError,
>)
    ensures
        is_full_close || size_delta_usd == pos.size_usd ==> r == Ok::<TokenAmount, DomainError>(
            pos.size_tokens,
        ),
        !(is_full_close || size_delta_usd == pos.size_usd) && (pos.size_usd <= 0
            || pos.size_tokens <= 0 || size_delta_usd <= 0) ==> r == Err::<
            TokenAmount,
            DomainError,
        >(DomainError::InvalidPositionOrSizeDelta),
        !(is_full_close || size_delta_usd == pos.size_usd) && pos.size_usd > 0 && pos.size_tokens
            > 0 && size_delta_usd > 0 ==> if pos.size_tokens as int * size_delta_usd as int
            <= i128::MAX {
            r == Ok::<TokenAmount, DomainError>(
                spec_size_delta_in_tokens(*pos, size_delta_usd as int) as i128,
            ) && spec_size_delta_in_tokens(*pos, size_delta_usd as int) >= 0
        } else {
            r == Err::<TokenAmount, DomainError>(DomainError::SizeDeltaMulOverflow)
        },
{
    if is_full_close || size_delta_usd == pos.size_usd {
        return Ok(pos.size_tokens);
    }
    if pos.size_usd <= 0 || pos.size_tokens <= 0 || size_delta_usd <= 0 {
        return Err(DomainError::InvalidPositionOrSizeDelta);
    }
    let n = match pos.size_tokens.checked_mul(size_delta_usd) {
        Some(n) => n,
        None => {
            return Err(DomainError::SizeDeltaMulOverflow);
        },
    };
    proof {
        vstd::arithmetic::mul::lemma_mul_strictly_positive(
            pos.size_tokens as int,
            size_delta_usd as int,
        );
        vstd::arithmetic::div_mod::lemma_div_pos_is_pos(n as int, pos.size_usd as int);
    }
    let t = match pos.key.side {
        Side::Long => div_ceil_u(n, pos.size_usd).unwrap(),
        Side::Short => div_floor_u(n, pos.size_usd).unwrap(),
    };
    Ok(t)
}

/// Share of the pending impact tokens attributed to a partial close:
/// plain truncating proportion; zero when either input is non-positive.
pub fn proportional_pending_impact_tokens(pos: &Position, size_delta_usd: Usd) -> (r: Result<
    TokenAmount,
    DomainError,
>)
    ensures
        pos.size_usd <= 0 || size_delta_usd <= 0 ==> r == Ok::<TokenAmount, DomainError>(0),
        pos.size_usd > 0 && size_delta_usd > 0 ==> if i128::MIN <= pos.pending_impact_tokens as int
            * size_delta_usd as int <= i128::MAX {
            r == Ok::<TokenAmount, DomainError>(
                trunc_div(
                    pos.pending_impact_tokens as int * size_delta_usd as int,
                    pos.size_usd as int,
                ) as i128,
            )
        } else {
            r == Err::<TokenAmount, DomainError>(DomainError::MulOverflow)
        },
{
    if pos.size_usd <= 0 || size_delta_usd <= 0 {
        return Ok(0);
    }
    proof {
        if i128::MIN <= pos.pending_impact_tokens as int * size_delta_usd as int <= i128::MAX {
            crate::math::rounding::lemma_trunc_div_toward_zero(
                pos.pending_impact_tokens as int * size_delta_usd as int,
                pos.size_usd as int,
            );
            vstd::arithmetic::div_mod::lemma_div_nonincreasing(
                vstd::math::abs(pos.pending_impact_tokens as int * size_delta_usd as int) as int,
                pos.size_usd as int,
            );
        }
    }
    mul_div_i128(pos.pending_impact_tokens, size_delta_usd, pos.size_usd)
}

} // verus!
