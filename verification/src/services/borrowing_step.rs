//! Applying borrowing to a single position on a single step.

use vstd::prelude::*;

use crate::services::borrowing::{spec_borrowing_fee, BorrowingService};
use crate::state::market::MarketState;
use crate::state::position_store::Position;
use crate::types::Usd;

verus! {

/// Result of applying borrowing for a single position on a single step.
#[derive(Debug, Clone, Copy, PartialEq, Eq, Structural)]
pub struct BorrowingStep {
    /// How much borrowing cost this position must pay in USD; never
    /// negative.
    pub cost_usd: Usd,
}

/// Apply borrowing to a single position: settle the borrowing fee (which
/// advances the position's factor snapshot) and return it as a pure cost,
/// clipped to zero from below. Borrowing has no receiver side, so nothing
/// is minted as claimables.
pub fn apply_borrowing_step<B: BorrowingService>(
    borrowing_svc: &B,
    market: &MarketState,
    pos: &mut Position,
) -> (r: BorrowingStep)
    requires
        i128::MIN <= market.borrowing.cumulative_factor - old(pos).borrowing_index <= i128::MAX,
    ensures
        *final(pos) == (Position {
            borrowing_index: market.borrowing.cumulative_factor,
            ..*old(pos)
        }),
        r.cost_usd == ({
            let fee = spec_borrowing_fee(
                old(pos).size_usd as int,
                market.borrowing.cumulative_factor - old(pos).borrowing_index,
            );
            if fee < 0 {
                0int
            } else {
                fee
            }
        }),
        r.cost_usd >= 0,
{
    let delta = borrowing_svc.settle_position_borrowing(market, pos);
    let fee: Usd = delta.borrowing_fee_usd;
    BorrowingStep {
        cost_usd: if fee < 0 {
            0
        } else {
            fee
        },
    }
}

} // verus!
