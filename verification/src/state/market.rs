//! Per-market state: open interest, pool liquidity, and the cumulative
//! funding / borrowing indices.

use vstd::prelude::*;

use crate::types::{Timestamp, Usd};

verus! {

/// Cumulative funding indices for one market.
///
/// The index is stored as "funding USD per 1 USD of position", scaled by the
/// funding index scale. The payer side's index rises while the receiver
/// side's index falls, so per-position deltas carry the right sign.
#[derive(Clone, Copy, Debug, Default)]
pub struct FundingState {
    pub cumulative_index_long: i128,
    pub cumulative_index_short: i128,
    pub last_updated_at: Timestamp,
}

/// Cumulative borrowing factor for one market; non-decreasing over time.
#[derive(Clone, Copy, Debug, Default)]
pub struct BorrowingState {
    pub cumulative_factor: i128,
    pub last_updated_at: Timestamp,
}

/// Mutable market-level state read and evolved by the funding and borrowing
/// services.
#[derive(Clone, Copy, Debug, Default)]
pub struct MarketState {
    pub oi_long_usd: Usd,
    pub oi_short_usd: Usd,
    pub liquidity_usd: Usd,
    pub funding: FundingState,
    pub borrowing: BorrowingState,
}

} // verus!
