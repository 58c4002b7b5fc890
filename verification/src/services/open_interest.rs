//! Open-interest snapshots consumed by the price-impact curve.

use vstd::prelude::*;

use crate::types::Usd;

verus! {

/// USD open interest of the two sides of a market at one instant.
#[derive(Clone, Copy, Debug, PartialEq, Eq, Structural)]
pub struct OpenInterestSnapshot {
    pub long_usd: Usd,
    pub short_usd: Usd,
}

/// Open interest before (`current`) and after (`next`) a prospective trade.
#[derive(Clone, Copy, Debug, PartialEq, Eq, Structural)]
pub struct OpenInterestParams {
    pub current: OpenInterestSnapshot,
    pub next: OpenInterestSnapshot,
}

} // verus!
