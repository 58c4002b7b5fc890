//! Core pricing and accounting engine for a perpetual-futures venue.
//!
//! The crate is organised as pure computational services over mutable state
//! containers: rounding primitives, PnL math, position size math, the
//! price-impact curve, execution pricing, funding and borrowing index
//! evolution, per-step fee computation, risk pre/post checks, and the
//! position / order / pool / claimables stores.

pub mod math;
pub mod oracle;
pub mod risk;
pub mod services;
pub mod state;
pub mod types;
