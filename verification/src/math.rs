pub mod pnl;
pub mod position;
pub mod rounding;
pub mod saturating;
