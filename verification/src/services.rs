pub mod borrowing;
pub mod borrowing_step;
pub mod fees;
pub mod funding;
pub mod funding_step;
pub mod open_interest;
pub mod price_impact;
pub mod pricing;
pub mod wide;
pub mod impact_pool;
