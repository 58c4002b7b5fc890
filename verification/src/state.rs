pub mod claimables;
pub mod order_store;
pub mod market;
pub mod pool_balances;
pub mod position_store;
