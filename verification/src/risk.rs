pub mod config;
pub mod validation;
