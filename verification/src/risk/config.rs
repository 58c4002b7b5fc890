//! Protocol-level risk constraints.

use vstd::prelude::*;

use crate::types::Usd;

verus! {

/// Generic fixed-point scale, `10^18`.
pub fn fp_scale() -> (r: i128)
    ensures
        r == 1000000000000000000i128,
{
    1_000_000_000_000_000_000
}

/// Protocol-level risk constraints.
#[derive(Clone, Copy, Debug, PartialEq, Eq, Structural)]
pub struct RiskCfg {
    /// Remaining positions below this size are dust and are closed in full.
    pub min_position_size_usd: Usd,
    /// Absolute minimum collateral (USD) required to keep a position open.
    pub min_collateral_usd: Usd,
    /// Minimal collateral fraction (fixed-point) required vs position
    /// notional; e.g. max leverage 50x means a factor of 1/50 = 0.02.
    pub min_collateral_factor_fp: i128,
    /// Fixed-point scale used by `min_collateral_factor_fp`.
    pub factor_scale: i128,
}

impl RiskCfg {
    /// Default constraints: a $10 dust threshold, a $5 absolute collateral
    /// floor, and a minimum collateral factor of 1/50 (50x max leverage).
    pub fn mvp() -> (r: RiskCfg)
        ensures
            r == (RiskCfg {
                min_position_size_usd: 10i128,
                min_collateral_usd: 5i128,
                min_collateral_factor_fp: 20000000000000000i128,
                factor_scale: 1000000000000000000i128,
            }),
    {
        let min_collateral_factor_fp = fp_scale() / 50;
        RiskCfg {
            min_position_size_usd: 10,
            min_collateral_usd: 5,
            min_collateral_factor_fp,
            factor_scale: fp_scale(),
        }
    }
}

impl Default for RiskCfg {
    fn default() -> (r: RiskCfg)
        ensures
            r == (RiskCfg {
                min_position_size_usd: 10i128,
                min_collateral_usd: 5i128,
                min_collateral_factor_fp: 20000000000000000i128,
                factor_scale: 1000000000000000000i128,
            }),
    {
        RiskCfg::mvp()
    }
}

} // verus!
