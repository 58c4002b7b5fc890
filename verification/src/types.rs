//! Shared scalar types, identifiers, order descriptions and error kinds.

use vstd::prelude::*;

verus! {

/// Monotonic seconds counter.
pub type Timestamp = u64;

/// Signed USD amount (may be negative for PnL, impact, fees owed).
pub type Usd = i128;

/// Signed token amount (may be negative for pending impact).
pub type TokenAmount = i128;

#[derive(Clone, Copy, Debug, PartialEq, Eq, Hash, Default, Structural)]
pub struct MarketId(pub u32);

#[derive(Clone, Copy, Debug, PartialEq, Eq, Hash, Default, Structural)]
pub struct AssetId(pub u32);

#[derive(Clone, Copy, Debug, PartialEq, Eq, Hash, Structural)]
pub struct OrderId(pub u64);

/// 32-byte opaque account identity.
#[derive(Clone, Copy, Debug, Eq, Hash, Default)]
pub struct AccountId(pub [u8; 32]);

impl PartialEq for AccountId {
    fn eq(&self, other: &AccountId) -> (r: bool) {
        let mut i: usize = 0;
        while i < 32
            invariant
                0 <= i <= 32,
                forall|j: int| 0 <= j < i ==> self.0@[j] == other.0@[j],
            decreases 32 - i,
        {
            if self.0[i] != other.0[i] {
                return false;
            }
            i = i + 1;
        }
        proof {
            vstd::array::axiom_array_ext_equal(self.0, other.0);
            assert(self.0@ =~= other.0@);
        }
        true
    }
}

impl vstd::std_specs::cmp::PartialEqSpecImpl for AccountId {
    open spec fn obeys_eq_spec() -> bool {
        true
    }

    open spec fn eq_spec(&self, other: &AccountId) -> bool {
        self.0 == other.0
    }
}

#[derive(Clone, Copy, Debug, PartialEq, Eq, Hash, Structural)]
pub enum Side {
    Long,
    Short,
}

#[derive(Clone, Copy, Debug, PartialEq, Eq, Structural)]
pub enum OrderType {
    Increase,
    Decrease,
    Liquidation,
}

/// Oracle price snapshot for the index and collateral assets.
///
/// All four prices must be strictly positive when consumed; the math
/// services reject non-positive prices explicitly.
#[derive(Clone, Copy, Debug)]
pub struct OraclePrices {
    pub index_price_min: Usd,
    pub index_price_max: Usd,
    pub collateral_price_min: Usd,
    pub collateral_price_max: Usd,
}

/// An order as consumed by the core. The core never mutates an order.
#[derive(Clone, Debug)]
pub struct Order {
    pub account: AccountId,
    pub market_id: MarketId,
    pub collateral_token: AssetId,
    pub side: Side,
    pub order_type: OrderType,
    pub collateral_delta_tokens: TokenAmount,
    pub size_delta_usd: Usd,
    /// Withdraw collateral tokens while partially closing.
    /// Independent from `size_delta_usd`; it can increase leverage if not guarded.
    pub withdraw_collateral_amount: TokenAmount,
    /// Target leverage for this step, e.g. 5 means 5x.
    pub target_leverage_x: i64,
    pub created_at: Timestamp,
    pub valid_from: Timestamp,
    pub valid_until: Timestamp,
}

/// Domain error kinds: recoverable by the caller, surfaced as typed results.
#[derive(Clone, Copy, Debug, PartialEq, Eq, Structural)]
pub enum DomainError {
    DivCeilInvalid,
    DivFloorInvalid,
    MulDivZeroDenom,
    MulOverflow,
    DivOverflow,
    InvalidPnlPrice,
    PnlValueOverflow,
    InvalidPosSizeTokens,
    InvalidCollateralPriceMin,
    InvalidCollateralPriceMax,
    InvalidFactorScale,
    InvalidPositionOrSizeDelta,
    SizeDeltaMulOverflow,
    SizeDeltaUsdMustBePositive,
    WithdrawCollateralAmountMustBeNonNegative,
    PositionEmptyOrCorrupted,
    PositionCollateralNegative,
    PositionNegativeValuesAfterSettlement,
    CollateralUsdOverflow,
    MinForLeverageOverflow,
    RemainingCollateralBelowMin,
    RemainingPositionExceedsMaxLeverage,
    NothingToClaim,
    InsufficientPoolLiquidity,
}

} // verus!
