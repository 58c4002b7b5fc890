//! Oracle boundary: the host supplies validated prices per market.

use vstd::prelude::*;

use crate::types::{DomainError, MarketId, OraclePrices};

verus! {

/// Price source consumed by the core. A successful result carries four
/// strictly positive prices with each minimum at most its maximum.
pub trait Oracle {
    fn validate_and_get_prices(&self, market_id: MarketId) -> (r: Result<
        OraclePrices,
        DomainError,
    >)
        ensures
            r is Ok ==> {
                let p = r->Ok_0;
                &&& 0 < p.index_price_min <= p.index_price_max
                &&& 0 < p.collateral_price_min <= p.collateral_price_max
            },
    ;
}

} // verus!
