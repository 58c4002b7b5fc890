//! Impact pool distribution. Redistribution of accrued impact is
//! deferred; the basic implementation does nothing.

use vstd::prelude::*;

use crate::types::Timestamp;

verus! {

pub trait ImpactPoolService {
    /// Distribute accrued impact up to `now`.
    fn distribute(&self, now: Timestamp);
}

#[derive(Default)]
pub struct BasicImpactPoolService;

impl ImpactPoolService for BasicImpactPoolService {
    fn distribute(&self, now: Timestamp) {
    }
}

} // verus!
