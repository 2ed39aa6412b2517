//! A row of the fill logs that a builder publishes.

use crate::domain::decimal::Decimal;
use crate::domain::primitives::Address;
use crate::domain::primitives::Coin;
use crate::domain::primitives::Side;
use crate::domain::primitives::TimeMs;
use vstd::prelude::*;

verus! {

/// One fill as a builder's log reports it.
#[derive(Debug, PartialEq, Eq)]
pub struct BuilderLogFill {
    pub time_ms: TimeMs,
    pub user: Address,
    pub coin: Coin,
    pub side: Side,
    pub px: Decimal,
    pub sz: Decimal,
    pub tid: Option<i64>,
    pub oid: Option<i64>,
}

impl Clone for BuilderLogFill {
    fn clone(&self) -> (r: BuilderLogFill)
        ensures
            r == *self,
    {
        BuilderLogFill {
            time_ms: self.time_ms,
            user: self.user.clone(),
            coin: self.coin.clone(),
            side: self.side,
            px: self.px,
            sz: self.sz,
            tid: self.tid,
            oid: self.oid,
        }
    }
}

} // verus!
