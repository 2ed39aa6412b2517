//! The equity of an account at a time: a stored snapshot where there is one at
//! or before the time, else deposits plus realized profit and loss, which is
//! then stored.

use crate::domain::decimal::decimal_sum;
use crate::domain::decimal::Decimal;
use crate::domain::primitives::TimeMs;
use vstd::prelude::*;

verus! {

/// What to do for the equity of an account at a time.
#[derive(Debug, Clone, Copy, PartialEq, Eq)]
pub enum EquityPlan {
    /// A snapshot is stored: its equity is the answer, and nothing is computed.
    UseSnapshot(Decimal),
    /// Nothing is stored: the equity is to be derived and stored.
    Derive,
}

/// What the resolver found or derived.
#[derive(Debug, Clone, Copy, PartialEq, Eq)]
pub struct ResolvedEquity {
    /// The equity.
    pub equity: Decimal,
    /// The snapshot to store, where the equity was derived: its time and equity.
    pub store: Option<(TimeMs, Decimal)>,
}

/// Resolves the equity of an account at a time.
pub struct EquityResolver;

impl EquityResolver {
    /// The plan, given the snapshot stored at or before the time, if any.
    pub fn plan(stored: Option<(TimeMs, Decimal)>) -> (r: EquityPlan)
        ensures
            r == (match stored {
                Some((_, equity)) => EquityPlan::UseSnapshot(equity),
                None => EquityPlan::Derive,
            }),
    {
        match stored {
            Some((_, equity)) => EquityPlan::UseSnapshot(equity),
            None => EquityPlan::Derive,
        }
    }

    /// The derived equity: the deposits up to the time plus the profit and loss
    /// realized before it. Unrealized profit and loss and funding are left out.
    /// `None` where the sum is out of range.
    pub fn derive_equity(deposits_sum: Decimal, realized_pnl_before: Decimal) -> (r: Option<
        Decimal,
    >)
        ensures
            r == decimal_sum(deposits_sum, realized_pnl_before),
    {
        deposits_sum.checked_add(&realized_pnl_before)
    }

    /// The equity at `at_ms`: that of the stored snapshot where there is one, and
    /// then nothing is to be stored; else the derived equity, which is to be
    /// stored under `at_ms`. `None` where the derived sum is out of range.
    pub fn resolve_equity(
        at_ms: TimeMs,
        stored: Option<(TimeMs, Decimal)>,
        deposits_sum: Decimal,
        realized_pnl_before: Decimal,
    ) -> (r: Option<ResolvedEquity>)
        ensures
            r == (match stored {
                Some((_, equity)) => Some(ResolvedEquity { equity, store: None }),
                None => match decimal_sum(deposits_sum, realized_pnl_before) {
                    Some(equity) => Some(
                        ResolvedEquity { equity, store: Some((at_ms, equity)) },
                    ),
                    None => None,
                },
            }),
    {
        match EquityResolver::plan(stored) {
            EquityPlan::UseSnapshot(equity) => Some(ResolvedEquity { equity, store: None }),
            EquityPlan::Derive => match EquityResolver::derive_equity(
                deposits_sum,
                realized_pnl_before,
            ) {
                Some(equity) => Some(ResolvedEquity { equity, store: Some((at_ms, equity)) }),
                None => None,
            },
        }
    }
}

} // verus!
