//! Matching fills against a builder's fill logs.
//!
//! A fill matches exactly when its trade id occurs in the logs. Otherwise it
//! matches fuzzily when a row for the same account, coin and side lies within the
//! tolerances in time, price and size.

use crate::domain::attribution::AttributionConfidence;
use crate::domain::builder_logs::BuilderLogFill;
use crate::domain::decimal::checked_difference;
use crate::domain::decimal::Decimal;
use crate::domain::fill::Fill;
use crate::text::ascii_lower;
use crate::text::ascii_upper;
use crate::text::str_equal;
use crate::text::to_ascii_lower;
use crate::text::to_ascii_upper;
use std::collections::HashMap;
use vstd::prelude::*;

verus! {

/// How far a log row may lie from a fill and still match it.
#[derive(Debug, Clone, Copy, PartialEq, Eq)]
pub struct MatchTolerances {
    /// Largest difference in time, in milliseconds.
    pub time_ms: i64,
    /// Largest difference in price.
    pub px_abs: Decimal,
    /// Largest difference in size.
    pub sz_abs: Decimal,
}

impl Default for MatchTolerances {
    /// One second, and a millionth in price and in size.
    fn default() -> (r: MatchTolerances)
        ensures
            r.time_ms == 1000,
            r.px_abs.mantissa() == 1 && r.px_abs.scale() == 6,
            r.sz_abs.mantissa() == 1 && r.sz_abs.scale() == 6,
    {
        let millionth = Decimal::from_parts(1, 6).unwrap();
        MatchTolerances { time_ms: 1000, px_abs: millionth, sz_abs: millionth }
    }
}

/// Two decimals differ by no more than the tolerance. A difference that is out of
/// range is not within any tolerance.
pub open spec fn decimal_within(a: Decimal, b: Decimal, tolerance: Decimal) -> bool {
    match checked_difference(a, b) {
        Some(d) => !tolerance.less_than(&d.magnitude()),
        None => false,
    }
}

/// The row is for the account, coin and side of the fill: the account compared
/// without regard to ASCII case, and so the coin.
pub open spec fn same_market(row: BuilderLogFill, fill: Fill) -> bool {
    &&& ascii_lower(row.user.0@) == ascii_lower(fill.user.0@)
    &&& ascii_upper(row.coin.0@) == ascii_upper(fill.coin.0@)
    &&& row.side == fill.side
}

/// The row lies within the tolerances of the fill.
pub open spec fn within_tolerances(row: BuilderLogFill, fill: Fill, t: MatchTolerances) -> bool {
    &&& -(t.time_ms as int) <= fill.time_ms.0 - row.time_ms.0 <= t.time_ms
    &&& decimal_within(fill.px, row.px, t.px_abs)
    &&& decimal_within(fill.sz, row.sz, t.sz_abs)
}

/// A row with the trade id occurs in the logs.
pub open spec fn tid_in_logs(logs: Seq<BuilderLogFill>, tid: i64) -> bool {
    exists|i: int| 0 <= i < logs.len() && (#[trigger] logs[i]).tid == Some(tid)
}

/// A row of the logs matches the fill fuzzily.
pub open spec fn fuzzy_in_logs(logs: Seq<BuilderLogFill>, fill: Fill, t: MatchTolerances) -> bool {
    exists|i: int|
        0 <= i < logs.len() && same_market(#[trigger] logs[i], fill) && within_tolerances(
            logs[i],
            fill,
            t,
        )
}

/// How the logs match a fill, if they do.
pub open spec fn log_match(logs: Seq<BuilderLogFill>, fill: Fill, t: MatchTolerances) -> Option<
    AttributionConfidence,
> {
    if fill.tid is Some && tid_in_logs(logs, fill.tid->Some_0) {
        Some(AttributionConfidence::Exact)
    } else if fuzzy_in_logs(logs, fill, t) {
        Some(AttributionConfidence::Fuzzy)
    } else {
        None
    }
}

/// The account and coin of a row, folded for comparison.
struct MarketKey {
    user: String,
    coin: String,
}

/// An index over one day's log rows.
pub struct BuilderLogsIndex<'a> {
    logs: &'a [BuilderLogFill],
    by_tid: HashMap<i64, usize>,
    keys: Vec<MarketKey>,
}

fn within(a: &Decimal, b: &Decimal, tolerance: &Decimal) -> (r: bool)
    ensures
        r == decimal_within(*a, *b, *tolerance),
{
    match a.checked_sub(b) {
        Some(d) => !d.abs().gt(tolerance),
        None => false,
    }
}

impl<'a> BuilderLogsIndex<'a> {
    /// The rows that the index is over.
    pub closed spec fn rows(&self) -> Seq<BuilderLogFill> {
        self.logs@
    }

    /// The index agrees with its rows.
    pub closed spec fn wf(&self) -> bool {
        &&& forall|tid: i64| self.by_tid@.contains_key(tid) <==> tid_in_logs(self.logs@, tid)
        &&& self.keys@.len() == self.logs@.len()
        &&& forall|i: int|
            0 <= i < self.keys@.len() ==> (#[trigger] self.keys@[i]).user@ == ascii_lower(
                self.logs@[i].user.0@,
            ) && self.keys@[i].coin@ == ascii_upper(self.logs@[i].coin.0@)
    }

    /// An index over the rows given.
    pub fn new(logs: &'a [BuilderLogFill]) -> (r: BuilderLogsIndex<'a>)
        ensures
            r.wf(),
            r.rows() == logs@,
    {
        broadcast use vstd::std_specs::hash::group_hash_axioms;

        let mut by_tid: HashMap<i64, usize> = HashMap::new();
        let mut keys: Vec<MarketKey> = Vec::new();
        let mut i: usize = 0;
        while i < logs.len()
            invariant
                i <= logs@.len(),
                forall|tid: i64|
                    by_tid@.contains_key(tid) <==> exists|k: int|
                        0 <= k < i && (#[trigger] logs@[k]).tid == Some(tid),
                keys@.len() == i,
                forall|k: int|
                    0 <= k < i ==> (#[trigger] keys@[k]).user@ == ascii_lower(logs@[k].user.0@)
                        && keys@[k].coin@ == ascii_upper(logs@[k].coin.0@),
            decreases logs@.len() - i,
        {
            let row = &logs[i];
            let ghost before = by_tid@;
            if let Some(tid) = row.tid {
                by_tid.insert(tid, i);
            }
            proof {
                assert forall|tid: i64|
                    by_tid@.contains_key(tid) <==> exists|k: int|
                        0 <= k < i + 1 && (#[trigger] logs@[k]).tid == Some(tid) by {
                    if before.contains_key(tid) {
                        let k = choose|k: int| 0 <= k < i && (#[trigger] logs@[k]).tid == Some(tid);
                        assert(0 <= k < i + 1);
                    }
                    if row.tid == Some(tid) {
                        assert(logs@[i as int].tid == Some(tid));
                    }
                }
            }
            keys.push(
                MarketKey {
                    user: to_ascii_lower(row.user.as_str()),
                    coin: to_ascii_upper(row.coin.as_str()),
                },
            );
            i += 1;
        }
        BuilderLogsIndex { logs, by_tid, keys }
    }

    /// How the logs match the fill: exactly by trade id, else fuzzily within the
    /// tolerances, else not at all.
    pub fn match_fill(&self, fill: &Fill, tolerances: &MatchTolerances) -> (r: Option<
        AttributionConfidence,
    >)
        requires
            self.wf(),
        ensures
            r == log_match(self.rows(), *fill, *tolerances),
    {
        broadcast use vstd::std_specs::hash::group_hash_axioms;

        if let Some(tid) = fill.tid {
            if self.by_tid.contains_key(&tid) {
                return Some(AttributionConfidence::Exact);
            }
        }
        if self.fuzzy_match(fill, tolerances) {
            Some(AttributionConfidence::Fuzzy)
        } else {
            None
        }
    }

    /// True if a row matches the fill fuzzily.
    fn fuzzy_match(&self, fill: &Fill, tolerances: &MatchTolerances) -> (r: bool)
        requires
            self.wf(),
        ensures
            r == fuzzy_in_logs(self.rows(), *fill, *tolerances),
    {
        let user = to_ascii_lower(fill.user.as_str());
        let coin = to_ascii_upper(fill.coin.as_str());
        let mut i: usize = 0;
        while i < self.logs.len()
            invariant
                self.wf(),
                i <= self.logs@.len(),
                user@ == ascii_lower(fill.user.0@),
                coin@ == ascii_upper(fill.coin.0@),
                forall|k: int|
                    0 <= k < i ==> !(same_market(#[trigger] self.logs@[k], *fill)
                        && within_tolerances(self.logs@[k], *fill, *tolerances)),
            decreases self.logs@.len() - i,
        {
            let row = &self.logs[i];
            let key = &self.keys[i];
            if str_equal(key.user.as_str(), user.as_str()) && str_equal(
                key.coin.as_str(),
                coin.as_str(),
            ) && row.side == fill.side {
                let dt: i128 = fill.time_ms.as_ms() as i128 - row.time_ms.as_ms() as i128;
                let limit: i128 = tolerances.time_ms as i128;
                if -limit <= dt && dt <= limit && within(&fill.px, &row.px, &tolerances.px_abs)
                    && within(&fill.sz, &row.sz, &tolerances.sz_abs) {
                    return true;
                }
            }
            i += 1;
        }
        false
    }
}

} // verus!
