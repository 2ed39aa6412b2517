//! The window that is fetched from the exchange for a query.

use crate::domain::primitives::Coin;
use crate::domain::primitives::TimeMs;
use vstd::prelude::*;

verus! {

/// What an ingestion did.
#[derive(Debug, Clone, Copy, PartialEq, Eq)]
pub struct IngestionResult {
    /// Fills that the exchange returned.
    pub fills_fetched: usize,
    /// Fills that were not stored before.
    pub fills_new: usize,
    /// Start of the window fetched.
    pub fetch_from: TimeMs,
    /// End of the window fetched.
    pub fetch_to: TimeMs,
}

/// The start of the window to fetch: the start asked for (or zero) less the
/// lookback, not below zero and not above the largest time.
pub open spec fn fetch_start(requested_from: Option<TimeMs>, lookback_ms: i64) -> int {
    let from: int = match requested_from {
        Some(t) => t.0 as int,
        None => 0,
    };
    let start = from - lookback_ms;
    if start < 0 {
        0
    } else if start > i64::MAX {
        i64::MAX as int
    } else {
        start
    }
}

/// The start of the window to fetch. The lookback widens the window into the
/// past so that fills that arrived late are fetched again.
pub fn compute_fetch_start(requested_from: Option<TimeMs>, lookback_ms: i64) -> (r: TimeMs)
    ensures
        r.0 == fetch_start(requested_from, lookback_ms),
        r.0 >= 0,
{
    let from: i128 = match requested_from {
        Some(t) => t.as_ms() as i128,
        None => 0,
    };
    let start: i128 = from - lookback_ms as i128;
    if start < 0 {
        TimeMs::new(0)
    } else if start > i64::MAX as i128 {
        TimeMs::new(i64::MAX)
    } else {
        TimeMs::new(start as i64)
    }
}

/// The window to fetch: from the start less the lookback to the end asked for,
/// or to now where no end is asked for.
pub fn fetch_window(
    requested_from: Option<TimeMs>,
    requested_to: Option<TimeMs>,
    now: TimeMs,
    lookback_ms: i64,
) -> (r: (TimeMs, TimeMs))
    ensures
        r.0.0 == fetch_start(requested_from, lookback_ms),
        r.1 == (match requested_to {
            Some(t) => t,
            None => now,
        }),
{
    let fetch_to = match requested_to {
        Some(t) => t,
        None => now,
    };
    (compute_fetch_start(requested_from, lookback_ms), fetch_to)
}

/// The window to fetch for a query made now: as `fetch_window`, the clock read
/// only where the query names no end.
pub fn current_fetch_window(
    requested_from: Option<TimeMs>,
    requested_to: Option<TimeMs>,
    lookback_ms: i64,
) -> (r: (TimeMs, TimeMs))
    ensures
        r.0.0 == fetch_start(requested_from, lookback_ms),
        requested_to matches Some(t) ==> r.1 == t,
{
    let now = match requested_to {
        Some(t) => t,
        None => TimeMs::now(),
    };
    fetch_window(requested_from, requested_to, now, lookback_ms)
}

/// The coin as the exchange is asked for it: the empty text stands for all coins.
pub fn coin_filter(coin: Option<&Coin>) -> (r: &str)
    ensures
        r@ == (match coin {
            Some(c) => c.0@,
            None => Seq::<char>::empty(),
        }),
{
    match coin {
        Some(c) => c.as_str(),
        None => {
            assert(""@ =~= Seq::<char>::empty()) by {
                reveal_strlit("");
            }
            ""
        },
    }
}

/// The outcome of an ingestion.
pub fn ingestion_result(fills_fetched: usize, fills_new: usize, window: (TimeMs, TimeMs)) -> (r:
    IngestionResult)
    ensures
        r.fills_fetched == fills_fetched,
        r.fills_new == fills_new,
        r.fetch_from == window.0,
        r.fetch_to == window.1,
{
    IngestionResult { fills_fetched, fills_new, fetch_from: window.0, fetch_to: window.1 }
}

} // verus!
