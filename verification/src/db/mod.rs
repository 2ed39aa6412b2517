//! The rows that queries read from the store, and what is decided around the
//! store without touching it: how keys are split into chunks, and how ids are
//! put in order.

use crate::domain::decimal::Decimal;
use crate::domain::primitives::Coin;
use crate::domain::primitives::TimeMs;
use crate::sorting::sort_ranked;
use crate::sorting::Ranked;
use vstd::prelude::*;

verus! {

/// The most keys that one query names.
pub const CHUNK_SIZE: usize = 500;

/// A position snapshot with the taint of its lifecycle.
#[derive(Debug, PartialEq, Eq)]
pub struct PositionSnapshotRow {
    pub time_ms: TimeMs,
    pub seq: i32,
    pub coin: Coin,
    pub net_size: String,
    pub avg_entry_px: String,
    pub lifecycle_id: i64,
    pub lifecycle_tainted: bool,
}

/// What of an effect goes into realized profit and loss.
#[derive(Debug, Clone, Copy, PartialEq, Eq)]
pub struct PnlFillEffect {
    pub lifecycle_id: i64,
    pub fee: Decimal,
    pub closed_pnl: Decimal,
}

/// What of an effect goes into the leaderboard.
#[derive(Debug, PartialEq, Eq)]
pub struct LeaderboardFillEffect {
    pub fill_key: String,
    pub lifecycle_id: i64,
    pub notional: Decimal,
    pub fee: Decimal,
    pub closed_pnl: Decimal,
}

impl Ranked for i64 {
    open spec fn before(&self, other: &i64) -> bool {
        *self < *other
    }

    fn comes_before(&self, other: &i64) -> (r: bool) {
        *self < *other
    }

    proof fn lemma_irreflexive(a: &i64) {
    }

    proof fn lemma_transitive(a: &i64, b: &i64, c: &i64) {
    }

    proof fn lemma_not_before_transitive(a: &i64, b: &i64, c: &i64) {
    }
}

/// Strictly increasing.
pub open spec fn strictly_increasing(ids: Seq<i64>) -> bool {
    forall|i: int, j: int| 0 <= i < j < ids.len() ==> ids[i] < ids[j]
}

/// Every element of `a` occurs in `b`.
pub open spec fn covered_by(a: Seq<i64>, b: Seq<i64>) -> bool {
    forall|k: int| 0 <= k < a.len() ==> b.contains(#[trigger] a[k])
}

/// The ids in increasing order, each once.
pub fn sorted_distinct_ids(ids: Vec<i64>) -> (r: Vec<i64>)
    ensures
        strictly_increasing(r@),
        covered_by(r@, ids@),
        covered_by(ids@, r@),
{
    let mut sorted = ids;
    sort_ranked(&mut sorted);
    proof {
        sorted@.to_multiset_ensures();
        ids@.to_multiset_ensures();
        assert forall|k: int| 0 <= k < sorted@.len() implies ids@.contains(
            #[trigger] sorted@[k],
        ) by {
            assert(sorted@.contains(sorted@[k]));
            assert(sorted@.to_multiset().count(sorted@[k]) > 0);
        }
        assert forall|k: int| 0 <= k < ids@.len() implies sorted@.contains(#[trigger] ids@[k]) by {
            assert(ids@.contains(ids@[k]));
            assert(ids@.to_multiset().count(ids@[k]) > 0);
        }
    }
    let mut out: Vec<i64> = Vec::new();
    let mut i: usize = 0;
    while i < sorted.len()
        invariant
            i <= sorted@.len(),
            crate::sorting::is_sorted(sorted@),
            strictly_increasing(out@),
            covered_by(out@, sorted@),
            covered_by(sorted@.take(i as int), out@),
            out@.len() > 0 ==> i > 0 && out@.last() == sorted@[i - 1],
        decreases sorted@.len() - i,
    {
        let x = sorted[i];
        let ghost before = out@;
        let fresh = out.len() == 0 || out[out.len() - 1] != x;
        if fresh {
            proof {
                if before.len() > 0 {
                    assert(!sorted@[i as int].before(&sorted@[i - 1]));
                }
            }
            out.push(x);
        }
        proof {
            let shorter = sorted@.take(i as int);
            let longer = sorted@.take(i + 1);
            assert forall|k: int| 0 <= k < out@.len() implies sorted@.contains(
                #[trigger] out@[k],
            ) by {
                if k < before.len() {
                    assert(out@[k] == before[k]);
                } else {
                    assert(sorted@[i as int] == out@[k]);
                }
            }
            assert forall|k: int| 0 <= k < longer.len() implies out@.contains(
                #[trigger] longer[k],
            ) by {
                if k < i {
                    assert(longer[k] == shorter[k]);
                    assert(before.contains(shorter[k]));
                    let m = choose|m: int| 0 <= m < before.len() && before[m] == shorter[k];
                    assert(out@[m] == longer[k]);
                } else {
                    assert(out@[out@.len() - 1] == longer[k]);
                }
            }
        }
        i += 1;
    }
    proof {
        assert(sorted@.take(i as int) =~= sorted@);
        assert forall|k: int| 0 <= k < out@.len() implies ids@.contains(#[trigger] out@[k]) by {
            assert(sorted@.contains(out@[k]));
            let m = choose|m: int| 0 <= m < sorted@.len() && sorted@[m] == out@[k];
            assert(ids@.contains(sorted@[m]));
        }
        assert forall|k: int| 0 <= k < ids@.len() implies out@.contains(#[trigger] ids@[k]) by {
            assert(sorted@.contains(ids@[k]));
            let m = choose|m: int| 0 <= m < sorted@.len() && sorted@[m] == ids@[k];
            assert(out@.contains(sorted@[m]));
        }
    }
    out
}

/// The bounds of the chunks that `len` keys are split into: consecutive ranges
/// that cover `0..len`, each of `CHUNK_SIZE` keys but the last, which holds what
/// is left and is not empty.
pub fn chunk_bounds(len: usize) -> (r: Vec<(usize, usize)>)
    ensures
        forall|i: int|
            0 <= i < r@.len() ==> (#[trigger] r@[i]).0 < r@[i].1 && r@[i].1 - r@[i].0
                <= CHUNK_SIZE,
        forall|i: int| 0 <= i < r@.len() - 1 ==> (#[trigger] r@[i]).1 - r@[i].0 == CHUNK_SIZE,
        r@.len() > 0 ==> r@[0].0 == 0 && r@.last().1 == len,
        forall|i: int| 0 <= i < r@.len() - 1 ==> (#[trigger] r@[i]).1 == r@[i + 1].0,
        len == 0 <==> r@.len() == 0,
{
    let mut bounds: Vec<(usize, usize)> = Vec::new();
    let mut start: usize = 0;
    while start < len
        invariant
            start <= len,
            forall|i: int|
                0 <= i < bounds@.len() ==> (#[trigger] bounds@[i]).0 < bounds@[i].1
                    && bounds@[i].1 - bounds@[i].0 <= CHUNK_SIZE,
            bounds@.len() > 0 ==> bounds@[0].0 == 0 && bounds@.last().1 == start,
            bounds@.len() == 0 ==> start == 0,
            forall|i: int| 0 <= i < bounds@.len() - 1 ==> (#[trigger] bounds@[i]).1 == bounds@[i
                + 1].0,
            forall|i: int|
                0 <= i < bounds@.len() && (i < bounds@.len() - 1 || start < len) ==> (
                #[trigger] bounds@[i]).1 - bounds@[i].0 == CHUNK_SIZE,
        decreases len - start,
    {
        let end = if len - start > CHUNK_SIZE {
            start + CHUNK_SIZE
        } else {
            len
        };
        bounds.push((start, end));
        start = end;
    }
    bounds
}

} // verus!
