//! The history of an account's positions over a window.

use crate::db::PositionSnapshotRow;
use crate::domain::ordering::lemma_text_order_facts;
use crate::sorting::is_stable_sort_of;
use crate::sorting::sort_ranked;
use crate::sorting::Ranked;
use crate::text::i64_text;
use crate::text::int_text;
use crate::text::str_less;
use crate::text::text_less;
use vstd::prelude::*;

verus! {

/// The query for the history of positions.
#[derive(Debug)]
pub struct PositionsHistoryQuery {
    pub user: String,
    pub coin: Option<String>,
    pub from_ms: Option<i64>,
    pub to_ms: Option<i64>,
    pub builder_only: Option<bool>,
}

/// One snapshot of a position.
#[derive(Debug, PartialEq, Eq)]
pub struct PositionSnapshotDto {
    pub time_ms: i64,
    pub coin: String,
    pub net_size: String,
    pub avg_entry_px: String,
    pub lifecycle_id: String,
    /// Set for builder-only queries; the snapshots shown are never tainted.
    pub tainted: Option<bool>,
}

/// The history of positions.
#[derive(Debug, PartialEq, Eq)]
pub struct PositionsHistoryResponse {
    pub snapshots: Vec<PositionSnapshotDto>,
    /// Set for builder-only queries: whether snapshots were left out.
    pub tainted: Option<bool>,
}

/// Snapshot `a` comes before snapshot `b`: by time, then `seq`, then coin, then
/// lifecycle.
pub open spec fn snapshot_before(a: PositionSnapshotRow, b: PositionSnapshotRow) -> bool {
    a.time_ms.0 < b.time_ms.0 || (a.time_ms.0 == b.time_ms.0 && (a.seq < b.seq || (a.seq == b.seq
        && (text_less(a.coin.0@, b.coin.0@) || (a.coin.0@ == b.coin.0@ && a.lifecycle_id
        < b.lifecycle_id)))))
}

impl Ranked for PositionSnapshotRow {
    open spec fn before(&self, other: &PositionSnapshotRow) -> bool {
        snapshot_before(*self, *other)
    }

    fn comes_before(&self, other: &PositionSnapshotRow) -> (r: bool) {
        proof {
            lemma_text_order_facts(self.coin.0@, other.coin.0@, other.coin.0@);
        }
        if self.time_ms.as_ms() != other.time_ms.as_ms() {
            return self.time_ms.as_ms() < other.time_ms.as_ms();
        }
        if self.seq != other.seq {
            return self.seq < other.seq;
        }
        if str_less(self.coin.as_str(), other.coin.as_str()) {
            return true;
        }
        if str_less(other.coin.as_str(), self.coin.as_str()) {
            return false;
        }
        self.lifecycle_id < other.lifecycle_id
    }

    proof fn lemma_irreflexive(a: &PositionSnapshotRow) {
        lemma_text_order_facts(a.coin.0@, a.coin.0@, a.coin.0@);
    }

    proof fn lemma_transitive(
        a: &PositionSnapshotRow,
        b: &PositionSnapshotRow,
        c: &PositionSnapshotRow,
    ) {
        lemma_text_order_facts(a.coin.0@, b.coin.0@, c.coin.0@);
    }

    proof fn lemma_not_before_transitive(
        a: &PositionSnapshotRow,
        b: &PositionSnapshotRow,
        c: &PositionSnapshotRow,
    ) {
        lemma_text_order_facts(a.coin.0@, b.coin.0@, c.coin.0@);
    }
}

/// The entry shows the snapshot.
pub open spec fn shows_snapshot(
    dto: PositionSnapshotDto,
    row: PositionSnapshotRow,
    builder_only: bool,
) -> bool {
    &&& dto.time_ms == row.time_ms.0
    &&& dto.coin@ == row.coin.0@
    &&& dto.net_size@ == row.net_size@
    &&& dto.avg_entry_px@ == row.avg_entry_px@
    &&& dto.lifecycle_id@ == int_text(row.lifecycle_id as int)
    &&& dto.tainted == (if builder_only {
        Some(false)
    } else {
        None
    })
}

/// The snapshots that a query shows: all of them, or, builder-only, those of
/// lifecycles that are not tainted.
pub open spec fn shown_rows(rows: Seq<PositionSnapshotRow>, builder_only: bool) -> Seq<
    PositionSnapshotRow,
> {
    if builder_only {
        rows.filter(|row: PositionSnapshotRow| !row.lifecycle_tainted)
    } else {
        rows
    }
}

/// The answer is that for the snapshots in the order given.
pub open spec fn history_answers_in_order(
    rows: Seq<PositionSnapshotRow>,
    builder_only: bool,
    r: PositionsHistoryResponse,
) -> bool {
    &&& r.tainted == (if builder_only {
        Some(exists|i: int| 0 <= i < rows.len() && (#[trigger] rows[i]).lifecycle_tainted)
    } else {
        None
    })
    &&& r.snapshots@.len() == shown_rows(rows, builder_only).len()
    &&& forall|i: int|
        0 <= i < r.snapshots@.len() ==> shows_snapshot(
            #[trigger] r.snapshots@[i],
            shown_rows(rows, builder_only)[i],
            builder_only,
        )
}

/// The answer is that for the snapshots of a window: for the snapshots by time,
/// then `seq`, then coin, then lifecycle.
pub open spec fn answers_history(
    rows: Seq<PositionSnapshotRow>,
    builder_only: bool,
    r: PositionsHistoryResponse,
) -> bool {
    exists|ordered: Seq<PositionSnapshotRow>|
        #![trigger is_stable_sort_of(ordered, rows)]
        is_stable_sort_of(ordered, rows) && history_answers_in_order(ordered, builder_only, r)
}

/// Two entries show the same.
pub open spec fn same_snapshot(a: PositionSnapshotDto, b: PositionSnapshotDto) -> bool {
    &&& a.time_ms == b.time_ms
    &&& a.coin@ == b.coin@
    &&& a.net_size@ == b.net_size@
    &&& a.avg_entry_px@ == b.avg_entry_px@
    &&& a.lifecycle_id@ == b.lifecycle_id@
    &&& a.tainted == b.tainted
}

/// The same query over the same rows has one answer.
pub proof fn lemma_history_answer_determined(
    rows: Seq<PositionSnapshotRow>,
    builder_only: bool,
    first: PositionsHistoryResponse,
    second: PositionsHistoryResponse,
)
    requires
        answers_history(rows, builder_only, first),
        answers_history(rows, builder_only, second),
    ensures
        first.tainted == second.tainted,
        first.snapshots@.len() == second.snapshots@.len(),
        forall|i: int|
            0 <= i < first.snapshots@.len() ==> same_snapshot(
                #[trigger] first.snapshots@[i],
                second.snapshots@[i],
            ),
{
    let a = choose|ordered: Seq<PositionSnapshotRow>|
        #![trigger is_stable_sort_of(ordered, rows)]
        is_stable_sort_of(ordered, rows) && history_answers_in_order(ordered, builder_only, first);
    let b = choose|ordered: Seq<PositionSnapshotRow>|
        #![trigger is_stable_sort_of(ordered, rows)]
        is_stable_sort_of(ordered, rows) && history_answers_in_order(ordered, builder_only, second);
    crate::sorting::lemma_stable_sort_unique(a, b, rows);
    assert forall|i: int| 0 <= i < first.snapshots@.len() implies same_snapshot(
        #[trigger] first.snapshots@[i],
        second.snapshots@[i],
    ) by {
        let row = shown_rows(a, builder_only)[i];
        assert(shows_snapshot(first.snapshots@[i], row, builder_only));
        assert(shows_snapshot(second.snapshots@[i], row, builder_only));
    }
}

/// The answer for snapshots in the order given. Builder-only, the snapshots of
/// tainted lifecycles are left out and the answer says whether there were any.
pub fn history_in_order(rows: &Vec<PositionSnapshotRow>, builder_only: bool) -> (r:
    PositionsHistoryResponse)
    ensures
        history_answers_in_order(rows@, builder_only, r),
{
    let ghost keep = |row: PositionSnapshotRow| !row.lifecycle_tainted;
    let mut dtos: Vec<PositionSnapshotDto> = Vec::new();
    let mut any_tainted = false;
    let mut i: usize = 0;
    proof {
        reveal(Seq::filter);
        assert(rows@.take(0) =~= Seq::<PositionSnapshotRow>::empty());
    }
    while i < rows.len()
        invariant
            i <= rows@.len(),
            keep == |row: PositionSnapshotRow| !row.lifecycle_tainted,
            any_tainted == exists|k: int|
                0 <= k < i && (#[trigger] rows@[k]).lifecycle_tainted,
            dtos@.len() == shown_rows(rows@.take(i as int), builder_only).len(),
            forall|k: int|
                0 <= k < dtos@.len() ==> shows_snapshot(
                    #[trigger] dtos@[k],
                    shown_rows(rows@.take(i as int), builder_only)[k],
                    builder_only,
                ),
        decreases rows@.len() - i,
    {
        let row = &rows[i];
        let ghost shown_before = shown_rows(rows@.take(i as int), builder_only);
        proof {
            reveal(Seq::filter);
            assert(rows@.take(i + 1).drop_last() =~= rows@.take(i as int));
            assert(rows@.take(i + 1).last() == rows@[i as int]);
            if !builder_only {
                assert(rows@.take(i + 1) =~= shown_before.push(rows@[i as int]));
            }
        }
        if row.lifecycle_tainted {
            any_tainted = true;
        }
        if !builder_only || !row.lifecycle_tainted {
            dtos.push(
                PositionSnapshotDto {
                    time_ms: row.time_ms.as_ms(),
                    coin: row.coin.to_string(),
                    net_size: row.net_size.clone(),
                    avg_entry_px: row.avg_entry_px.clone(),
                    lifecycle_id: i64_text(row.lifecycle_id),
                    tainted: if builder_only {
                        Some(false)
                    } else {
                        None
                    },
                },
            );
            proof {
                let shown_after = shown_rows(rows@.take(i + 1), builder_only);
                assert(shown_after =~= shown_before.push(rows@[i as int]));
            }
        }
        i += 1;
    }
    assert(rows@.take(i as int) =~= rows@);
    PositionsHistoryResponse {
        snapshots: dtos,
        tainted: if builder_only {
            Some(any_tainted)
        } else {
            None
        },
    }
}

/// The answer for the snapshots of a window: by time, then `seq`, then coin,
/// then lifecycle.
pub fn positions_history(rows: Vec<PositionSnapshotRow>, builder_only: bool) -> (r:
    PositionsHistoryResponse)
    ensures
        answers_history(rows@, builder_only, r),
{
    let mut ordered = rows;
    sort_ranked(&mut ordered);
    let r = history_in_order(&ordered, builder_only);
    assert(is_stable_sort_of(ordered@, rows@));
    r
}

} // verus!
