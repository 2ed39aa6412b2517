//! One compilation: newly arrived fills go through the tracker, which goes on
//! where the last compilation stopped, and the lifecycles they touched get their
//! taint.

use crate::domain::attribution::Attribution;
use crate::domain::attribution::AttributionConfidence;
use crate::domain::attribution::AttributionMode;
use crate::domain::fill::Fill;
use crate::domain::ordering::canonically_sorted;
use crate::domain::ordering::sort_fills_deterministic;
use crate::sorting::is_stable_sort_of;
use crate::domain::primitives::Address;
use crate::domain::primitives::TimeMs;
use crate::engine::position_tracker::fills_in_order;
use crate::engine::position_tracker::fresh_tracker;
use crate::engine::position_tracker::resumed_tracker;
use crate::engine::position_tracker::snapshot_consistent;
use crate::engine::position_tracker::snapshot_of;
use crate::engine::position_tracker::tracker_run;
use crate::engine::position_tracker::PositionTracker;
use crate::engine::position_tracker::TrackerError;
use crate::engine::position_tracker::TrackerSnapshot;
use crate::engine::position_tracker::TrackerView;
use crate::engine::records::Effect;
use crate::engine::records::Lifecycle;
use crate::engine::records::Snapshot;
use crate::engine::taint::TaintComputer;
use crate::engine::taint::TaintInfo;
use crate::engine::taint::taint_reason;
use crate::text::str_equal;
use crate::text::text_less;
use vstd::prelude::*;

verus! {

/// Compiles fills into derived rows.
pub struct Compiler;

/// Why a batch of fills was not compiled.
#[derive(Debug, Clone, Copy, PartialEq, Eq, Structural)]
pub enum CompileError {
    /// The stored tracker snapshot is not consistent.
    CorruptSnapshot,
    /// A fill has a size that is not positive, or is older than one before it or
    /// than the start of the open position.
    FillsOutOfOrder,
    /// The tracker could not process a fill.
    Tracker(TrackerError),
}

/// What one compilation derived.
#[derive(Debug)]
pub struct CompiledBatch {
    /// Lifecycles to upsert, in id order; the first may be one that was open
    /// before the batch.
    pub lifecycles: Vec<Lifecycle>,
    /// Snapshots to upsert, in the order of the fills.
    pub snapshots: Vec<Snapshot>,
    /// Effects to upsert, in the order of the fills.
    pub effects: Vec<Effect>,
    /// Where the tracker stopped.
    pub tracker_snapshot: TrackerSnapshot,
    /// Time of the last fill of the batch.
    pub last_time_ms: TimeMs,
    /// Key of the last fill of the batch: the new watermark.
    pub last_fill_key: String,
    /// The number of fills processed.
    pub fills_processed: usize,
}

/// The taint to write back for one lifecycle.
#[derive(Debug, PartialEq, Eq)]
pub struct TaintUpdate {
    /// The lifecycle.
    pub lifecycle_id: i64,
    /// Whether it is tainted.
    pub is_tainted: bool,
    /// Why, where it is.
    pub reason: Option<String>,
}

/// A stored attribution row.
#[derive(Debug)]
pub struct AttributionRow {
    /// The fill.
    pub fill_key: String,
    /// Whether it is attributed.
    pub attributed: bool,
    /// `heuristic` or `logs`.
    pub mode: String,
    /// `exact`, `fuzzy` or `low`.
    pub confidence: String,
    /// The builder matched.
    pub builder: Option<String>,
}

/// The tracker that a compilation starts from.
pub open spec fn starting_tracker(snapshot: Option<TrackerSnapshot>) -> TrackerView {
    match snapshot {
        Some(s) => resumed_tracker(s),
        None => fresh_tracker(),
    }
}

/// What compiling the fills gives, with the watermark fill named: the rows of a
/// tracker run from the starting tracker, or the error that stands in the way.
pub open spec fn compiles_to(
    snapshot: Option<TrackerSnapshot>,
    fills: Seq<Fill>,
    watermark: Fill,
    r: Result<Option<CompiledBatch>, CompileError>,
) -> bool {
    match r {
        Ok(Some(batch)) => {
            let start = starting_tracker(snapshot);
            let run = tracker_run(start, fills);
            &&& (snapshot matches Some(s) ==> snapshot_consistent(s))
            &&& fills_in_order(start, fills)
            &&& run.1 is None
            &&& batch.lifecycles@ == run.0.lifecycles
            &&& batch.snapshots@ == run.0.snapshots
            &&& batch.effects@ == run.0.effects
            &&& batch.tracker_snapshot == snapshot_of(run.0)
            &&& snapshot_consistent(batch.tracker_snapshot)
            &&& batch.last_time_ms == watermark.time_ms
            &&& batch.last_fill_key@ == watermark.fill_key@
            &&& batch.fills_processed == fills.len()
        },
        Ok(None) => false,
        Err(CompileError::CorruptSnapshot) => snapshot matches Some(s) && !snapshot_consistent(s),
        Err(CompileError::FillsOutOfOrder) => (snapshot matches Some(s) ==> snapshot_consistent(s))
            && !fills_in_order(starting_tracker(snapshot), fills),
        Err(CompileError::Tracker(e)) => (snapshot matches Some(s) ==> snapshot_consistent(s))
            && fills_in_order(starting_tracker(snapshot), fills) && tracker_run(
            starting_tracker(snapshot),
            fills,
        ).1 == Some(e),
    }
}

/// The mode that a stored text stands for; anything unknown counts as heuristic.
pub open spec fn mode_of_text(text: Seq<char>) -> AttributionMode {
    if text == "logs"@ {
        AttributionMode::Logs
    } else {
        AttributionMode::Heuristic
    }
}

/// The confidence that a stored text stands for; anything unknown counts as low.
pub open spec fn confidence_of_text(text: Seq<char>) -> AttributionConfidence {
    if text == "exact"@ {
        AttributionConfidence::Exact
    } else if text == "fuzzy"@ {
        AttributionConfidence::Fuzzy
    } else {
        AttributionConfidence::Low
    }
}

/// The attribution that a stored row stands for.
pub open spec fn attribution_of_row(row: AttributionRow) -> Attribution {
    Attribution {
        attributed: row.attributed,
        mode: mode_of_text(row.mode@),
        confidence: confidence_of_text(row.confidence@),
        builder: match row.builder {
            Some(b) => Some(Address(b)),
            None => None,
        },
    }
}

/// The attribution that the rows give a fill: that of the last row for its key.
pub open spec fn row_attribution(rows: Seq<AttributionRow>, key: Seq<char>) -> Option<Attribution>
    decreases rows.len(),
{
    if rows.len() == 0 {
        None
    } else if rows.last().fill_key@ == key {
        Some(attribution_of_row(rows.last()))
    } else {
        row_attribution(rows.drop_last(), key)
    }
}

/// The fill taints what it touches: the rows give it no attribution, or one that
/// says it is not attributed.
pub open spec fn fill_offends(rows: Seq<AttributionRow>, key: Seq<char>) -> bool {
    match row_attribution(rows, key) {
        Some(a) => !a.attributed,
        None => true,
    }
}

/// An effect books the fill on the lifecycle.
pub open spec fn effect_touches(effects: Seq<Effect>, lifecycle_id: i64, key: Seq<char>) -> bool {
    exists|i: int|
        0 <= i < effects.len() && (#[trigger] effects[i]).lifecycle_id == lifecycle_id
            && effects[i].fill_key@ == key
}

/// The lifecycle is tainted by the batch: a fill booked on it offends.
pub open spec fn batch_tainted(
    effects: Seq<Effect>,
    rows: Seq<AttributionRow>,
    lifecycle_id: i64,
) -> bool {
    exists|key: Seq<char>| #[trigger]
        effect_touches(effects, lifecycle_id, key) && fill_offends(rows, key)
}

/// `key` is the first fill booked on the lifecycle, in the order of keys, that
/// offends.
pub open spec fn batch_first_offender(
    effects: Seq<Effect>,
    rows: Seq<AttributionRow>,
    lifecycle_id: i64,
    key: Seq<char>,
) -> bool {
    &&& effect_touches(effects, lifecycle_id, key)
    &&& fill_offends(rows, key)
    &&& forall|other: Seq<char>|
        #[trigger] effect_touches(effects, lifecycle_id, other) && fill_offends(rows, other)
            ==> !text_less(other, key)
}

/// The update is the taint of its lifecycle.
pub open spec fn is_batch_taint(
    effects: Seq<Effect>,
    rows: Seq<AttributionRow>,
    update: TaintUpdate,
) -> bool {
    &&& update.is_tainted == batch_tainted(effects, rows, update.lifecycle_id)
    &&& !update.is_tainted ==> update.reason is None
    &&& update.is_tainted ==> exists|key: Seq<char>|
        #[trigger] batch_first_offender(effects, rows, update.lifecycle_id, key)
            && update.reason is Some && update.reason->Some_0@ == taint_reason(
            key,
            row_attribution(rows, key),
        )
}

/// The taint to write for a lifecycle that may have been stored by an earlier
/// batch: where the stored one is tainted it stays so, with its reason; where it
/// is clean or there is none, the batch's taint stands.
pub open spec fn merged_taint(stored: Option<TaintInfo>, update: TaintUpdate) -> TaintUpdate {
    match stored {
        Some(s) => if s.is_tainted {
            TaintUpdate { lifecycle_id: update.lifecycle_id, is_tainted: true, reason: s.reason }
        } else {
            update
        },
        None => update,
    }
}

/// Joins the taint that a batch gives a lifecycle with the one stored for it, so
/// that a lifecycle carried over from an earlier batch never turns clean again.
pub fn merge_carried_taint(stored: Option<TaintInfo>, update: TaintUpdate) -> (r: TaintUpdate)
    ensures
        r == merged_taint(stored, update),
        r.lifecycle_id == update.lifecycle_id,
        r.is_tainted == (update.is_tainted || (stored matches Some(s) && s.is_tainted)),
{
    match stored {
        Some(s) => if s.is_tainted {
            TaintUpdate { lifecycle_id: update.lifecycle_id, is_tainted: true, reason: s.reason }
        } else {
            update
        },
        None => update,
    }
}

/// True if the fills may be run through the tracker in the order given.
fn check_order(tracker: &PositionTracker, fills: &Vec<Fill>) -> (r: bool)
    requires
        tracker.wf(),
    ensures
        r == fills_in_order(tracker@, fills@),
{
    let checkpoint = tracker.checkpoint();
    let floor: Option<i64> = match &checkpoint.open_lifecycle {
        Some(l) => Some(l.start_time_ms.as_ms()),
        None => None,
    };
    let mut i: usize = 0;
    while i < fills.len()
        invariant
            i <= fills@.len(),
            tracker.wf(),
            checkpoint == snapshot_of(tracker@),
            floor == (match checkpoint.open_lifecycle {
                Some(l) => Some(l.start_time_ms.0),
                None => None,
            }),
            forall|k: int| 0 <= k < i ==> (#[trigger] fills@[k]).sz.mantissa() > 0,
            forall|k: int, m: int|
                0 <= k <= m < i ==> (#[trigger] fills@[k]).time_ms.0 <= (
                #[trigger] fills@[m]).time_ms.0,
            floor matches Some(f) ==> forall|k: int|
                0 <= k < i ==> f <= (#[trigger] fills@[k]).time_ms.0,
        decreases fills@.len() - i,
    {
        let fill = &fills[i];
        if !fill.sz.is_positive() {
            return false;
        }
        if i > 0 && fills[i - 1].time_ms.as_ms() > fill.time_ms.as_ms() {
            assert(!(fills@[i - 1].time_ms.0 <= fills@[i as int].time_ms.0));
            return false;
        }
        match floor {
            Some(f) => {
                if f > fill.time_ms.as_ms() {
                    return false;
                }
            },
            None => {},
        }
        proof {
            assert forall|k: int, m: int| 0 <= k <= m < i + 1 implies (
            #[trigger] fills@[k]).time_ms.0 <= (#[trigger] fills@[m]).time_ms.0 by {
                if m == i && k < i {
                    assert(fills@[k].time_ms.0 <= fills@[i - 1].time_ms.0);
                }
            }
        }
        i += 1;
    }
    true
}

impl Compiler {
    /// Compiles a batch of fills, in the order given, starting where the snapshot
    /// says the last compilation stopped (or from a fresh tracker). `Ok(None)`
    /// where there is nothing to compile. The derived rows are those of a tracker
    /// run; the watermark is the last fill given.
    pub fn compile_batch(snapshot: Option<TrackerSnapshot>, fills: &Vec<Fill>) -> (r: Result<
        Option<CompiledBatch>,
        CompileError,
    >)
        ensures
            fills@.len() == 0 ==> r == Ok::<Option<CompiledBatch>, CompileError>(None),
            fills@.len() > 0 ==> compiles_to(snapshot, fills@, fills@.last(), r),
    {
        if fills.len() == 0 {
            return Ok(None);
        }
        let mut tracker = match snapshot {
            Some(s) => match PositionTracker::resume(s) {
                Some(t) => t,
                None => {
                    return Err(CompileError::CorruptSnapshot);
                },
            },
            None => {
                let t = PositionTracker::new();
                assert(t@.lifecycles =~= Seq::<Lifecycle>::empty());
                assert(t@.snapshots =~= Seq::<Snapshot>::empty());
                assert(t@.effects =~= Seq::<Effect>::empty());
                assert(t@ == fresh_tracker());
                t
            },
        };
        if !check_order(&tracker, fills) {
            return Err(CompileError::FillsOutOfOrder);
        }
        match tracker.process_fills(fills) {
            Ok(()) => {},
            Err(e) => {
                return Err(CompileError::Tracker(e));
            },
        }
        let tracker_snapshot = tracker.checkpoint();
        let last = &fills[fills.len() - 1];
        let last_time_ms = last.time_ms;
        let last_fill_key = last.fill_key.clone();
        let (lifecycles, snapshots, effects) = tracker.into_outputs();
        Ok(
            Some(
                CompiledBatch {
                    lifecycles,
                    snapshots,
                    effects,
                    tracker_snapshot,
                    last_time_ms,
                    last_fill_key,
                    fills_processed: fills.len(),
                },
            ),
        )
    }

    /// Compiles the fills that arrived since the watermark, given in the order of
    /// their keys. They are processed in canonical order; the new watermark is the
    /// last of them as they were given, the one with the largest key.
    pub fn compile_arrived(snapshot: Option<TrackerSnapshot>, arrived: Vec<Fill>) -> (r: Result<
        Option<CompiledBatch>,
        CompileError,
    >)
        ensures
            arrived@.len() == 0 ==> r == Ok::<Option<CompiledBatch>, CompileError>(None),
            arrived@.len() > 0 ==> exists|ordered: Seq<Fill>|
                #![trigger canonically_sorted(ordered)]
                canonically_sorted(ordered) && is_stable_sort_of(ordered, arrived@)
                    && compiles_to(snapshot, ordered, arrived@.last(), r),
    {
        if arrived.len() == 0 {
            return Ok(None);
        }
        let watermark = &arrived[arrived.len() - 1];
        let watermark_time = watermark.time_ms;
        let watermark_key = watermark.fill_key.clone();
        let mut ordered = arrived;
        sort_fills_deterministic(&mut ordered);
        let r = match Compiler::compile_batch(snapshot, &ordered) {
            Ok(Some(batch)) => {
                let CompiledBatch {
                    lifecycles,
                    snapshots,
                    effects,
                    tracker_snapshot,
                    last_time_ms: _,
                    last_fill_key: _,
                    fills_processed,
                } = batch;
                Ok(
                    Some(
                        CompiledBatch {
                            lifecycles,
                            snapshots,
                            effects,
                            tracker_snapshot,
                            last_time_ms: watermark_time,
                            last_fill_key: watermark_key,
                            fills_processed,
                        },
                    ),
                )
            },
            Ok(None) => Ok(None),
            Err(e) => Err(e),
        };
        assert(canonically_sorted(ordered@) && is_stable_sort_of(ordered@, arrived@));
        r
    }

    /// The attribution that a stored row stands for.
    pub fn attribution_from_row(row: &AttributionRow) -> (r: Attribution)
        ensures
            r == attribution_of_row(*row),
    {
        let mode = if str_equal(row.mode.as_str(), "logs") {
            AttributionMode::Logs
        } else {
            AttributionMode::Heuristic
        };
        let confidence = if str_equal(row.confidence.as_str(), "exact") {
            AttributionConfidence::Exact
        } else if str_equal(row.confidence.as_str(), "fuzzy") {
            AttributionConfidence::Fuzzy
        } else {
            AttributionConfidence::Low
        };
        let builder = match &row.builder {
            Some(b) => Some(Address::new(b.clone())),
            None => None,
        };
        Attribution { attributed: row.attributed, mode, confidence, builder }
    }

    /// A taint computer that knows the fills of the lifecycles the effects touch
    /// and the attributions of the rows.
    pub fn taint_computer(effects: &Vec<Effect>, rows: &Vec<AttributionRow>) -> (r: TaintComputer)
        ensures
            r.wf(),
            forall|id: i64, key: Seq<char>|
                r.has_fill(id, key) <==> effect_touches(effects@, id, key),
            forall|key: Seq<char>| r.attribution_of(key) == row_attribution(rows@, key),
    {
        let mut computer = TaintComputer::new();
        let mut i: usize = 0;
        while i < effects.len()
            invariant
                i <= effects@.len(),
                computer.wf(),
                forall|id: i64, key: Seq<char>|
                    computer.has_fill(id, key) <==> effect_touches(effects@.take(i as int), id, key),
                forall|key: Seq<char>| computer.attribution_of(key) is None,
            decreases effects@.len() - i,
        {
            let ghost before = computer;
            computer.add_fill_to_lifecycle(effects[i].lifecycle_id, effects[i].fill_key.clone());
            proof {
                let shorter = effects@.take(i as int);
                let longer = effects@.take(i + 1);
                assert forall|id: i64, key: Seq<char>|
                    computer.has_fill(id, key) <==> effect_touches(longer, id, key) by {
                    if effect_touches(shorter, id, key) {
                        let k = choose|k: int|
                            0 <= k < shorter.len() && (#[trigger] shorter[k]).lifecycle_id == id
                                && shorter[k].fill_key@ == key;
                        assert(longer[k].lifecycle_id == id && longer[k].fill_key@ == key);
                    }
                    if id == effects@[i as int].lifecycle_id && key == effects@[i as int].fill_key@ {
                        assert(longer[i as int].lifecycle_id == id && longer[i as int].fill_key@
                            == key);
                    }
                    if effect_touches(longer, id, key) {
                        let k = choose|k: int|
                            0 <= k < longer.len() && (#[trigger] longer[k]).lifecycle_id == id
                                && longer[k].fill_key@ == key;
                        if k < i {
                            assert(shorter[k].lifecycle_id == id && shorter[k].fill_key@ == key);
                        }
                    }
                }
            }
            i += 1;
        }
        assert(effects@.take(i as int) =~= effects@);
        let mut j: usize = 0;
        assert(rows@.take(0) =~= Seq::<AttributionRow>::empty());
        while j < rows.len()
            invariant
                j <= rows@.len(),
                computer.wf(),
                forall|id: i64, key: Seq<char>|
                    computer.has_fill(id, key) <==> effect_touches(effects@, id, key),
                forall|key: Seq<char>|
                    computer.attribution_of(key) == row_attribution(rows@.take(j as int), key),
            decreases rows@.len() - j,
        {
            let attribution = Compiler::attribution_from_row(&rows[j]);
            computer.set_attribution(rows[j].fill_key.clone(), attribution);
            proof {
                assert(rows@.take(j + 1).drop_last() =~= rows@.take(j as int));
                assert(rows@.take(j + 1).last() == rows@[j as int]);
            }
            j += 1;
        }
        assert(rows@.take(j as int) =~= rows@);
        computer
    }

    /// The taint to write back for each lifecycle of a batch, in their order: a
    /// lifecycle is tainted exactly when a fill that has an effect on it has no
    /// attribution row or one that says it is not attributed, and the reason names
    /// the first such fill in the order of keys.
    pub fn lifecycle_taints(
        lifecycles: &Vec<Lifecycle>,
        effects: &Vec<Effect>,
        rows: &Vec<AttributionRow>,
    ) -> (r: Vec<TaintUpdate>)
        ensures
            r@.len() == lifecycles@.len(),
            forall|i: int|
                0 <= i < lifecycles@.len() ==> (#[trigger] r@[i]).lifecycle_id == lifecycles@[i].id
                    && is_batch_taint(effects@, rows@, r@[i]),
    {
        let computer = Compiler::taint_computer(effects, rows);
        let mut updates: Vec<TaintUpdate> = Vec::new();
        let mut i: usize = 0;
        while i < lifecycles.len()
            invariant
                i <= lifecycles@.len(),
                computer.wf(),
                forall|id: i64, key: Seq<char>|
                    computer.has_fill(id, key) <==> effect_touches(effects@, id, key),
                forall|key: Seq<char>| computer.attribution_of(key) == row_attribution(rows@, key),
                updates@.len() == i,
                forall|k: int|
                    0 <= k < i ==> (#[trigger] updates@[k]).lifecycle_id == lifecycles@[k].id
                        && is_batch_taint(effects@, rows@, updates@[k]),
            decreases lifecycles@.len() - i,
        {
            let id = lifecycles[i].id;
            let info = computer.compute_taint(id);
            let TaintInfo { is_tainted, reason } = info;
            let update = TaintUpdate { lifecycle_id: id, is_tainted, reason };
            proof {
                if computer.tainted(id) {
                    let key = choose|key: Seq<char>|
                        #[trigger] computer.has_fill(id, key) && computer.offends(key);
                    assert(effect_touches(effects@, id, key) && fill_offends(rows@, key));
                    let first = choose|first: Seq<char>|
                        #[trigger] computer.first_offender(id, first) && info.reason is Some
                            && info.reason->Some_0@ == taint_reason(
                            first,
                            computer.attribution_of(first),
                        );
                    assert forall|other: Seq<char>|
                        #[trigger] effect_touches(effects@, id, other) && fill_offends(
                            rows@,
                            other,
                        ) implies !text_less(other, first) by {
                        assert(computer.has_fill(id, other) && computer.offends(other));
                    }
                    assert(batch_first_offender(effects@, rows@, id, first));
                }
                if batch_tainted(effects@, rows@, id) {
                    let key = choose|key: Seq<char>|
                        #[trigger] effect_touches(effects@, id, key) && fill_offends(rows@, key);
                    assert(computer.has_fill(id, key) && computer.offends(key));
                }
            }
            updates.push(update);
            i += 1;
        }
        updates
    }
}

} // verus!
