//! The position tracker: a state machine from fills, in canonical order, to
//! lifecycles, snapshots and effects for one account and coin.
//!
//! `tracker_step` is the whole transition as a function; `process_fill` computes
//! it. Sums, differences, products and quotients of decimals are the named
//! operations of the decimal module, so the transition is exact in them.

use crate::domain::decimal::checked_difference;
use crate::domain::decimal::checked_product;
use crate::domain::decimal::decimal_quotient;
use crate::domain::decimal::decimal_sum;
use crate::domain::decimal::decimal_total;
use crate::domain::decimal::totals_agree;
use crate::domain::decimal::Decimal;
use crate::domain::fill::Fill;
use crate::domain::primitives::Side;
use crate::engine::records::Effect;
use crate::engine::records::EffectType;
use crate::engine::records::Lifecycle;
use crate::engine::records::Snapshot;
use vstd::prelude::*;

verus! {

/// The position of one account in one coin.
#[derive(Debug, Clone, Copy, PartialEq, Eq, Default)]
pub struct PositionState {
    /// Net size: positive is long, negative is short, zero is flat.
    pub net_size: Decimal,
    /// Average entry price; meaningful while the position is not flat.
    pub avg_entry_px: Decimal,
    /// The open lifecycle; `None` while flat.
    pub lifecycle_id: Option<i64>,
}

impl PositionState {
    /// The flat position.
    pub open spec fn flat() -> PositionState {
        PositionState {
            net_size: Decimal::nought(),
            avg_entry_px: Decimal::nought(),
            lifecycle_id: None,
        }
    }

    /// The flat position.
    pub fn new() -> (r: PositionState)
        ensures
            r == PositionState::flat(),
    {
        PositionState {
            net_size: Decimal::zero(),
            avg_entry_px: Decimal::zero(),
            lifecycle_id: None,
        }
    }

    /// No position is held.
    pub fn is_flat(&self) -> (r: bool)
        ensures
            r == (self.net_size.mantissa() == 0),
    {
        self.net_size.is_zero()
    }

    /// The position is long.
    pub fn is_long(&self) -> (r: bool)
        ensures
            r == (self.net_size.mantissa() > 0),
    {
        self.net_size.is_positive()
    }

    /// The position is short.
    pub fn is_short(&self) -> (r: bool)
        ensures
            r == (self.net_size.mantissa() < 0),
    {
        self.net_size.is_negative()
    }
}

/// Why a fill could not be processed. The tracker is left as it was.
#[derive(Debug, Clone, Copy, PartialEq, Eq, Structural)]
pub enum TrackerError {
    /// A sum, difference, product or quotient of decimals is out of range.
    ArithmeticOverflow,
    /// No lifecycle id is left to assign.
    LifecycleIdsExhausted,
}

/// The tracker as a value: its position, the next lifecycle id, and what it has
/// emitted so far.
pub struct TrackerView {
    pub state: PositionState,
    pub next_lifecycle_id: i64,
    pub lifecycles: Seq<Lifecycle>,
    pub snapshots: Seq<Snapshot>,
    pub effects: Seq<Effect>,
}

/// The signed quantity of a fill: its size for a buy, the negated size for a sell.
pub open spec fn signed_qty(fill: Fill) -> Decimal {
    match fill.side {
        Side::Buy => fill.sz,
        Side::Sell => fill.sz.negated(),
    }
}

/// The position crosses zero: both sizes are non-zero and of opposite sign.
pub open spec fn is_flip(old_size: Decimal, new_size: Decimal) -> bool {
    old_size.mantissa() != 0 && new_size.mantissa() != 0 && (old_size.mantissa() > 0) != (
    new_size.mantissa() > 0)
}

/// The lifecycle that a fill opens.
pub open spec fn opened_lifecycle(id: i64, fill: Fill) -> Lifecycle {
    Lifecycle {
        id,
        user: fill.user,
        coin: fill.coin,
        start_time_ms: fill.time_ms,
        end_time_ms: None,
    }
}

/// The lifecycles with the last one ended at the given time.
pub open spec fn with_last_closed(lifecycles: Seq<Lifecycle>, fill: Fill) -> Seq<Lifecycle> {
    let last = lifecycles.last();
    lifecycles.drop_last().push(
        Lifecycle {
            id: last.id,
            user: last.user,
            coin: last.coin,
            start_time_ms: last.start_time_ms,
            end_time_ms: Some(fill.time_ms),
        },
    )
}

/// An effect of a fill that carries the whole fill: its size, fee and closed
/// profit and loss.
pub open spec fn whole_effect(
    fill: Fill,
    lifecycle_id: i64,
    effect_type: EffectType,
    notional: Decimal,
) -> Effect {
    Effect {
        fill_key: fill.fill_key,
        lifecycle_id,
        effect_type,
        qty: fill.sz,
        notional,
        fee: fill.fee,
        closed_pnl: fill.closed_pnl,
    }
}

/// Open from flat: a new lifecycle, an open effect for the whole fill and one
/// snapshot at the new size and the fill's price.
pub open spec fn after_open(t: TrackerView, fill: Fill, new_size: Decimal) -> Result<
    TrackerView,
    TrackerError,
> {
    if t.next_lifecycle_id == i64::MAX {
        Err(TrackerError::LifecycleIdsExhausted)
    } else {
        match checked_product(fill.px, fill.sz) {
            None => Err(TrackerError::ArithmeticOverflow),
            Some(notional) => {
                let id = t.next_lifecycle_id;
                Ok(
                    TrackerView {
                        state: PositionState {
                            net_size: new_size,
                            avg_entry_px: fill.px,
                            lifecycle_id: Some(id),
                        },
                        next_lifecycle_id: (id + 1) as i64,
                        lifecycles: t.lifecycles.push(opened_lifecycle(id, fill)),
                        snapshots: t.snapshots.push(
                            Snapshot {
                                time_ms: fill.time_ms,
                                seq: 0,
                                net_size: new_size,
                                avg_entry_px: fill.px,
                                lifecycle_id: id,
                            },
                        ),
                        effects: t.effects.push(whole_effect(fill, id, EffectType::Open, notional)),
                    },
                )
            },
        }
    }
}

/// Close to flat: the open lifecycle ends, a close effect for the whole fill and
/// one snapshot at zero; the position is flat again.
pub open spec fn after_close(t: TrackerView, fill: Fill) -> Result<TrackerView, TrackerError> {
    match checked_product(fill.px, fill.sz) {
        None => Err(TrackerError::ArithmeticOverflow),
        Some(notional) => {
            let id = t.state.lifecycle_id->Some_0;
            Ok(
                TrackerView {
                    state: PositionState::flat(),
                    next_lifecycle_id: t.next_lifecycle_id,
                    lifecycles: with_last_closed(t.lifecycles, fill),
                    snapshots: t.snapshots.push(
                        Snapshot {
                            time_ms: fill.time_ms,
                            seq: 0,
                            net_size: Decimal::nought(),
                            avg_entry_px: Decimal::nought(),
                            lifecycle_id: id,
                        },
                    ),
                    effects: t.effects.push(whole_effect(fill, id, EffectType::Close, notional)),
                },
            )
        },
    }
}

/// The quantities and fees of a flip: what closes the old position and what opens
/// the new one.
pub struct FlipParts {
    pub close_qty: Decimal,
    pub open_qty: Decimal,
    pub close_fee: Decimal,
    pub open_fee: Decimal,
    pub close_notional: Decimal,
    pub open_notional: Decimal,
}

/// The parts of a flip. The old position's absolute size closes, the new one's
/// opens; the closing side bears `fee * (close_qty / sz)` and the opening side the
/// rest of the fee.
pub open spec fn flip_parts(fill: Fill, old_size: Decimal, new_size: Decimal) -> Option<
    FlipParts,
> {
    let close_qty = old_size.magnitude();
    let open_qty = new_size.magnitude();
    match decimal_quotient(close_qty, fill.sz) {
        None => None,
        Some(ratio) => match checked_product(fill.fee, ratio) {
            None => None,
            Some(close_fee) => match checked_difference(fill.fee, close_fee) {
                None => None,
                Some(open_fee) => match checked_product(fill.px, close_qty) {
                    None => None,
                    Some(close_notional) => match checked_product(fill.px, open_qty) {
                        None => None,
                        Some(open_notional) => Some(
                            FlipParts {
                                close_qty,
                                open_qty,
                                close_fee,
                                open_fee,
                                close_notional,
                                open_notional,
                            },
                        ),
                    },
                },
            },
        },
    }
}

/// Flip: the old lifecycle closes with a close effect and a snapshot at zero with
/// `seq` 0; a new lifecycle opens with an open effect and a snapshot at the new
/// size with `seq` 1. The closed profit and loss goes to the closing side whole.
pub open spec fn after_flip(t: TrackerView, fill: Fill, old_size: Decimal, new_size: Decimal)
    -> Result<TrackerView, TrackerError> {
    if t.next_lifecycle_id == i64::MAX {
        Err(TrackerError::LifecycleIdsExhausted)
    } else {
        match flip_parts(fill, old_size, new_size) {
            None => Err(TrackerError::ArithmeticOverflow),
            Some(parts) => {
                let old_id = t.state.lifecycle_id->Some_0;
                let new_id = t.next_lifecycle_id;
                Ok(
                    TrackerView {
                        state: PositionState {
                            net_size: new_size,
                            avg_entry_px: fill.px,
                            lifecycle_id: Some(new_id),
                        },
                        next_lifecycle_id: (new_id + 1) as i64,
                        lifecycles: with_last_closed(t.lifecycles, fill).push(
                            opened_lifecycle(new_id, fill),
                        ),
                        snapshots: t.snapshots.push(
                            Snapshot {
                                time_ms: fill.time_ms,
                                seq: 0,
                                net_size: Decimal::nought(),
                                avg_entry_px: Decimal::nought(),
                                lifecycle_id: old_id,
                            },
                        ).push(
                            Snapshot {
                                time_ms: fill.time_ms,
                                seq: 1,
                                net_size: new_size,
                                avg_entry_px: fill.px,
                                lifecycle_id: new_id,
                            },
                        ),
                        effects: t.effects.push(
                            Effect {
                                fill_key: fill.fill_key,
                                lifecycle_id: old_id,
                                effect_type: EffectType::Close,
                                qty: parts.close_qty,
                                notional: parts.close_notional,
                                fee: parts.close_fee,
                                closed_pnl: fill.closed_pnl,
                            },
                        ).push(
                            Effect {
                                fill_key: fill.fill_key,
                                lifecycle_id: new_id,
                                effect_type: EffectType::Open,
                                qty: parts.open_qty,
                                notional: parts.open_notional,
                                fee: parts.open_fee,
                                closed_pnl: Decimal::nought(),
                            },
                        ),
                    },
                )
            },
        }
    }
}

/// The average entry price after an increase from `old_size` to `new_size`:
/// `(|old| * avg + |new - old| * px) / |new|`.
pub open spec fn increased_avg_entry(
    avg_entry_px: Decimal,
    px: Decimal,
    old_size: Decimal,
    new_size: Decimal,
) -> Option<Decimal> {
    match checked_difference(new_size, old_size) {
        None => None,
        Some(delta) => match checked_product(old_size.magnitude(), avg_entry_px) {
            None => None,
            Some(old_value) => match checked_product(delta.magnitude(), px) {
                None => None,
                Some(new_value) => match decimal_sum(old_value, new_value) {
                    None => None,
                    Some(total) => decimal_quotient(total, new_size.magnitude()),
                },
            },
        },
    }
}

/// The average entry price after an adjustment: re-weighted where the absolute
/// size grows, unchanged where it does not.
pub open spec fn adjusted_avg_entry(
    avg_entry_px: Decimal,
    px: Decimal,
    old_size: Decimal,
    new_size: Decimal,
) -> Option<Decimal> {
    if old_size.magnitude().less_than(&new_size.magnitude()) {
        increased_avg_entry(avg_entry_px, px, old_size, new_size)
    } else {
        Some(avg_entry_px)
    }
}

/// Adjustment within a lifecycle: an open effect and a re-weighted average entry
/// price where the absolute size grows, else a close effect and the price
/// unchanged; one snapshot either way.
pub open spec fn after_adjustment(
    t: TrackerView,
    fill: Fill,
    old_size: Decimal,
    new_size: Decimal,
) -> Result<TrackerView, TrackerError> {
    match adjusted_avg_entry(t.state.avg_entry_px, fill.px, old_size, new_size) {
        None => Err(TrackerError::ArithmeticOverflow),
        Some(avg) => match checked_product(fill.px, fill.sz) {
            None => Err(TrackerError::ArithmeticOverflow),
            Some(notional) => {
                let id = t.state.lifecycle_id->Some_0;
                let effect_type = if old_size.magnitude().less_than(&new_size.magnitude()) {
                    EffectType::Open
                } else {
                    EffectType::Close
                };
                Ok(
                    TrackerView {
                        state: PositionState {
                            net_size: new_size,
                            avg_entry_px: avg,
                            lifecycle_id: Some(id),
                        },
                        next_lifecycle_id: t.next_lifecycle_id,
                        lifecycles: t.lifecycles,
                        snapshots: t.snapshots.push(
                            Snapshot {
                                time_ms: fill.time_ms,
                                seq: 0,
                                net_size: new_size,
                                avg_entry_px: avg,
                                lifecycle_id: id,
                            },
                        ),
                        effects: t.effects.push(whole_effect(fill, id, effect_type, notional)),
                    },
                )
            },
        }
    }
}

/// One step of the tracker: the state after `fill`, or the error that leaves the
/// state as it was.
pub open spec fn tracker_step(t: TrackerView, fill: Fill) -> Result<TrackerView, TrackerError> {
    let old_size = t.state.net_size;
    match decimal_sum(old_size, signed_qty(fill)) {
        None => Err(TrackerError::ArithmeticOverflow),
        Some(new_size) => if is_flip(old_size, new_size) {
            after_flip(t, fill, old_size, new_size)
        } else if old_size.mantissa() == 0 && new_size.mantissa() != 0 {
            after_open(t, fill, new_size)
        } else if old_size.mantissa() != 0 && new_size.mantissa() == 0 {
            after_close(t, fill)
        } else {
            after_adjustment(t, fill, old_size, new_size)
        },
    }
}

/// The tracker after a run of fills: the state reached and, where a fill could not
/// be processed, the error that stopped the run before it.
pub open spec fn tracker_run(t: TrackerView, fills: Seq<Fill>) -> (TrackerView, Option<
    TrackerError,
>)
    decreases fills.len(),
{
    if fills.len() == 0 {
        (t, None)
    } else {
        let before = tracker_run(t, fills.drop_last());
        match before.1 {
            Some(_) => before,
            None => match tracker_step(before.0, fills.last()) {
                Ok(next) => (next, None),
                Err(e) => (before.0, Some(e)),
            },
        }
    }
}

/// The tracker before any fill.
pub open spec fn fresh_tracker() -> TrackerView {
    TrackerView {
        state: PositionState::flat(),
        next_lifecycle_id: 1,
        lifecycles: Seq::empty(),
        snapshots: Seq::empty(),
        effects: Seq::empty(),
    }
}

/// Fills that may be run through a tracker: every size is positive, the times
/// never decrease, and none is older than the start of the position that is open
/// at the beginning.
pub open spec fn fills_in_order(t: TrackerView, fills: Seq<Fill>) -> bool {
    &&& forall|i: int| 0 <= i < fills.len() ==> (#[trigger] fills[i]).sz.mantissa() > 0
    &&& forall|i: int, j: int|
        0 <= i <= j < fills.len() ==> (#[trigger] fills[i]).time_ms.0 <= (
        #[trigger] fills[j]).time_ms.0
    &&& t.state.lifecycle_id is Some ==> forall|i: int|
        0 <= i < fills.len() ==> t.lifecycles.last().start_time_ms.0 <= (
        #[trigger] fills[i]).time_ms.0
}

/// A tracker's outputs and position agree with each other.
pub open spec fn tracker_consistent(t: TrackerView) -> bool {
    &&& t.next_lifecycle_id >= 1
    &&& forall|i: int| 0 <= i < t.lifecycles.len() ==> (#[trigger] t.lifecycles[i]).id
        < t.next_lifecycle_id
    &&& forall|i: int, j: int|
        0 <= i < j < t.lifecycles.len() ==> (#[trigger] t.lifecycles[i]).id < (
        #[trigger] t.lifecycles[j]).id
    &&& forall|i: int|
        0 <= i < t.lifecycles.len() ==> ((#[trigger] t.lifecycles[i]).end_time_ms matches Some(end)
            ==> t.lifecycles[i].start_time_ms.0 <= end.0)
    &&& forall|i: int|
        0 <= i < t.lifecycles.len() - 1 ==> (#[trigger] t.lifecycles[i]).end_time_ms is Some
    &&& (t.state.lifecycle_id is Some <==> t.state.net_size.mantissa() != 0)
    &&& match t.state.lifecycle_id {
        Some(id) => t.lifecycles.len() > 0 && t.lifecycles.last().id == id
            && t.lifecycles.last().end_time_ms is None,
        None => forall|i: int|
            0 <= i < t.lifecycles.len() ==> (#[trigger] t.lifecycles[i]).end_time_ms is Some,
    }
}

/// A fill the tracker may be given: its size is positive, and it is not older
/// than the start of the position that is open.
pub open spec fn fill_in_order(t: TrackerView, fill: Fill) -> bool {
    &&& fill.sz.mantissa() > 0
    &&& t.state.lifecycle_id is Some ==> t.lifecycles.last().start_time_ms.0 <= fill.time_ms.0
}

/// What a tracker needs to go on where it stopped: the position, the next
/// lifecycle id, and the lifecycle that is open, if any.
#[derive(Debug, PartialEq, Eq)]
pub struct TrackerSnapshot {
    /// The position.
    pub state: PositionState,
    /// The id that the next lifecycle gets.
    pub next_lifecycle_id: i64,
    /// The open lifecycle; present exactly while the position is not flat.
    pub open_lifecycle: Option<Lifecycle>,
}

impl Clone for TrackerSnapshot {
    fn clone(&self) -> (r: TrackerSnapshot)
        ensures
            r == *self,
    {
        TrackerSnapshot {
            state: self.state,
            next_lifecycle_id: self.next_lifecycle_id,
            open_lifecycle: match &self.open_lifecycle {
                Some(l) => Some(l.clone()),
                None => None,
            },
        }
    }
}

/// A snapshot that a tracker can go on from.
pub open spec fn snapshot_consistent(s: TrackerSnapshot) -> bool {
    &&& s.next_lifecycle_id >= 1
    &&& (s.state.lifecycle_id is Some <==> s.state.net_size.mantissa() != 0)
    &&& match (s.state.lifecycle_id, s.open_lifecycle) {
        (Some(id), Some(l)) => l.id == id && l.end_time_ms is None && id < s.next_lifecycle_id,
        (None, None) => true,
        _ => false,
    }
}

/// The tracker that goes on from a snapshot: nothing emitted yet but the open
/// lifecycle, which will be emitted again when it ends.
pub open spec fn resumed_tracker(s: TrackerSnapshot) -> TrackerView {
    TrackerView {
        state: s.state,
        next_lifecycle_id: s.next_lifecycle_id,
        lifecycles: match s.open_lifecycle {
            Some(l) => seq![l],
            None => Seq::empty(),
        },
        snapshots: Seq::empty(),
        effects: Seq::empty(),
    }
}

/// What a tracker leaves for the next run.
pub open spec fn snapshot_of(t: TrackerView) -> TrackerSnapshot {
    TrackerSnapshot {
        state: t.state,
        next_lifecycle_id: t.next_lifecycle_id,
        open_lifecycle: if t.state.lifecycle_id is Some {
            Some(t.lifecycles.last())
        } else {
            None
        },
    }
}

/// Tracks the position of one account in one coin.
pub struct PositionTracker {
    /// The position after the fills processed so far.
    pub state: PositionState,
    next_lifecycle_id: i64,
    lifecycles: Vec<Lifecycle>,
    snapshots: Vec<Snapshot>,
    effects: Vec<Effect>,
}

impl View for PositionTracker {
    type V = TrackerView;

    closed spec fn view(&self) -> TrackerView {
        TrackerView {
            state: self.state,
            next_lifecycle_id: self.next_lifecycle_id,
            lifecycles: self.lifecycles@,
            snapshots: self.snapshots@,
            effects: self.effects@,
        }
    }
}

impl PositionTracker {
    /// The tracker is consistent.
    pub open spec fn wf(&self) -> bool {
        tracker_consistent(self@)
    }

    /// A tracker at the start: flat, nothing emitted, the first lifecycle id is 1.
    pub fn new() -> (r: PositionTracker)
        ensures
            r.wf(),
            r@.state == PositionState::flat(),
            r@.next_lifecycle_id == 1,
            r@.lifecycles.len() == 0,
            r@.snapshots.len() == 0,
            r@.effects.len() == 0,
    {
        proof {
            crate::domain::decimal::lemma_nought();
        }
        PositionTracker {
            state: PositionState::new(),
            next_lifecycle_id: 1,
            lifecycles: Vec::new(),
            snapshots: Vec::new(),
            effects: Vec::new(),
        }
    }

    /// A tracker that goes on from a snapshot; `None` where the snapshot is not
    /// consistent.
    pub fn resume(snapshot: TrackerSnapshot) -> (r: Option<PositionTracker>)
        ensures
            r is Some <==> snapshot_consistent(snapshot),
            r matches Some(t) ==> t.wf() && t@ == resumed_tracker(snapshot),
    {
        if snapshot.next_lifecycle_id < 1 {
            return None;
        }
        let TrackerSnapshot { state, next_lifecycle_id, open_lifecycle } = snapshot;
        let mut lifecycles: Vec<Lifecycle> = Vec::new();
        match (state.lifecycle_id, open_lifecycle) {
            (Some(id), Some(l)) => {
                if state.net_size.is_zero() || l.id != id || l.end_time_ms.is_some() || id
                    >= next_lifecycle_id {
                    return None;
                }
                lifecycles.push(l);
            },
            (None, None) => {
                if !state.net_size.is_zero() {
                    return None;
                }
            },
            _ => {
                return None;
            },
        }
        let tracker = PositionTracker {
            state,
            next_lifecycle_id,
            lifecycles,
            snapshots: Vec::new(),
            effects: Vec::new(),
        };
        assert(tracker@.lifecycles =~= resumed_tracker(snapshot).lifecycles);
        assert(tracker@.snapshots =~= Seq::<Snapshot>::empty());
        assert(tracker@.effects =~= Seq::<Effect>::empty());
        Some(tracker)
    }

    /// What the next run needs to go on from here.
    pub fn checkpoint(&self) -> (r: TrackerSnapshot)
        requires
            self.wf(),
        ensures
            r == snapshot_of(self@),
            snapshot_consistent(r),
    {
        let open_lifecycle = match self.state.lifecycle_id {
            Some(_) => Some(self.lifecycles[self.lifecycles.len() - 1].clone()),
            None => None,
        };
        TrackerSnapshot {
            state: self.state,
            next_lifecycle_id: self.next_lifecycle_id,
            open_lifecycle,
        }
    }

    /// The position after the fills processed so far.
    pub fn position(&self) -> (r: PositionState)
        ensures
            r == self@.state,
    {
        self.state
    }

    /// Processes one fill: the tracker moves to `tracker_step` of its state and the
    /// fill, or stays as it was where that is an error.
    pub fn process_fill(&mut self, fill: &Fill) -> (r: Result<(), TrackerError>)
        requires
            old(self).wf(),
            fill_in_order(old(self)@, *fill),
        ensures
            final(self).wf(),
            match tracker_step(old(self)@, *fill) {
                Ok(next) => r is Ok && final(self)@ == next,
                Err(e) => r == Err::<(), TrackerError>(e) && final(self)@ == old(self)@,
            },
    {
        let signed = self.compute_signed_qty(fill);
        let old_size = self.state.net_size;
        let new_size = match old_size.checked_add(&signed) {
            Some(v) => v,
            None => {
                return Err(TrackerError::ArithmeticOverflow);
            },
        };
        proof {
            use_type_invariant(&fill.sz);
            crate::domain::decimal::lemma_decimal_parts(fill.sz);
        }
        if self.is_flip(old_size, new_size) {
            self.handle_flip(fill, old_size, new_size)
        } else if old_size.is_zero() && !new_size.is_zero() {
            self.handle_open(fill, new_size)
        } else if !old_size.is_zero() && new_size.is_zero() {
            self.handle_close(fill)
        } else {
            self.handle_adjustment(fill, old_size, new_size)
        }
    }

    /// The signed quantity of a fill.
    fn compute_signed_qty(&self, fill: &Fill) -> (r: Decimal)
        ensures
            r == signed_qty(*fill),
    {
        match fill.side {
            Side::Buy => fill.sz,
            Side::Sell => fill.sz.neg(),
        }
    }

    /// True if the position crosses zero.
    fn is_flip(&self, old_size: Decimal, new_size: Decimal) -> (r: bool)
        ensures
            r == is_flip(old_size, new_size),
    {
        if old_size.is_zero() || new_size.is_zero() {
            return false;
        }
        old_size.is_positive() != new_size.is_positive()
    }

    /// Ends the open lifecycle at the time of the fill.
    fn close_open_lifecycle(&mut self, fill: &Fill)
        requires
            old(self).lifecycles@.len() > 0,
        ensures
            final(self).lifecycles@ == with_last_closed(old(self).lifecycles@, *fill),
            final(self).state == old(self).state,
            final(self).next_lifecycle_id == old(self).next_lifecycle_id,
            final(self).snapshots == old(self).snapshots,
            final(self).effects == old(self).effects,
    {
        let mut lifecycle = self.lifecycles.pop().unwrap();
        lifecycle.end_time_ms = Some(fill.time_ms);
        self.lifecycles.push(lifecycle);
    }

    /// Opens a position from flat.
    fn handle_open(&mut self, fill: &Fill, new_size: Decimal) -> (r: Result<(), TrackerError>)
        requires
            old(self).wf(),
            old(self)@.state.net_size.mantissa() == 0,
            new_size.mantissa() != 0,
        ensures
            final(self).wf(),
            match after_open(old(self)@, *fill, new_size) {
                Ok(next) => r is Ok && final(self)@ == next,
                Err(e) => r == Err::<(), TrackerError>(e) && final(self)@ == old(self)@,
            },
    {
        if self.next_lifecycle_id == i64::MAX {
            return Err(TrackerError::LifecycleIdsExhausted);
        }
        let notional = match fill.px.checked_mul(&fill.sz) {
            Some(v) => v,
            None => {
                return Err(TrackerError::ArithmeticOverflow);
            },
        };
        let lifecycle_id = self.next_lifecycle_id;
        self.next_lifecycle_id = self.next_lifecycle_id + 1;
        self.lifecycles.push(
            Lifecycle {
                id: lifecycle_id,
                user: fill.user.clone(),
                coin: fill.coin.clone(),
                start_time_ms: fill.time_ms,
                end_time_ms: None,
            },
        );
        self.state.net_size = new_size;
        self.state.avg_entry_px = fill.px;
        self.state.lifecycle_id = Some(lifecycle_id);
        self.effects.push(
            Effect {
                fill_key: fill.fill_key.clone(),
                lifecycle_id,
                effect_type: EffectType::Open,
                qty: fill.sz,
                notional,
                fee: fill.fee,
                closed_pnl: fill.closed_pnl,
            },
        );
        self.snapshots.push(
            Snapshot {
                time_ms: fill.time_ms,
                seq: 0,
                net_size: new_size,
                avg_entry_px: fill.px,
                lifecycle_id,
            },
        );
        Ok(())
    }

    /// Closes the position to flat.
    fn handle_close(&mut self, fill: &Fill) -> (r: Result<(), TrackerError>)
        requires
            old(self).wf(),
            old(self)@.state.net_size.mantissa() != 0,
            fill_in_order(old(self)@, *fill),
        ensures
            final(self).wf(),
            match after_close(old(self)@, *fill) {
                Ok(next) => r is Ok && final(self)@ == next,
                Err(e) => r == Err::<(), TrackerError>(e) && final(self)@ == old(self)@,
            },
    {
        let lifecycle_id = self.state.lifecycle_id.unwrap();
        let notional = match fill.px.checked_mul(&fill.sz) {
            Some(v) => v,
            None => {
                return Err(TrackerError::ArithmeticOverflow);
            },
        };
        self.close_open_lifecycle(fill);
        self.effects.push(
            Effect {
                fill_key: fill.fill_key.clone(),
                lifecycle_id,
                effect_type: EffectType::Close,
                qty: fill.sz,
                notional,
                fee: fill.fee,
                closed_pnl: fill.closed_pnl,
            },
        );
        self.snapshots.push(
            Snapshot {
                time_ms: fill.time_ms,
                seq: 0,
                net_size: Decimal::zero(),
                avg_entry_px: Decimal::zero(),
                lifecycle_id,
            },
        );
        self.state = PositionState::new();
        proof {
            crate::domain::decimal::lemma_nought();
        }
        Ok(())
    }

    /// The quantities and fees of a flip.
    fn flip_parts(fill: &Fill, old_size: Decimal, new_size: Decimal) -> (r: Option<FlipParts>)
        ensures
            r == flip_parts(*fill, old_size, new_size),
    {
        let close_qty = old_size.abs();
        let open_qty = new_size.abs();
        let ratio = close_qty.checked_div(&fill.sz)?;
        let close_fee = fill.fee.checked_mul(&ratio)?;
        let open_fee = fill.fee.checked_sub(&close_fee)?;
        let close_notional = fill.px.checked_mul(&close_qty)?;
        let open_notional = fill.px.checked_mul(&open_qty)?;
        Some(FlipParts { close_qty, open_qty, close_fee, open_fee, close_notional, open_notional })
    }

    /// Flips the position through zero.
    fn handle_flip(&mut self, fill: &Fill, old_size: Decimal, new_size: Decimal) -> (r: Result<
        (),
        TrackerError,
    >)
        requires
            old(self).wf(),
            old(self)@.state.net_size.mantissa() != 0,
            new_size.mantissa() != 0,
            fill_in_order(old(self)@, *fill),
        ensures
            final(self).wf(),
            match after_flip(old(self)@, *fill, old_size, new_size) {
                Ok(next) => r is Ok && final(self)@ == next,
                Err(e) => r == Err::<(), TrackerError>(e) && final(self)@ == old(self)@,
            },
    {
        if self.next_lifecycle_id == i64::MAX {
            return Err(TrackerError::LifecycleIdsExhausted);
        }
        let old_lifecycle_id = self.state.lifecycle_id.unwrap();
        let parts = match PositionTracker::flip_parts(fill, old_size, new_size) {
            Some(p) => p,
            None => {
                return Err(TrackerError::ArithmeticOverflow);
            },
        };
        self.close_open_lifecycle(fill);
        self.effects.push(
            Effect {
                fill_key: fill.fill_key.clone(),
                lifecycle_id: old_lifecycle_id,
                effect_type: EffectType::Close,
                qty: parts.close_qty,
                notional: parts.close_notional,
                fee: parts.close_fee,
                closed_pnl: fill.closed_pnl,
            },
        );
        self.snapshots.push(
            Snapshot {
                time_ms: fill.time_ms,
                seq: 0,
                net_size: Decimal::zero(),
                avg_entry_px: Decimal::zero(),
                lifecycle_id: old_lifecycle_id,
            },
        );
        let new_lifecycle_id = self.next_lifecycle_id;
        self.next_lifecycle_id = self.next_lifecycle_id + 1;
        self.lifecycles.push(
            Lifecycle {
                id: new_lifecycle_id,
                user: fill.user.clone(),
                coin: fill.coin.clone(),
                start_time_ms: fill.time_ms,
                end_time_ms: None,
            },
        );
        self.effects.push(
            Effect {
                fill_key: fill.fill_key.clone(),
                lifecycle_id: new_lifecycle_id,
                effect_type: EffectType::Open,
                qty: parts.open_qty,
                notional: parts.open_notional,
                fee: parts.open_fee,
                closed_pnl: Decimal::zero(),
            },
        );
        self.snapshots.push(
            Snapshot {
                time_ms: fill.time_ms,
                seq: 1,
                net_size: new_size,
                avg_entry_px: fill.px,
                lifecycle_id: new_lifecycle_id,
            },
        );
        self.state.net_size = new_size;
        self.state.avg_entry_px = fill.px;
        self.state.lifecycle_id = Some(new_lifecycle_id);
        Ok(())
    }

    /// The average entry price after an increase.
    fn increased_avg_entry(
        avg_entry_px: Decimal,
        px: Decimal,
        old_size: Decimal,
        new_size: Decimal,
    ) -> (r: Option<Decimal>)
        ensures
            r == increased_avg_entry(avg_entry_px, px, old_size, new_size),
    {
        let added_qty = new_size.checked_sub(&old_size)?.abs();
        let old_value = old_size.abs().checked_mul(&avg_entry_px)?;
        let new_value = added_qty.checked_mul(&px)?;
        let total = old_value.checked_add(&new_value)?;
        total.checked_div(&new_size.abs())
    }

    /// Adjusts the position within its lifecycle.
    fn handle_adjustment(&mut self, fill: &Fill, old_size: Decimal, new_size: Decimal) -> (r:
        Result<(), TrackerError>)
        requires
            old(self).wf(),
            old(self)@.state.net_size.mantissa() != 0,
            new_size.mantissa() != 0,
        ensures
            final(self).wf(),
            match after_adjustment(old(self)@, *fill, old_size, new_size) {
                Ok(next) => r is Ok && final(self)@ == next,
                Err(e) => r == Err::<(), TrackerError>(e) && final(self)@ == old(self)@,
            },
    {
        let lifecycle_id = self.state.lifecycle_id.unwrap();
        let old_abs = old_size.abs();
        let new_abs = new_size.abs();
        let grows = new_abs.gt(&old_abs);
        let avg = if grows {
            match PositionTracker::increased_avg_entry(
                self.state.avg_entry_px,
                fill.px,
                old_size,
                new_size,
            ) {
                Some(v) => v,
                None => {
                    return Err(TrackerError::ArithmeticOverflow);
                },
            }
        } else {
            self.state.avg_entry_px
        };
        let notional = match fill.px.checked_mul(&fill.sz) {
            Some(v) => v,
            None => {
                return Err(TrackerError::ArithmeticOverflow);
            },
        };
        self.state.avg_entry_px = avg;
        self.effects.push(
            Effect {
                fill_key: fill.fill_key.clone(),
                lifecycle_id,
                effect_type: if grows {
                    EffectType::Open
                } else {
                    EffectType::Close
                },
                qty: fill.sz,
                notional,
                fee: fill.fee,
                closed_pnl: fill.closed_pnl,
            },
        );
        self.state.net_size = new_size;
        self.snapshots.push(
            Snapshot {
                time_ms: fill.time_ms,
                seq: 0,
                net_size: new_size,
                avg_entry_px: avg,
                lifecycle_id,
            },
        );
        Ok(())
    }

    /// Processes fills in the order given and stops at the first that cannot be
    /// processed. The tracker ends in the state of `tracker_run`.
    pub fn process_fills(&mut self, fills: &Vec<Fill>) -> (r: Result<(), TrackerError>)
        requires
            old(self).wf(),
            fills_in_order(old(self)@, fills@),
        ensures
            final(self).wf(),
            final(self)@ == tracker_run(old(self)@, fills@).0,
            match tracker_run(old(self)@, fills@).1 {
                Some(e) => r == Err::<(), TrackerError>(e),
                None => r is Ok,
            },
    {
        let mut i: usize = 0;
        assert(fills@.take(0) =~= Seq::<Fill>::empty());
        while i < fills.len()
            invariant
                i <= fills@.len(),
                self.wf(),
                fills_in_order(old(self)@, fills@),
                tracker_run(old(self)@, fills@.take(i as int)) == (self@, None::<TrackerError>),
                self@.state.lifecycle_id is Some ==> forall|k: int|
                    i <= k < fills@.len() ==> self@.lifecycles.last().start_time_ms.0 <= (
                    #[trigger] fills@[k]).time_ms.0,
            decreases fills@.len() - i,
        {
            let ghost before = self@;
            assert(fills@.take(i + 1).drop_last() =~= fills@.take(i as int));
            assert(fills@.take(i + 1).last() == fills@[i as int]);
            let fill = &fills[i];
            match self.process_fill(fill) {
                Ok(()) => {
                    proof {
                        use_type_invariant(&fill.sz);
                        lemma_step_keeps_or_restarts(before, fills@[i as int]);
                    }
                },
                Err(e) => {
                    proof {
                        lemma_run_stays_stopped(old(self)@, fills@, i + 1);
                    }
                    return Err(e);
                },
            }
            i += 1;
        }
        assert(fills@.take(i as int) =~= fills@);
        Ok(())
    }

    /// What the tracker has emitted: lifecycles in id order, snapshots and effects
    /// in the order of the fills.
    pub fn into_outputs(self) -> (r: (Vec<Lifecycle>, Vec<Snapshot>, Vec<Effect>))
        ensures
            r.0@ == self@.lifecycles,
            r.1@ == self@.snapshots,
            r.2@ == self@.effects,
    {
        (self.lifecycles, self.snapshots, self.effects)
    }
}

/// After a step the open lifecycle, if there is one, started with the position
/// that was open before or with the fill.
pub proof fn lemma_step_keeps_or_restarts(t: TrackerView, fill: Fill)
    requires
        tracker_consistent(t),
        fill.sz.mantissa() > 0,
        fill.sz.well_formed(),
        tracker_step(t, fill) is Ok,
    ensures
        ({
            let next = tracker_step(t, fill)->Ok_0;
            next.state.lifecycle_id is Some ==> next.lifecycles.len() > 0 && (
            next.lifecycles.last().start_time_ms == fill.time_ms || (t.state.lifecycle_id is Some
                && next.lifecycles.last().start_time_ms == t.lifecycles.last().start_time_ms))
        }),
{
    crate::domain::decimal::lemma_decimal_parts(fill.sz);
    crate::domain::decimal::lemma_nought();
}

/// A run that has stopped stays where it stopped, whatever fills follow.
pub proof fn lemma_run_stays_stopped(t: TrackerView, fills: Seq<Fill>, k: int)
    requires
        0 <= k <= fills.len(),
        tracker_run(t, fills.take(k)).1 is Some,
    ensures
        tracker_run(t, fills) == tracker_run(t, fills.take(k)),
    decreases fills.len() - k,
{
    if k == fills.len() {
        assert(fills.take(k) =~= fills);
    } else {
        assert(fills.take(k + 1).drop_last() =~= fills.take(k));
        lemma_run_stays_stopped(t, fills, k + 1);
    }
}

/// A step keeps a tracker consistent.
pub proof fn lemma_step_consistent(t: TrackerView, fill: Fill)
    requires
        tracker_consistent(t),
        fill_in_order(t, fill),
        fill.sz.well_formed(),
        tracker_step(t, fill) is Ok,
    ensures
        tracker_consistent(tracker_step(t, fill)->Ok_0),
{
    crate::domain::decimal::lemma_decimal_parts(fill.sz);
    crate::domain::decimal::lemma_nought();
}

/// `whole` is what `resumed` would be, had it not forgotten what was emitted
/// before it went on from a snapshot of `before`: the same position and next id,
/// and its outputs those of `before` followed by those of `resumed`, the
/// lifecycle that was open at the snapshot counted once.
pub open spec fn continues(whole: TrackerView, resumed: TrackerView, before: TrackerView) -> bool {
    &&& whole.state == resumed.state
    &&& whole.next_lifecycle_id == resumed.next_lifecycle_id
    &&& whole.snapshots == before.snapshots + resumed.snapshots
    &&& whole.effects == before.effects + resumed.effects
    &&& whole.lifecycles == (if before.state.lifecycle_id is Some {
        before.lifecycles.drop_last()
    } else {
        before.lifecycles
    }) + resumed.lifecycles
}

/// One step keeps a resumed tracker in step with the whole one.
pub proof fn lemma_resumed_step(
    whole: TrackerView,
    resumed: TrackerView,
    before: TrackerView,
    fill: Fill,
)
    requires
        continues(whole, resumed, before),
        tracker_consistent(resumed),
    ensures
        match (tracker_step(whole, fill), tracker_step(resumed, fill)) {
            (Ok(w), Ok(r)) => continues(w, r, before),
            (Err(e), Err(f)) => e == f,
            _ => false,
        },
{
    let kept = if before.state.lifecycle_id is Some {
        before.lifecycles.drop_last()
    } else {
        before.lifecycles
    };
    match (tracker_step(whole, fill), tracker_step(resumed, fill)) {
        (Ok(w), Ok(r)) => {
            if resumed.lifecycles.len() > 0 {
                assert(whole.lifecycles.last() == resumed.lifecycles.last());
                assert(whole.lifecycles.drop_last() =~= kept + resumed.lifecycles.drop_last());
            }
            assert(w.snapshots =~= before.snapshots + r.snapshots);
            assert(w.effects =~= before.effects + r.effects);
            assert(w.lifecycles =~= kept + r.lifecycles);
        },
        _ => {},
    }
}

/// The open position of a tracker started with the position that was open at the
/// beginning or with one of the fills.
pub open spec fn open_start_known(reached: TrackerView, t: TrackerView, fills: Seq<Fill>) -> bool {
    reached.state.lifecycle_id is Some ==> reached.lifecycles.len() > 0 && ((
    t.state.lifecycle_id is Some && reached.lifecycles.last().start_time_ms
        == t.lifecycles.last().start_time_ms) || exists|j: int|
        0 <= j < fills.len() && reached.lifecycles.last().start_time_ms == (
        #[trigger] fills[j]).time_ms)
}

/// A shorter run of fills in order is in order.
pub proof fn lemma_prefix_in_order(t: TrackerView, fills: Seq<Fill>)
    requires
        fills.len() > 0,
        fills_in_order(t, fills),
        forall|i: int| 0 <= i < fills.len() ==> (#[trigger] fills[i]).sz.well_formed(),
    ensures
        fills_in_order(t, fills.drop_last()),
        forall|i: int|
            0 <= i < fills.drop_last().len() ==> (#[trigger] fills.drop_last()[i]).sz.well_formed(),
{
    let init = fills.drop_last();
    assert forall|i: int| 0 <= i < init.len() implies (#[trigger] init[i]).sz.mantissa() > 0
        && init[i].sz.well_formed() by {
        assert(init[i] == fills[i]);
    }
    assert forall|i: int, j: int| 0 <= i <= j < init.len() implies (#[trigger] init[i]).time_ms.0
        <= (#[trigger] init[j]).time_ms.0 by {
        assert(init[i] == fills[i] && init[j] == fills[j]);
    }
    if t.state.lifecycle_id is Some {
        assert forall|i: int| 0 <= i < init.len() implies t.lifecycles.last().start_time_ms.0 <= (
        #[trigger] init[i]).time_ms.0 by {
            assert(init[i] == fills[i]);
        }
    }
}

/// A run of fills in order keeps a tracker consistent, and each of its fills is in
/// order for the tracker that the fills before it leave.
pub proof fn lemma_run_consistent(t: TrackerView, fills: Seq<Fill>)
    requires
        tracker_consistent(t),
        fills_in_order(t, fills),
        forall|i: int| 0 <= i < fills.len() ==> (#[trigger] fills[i]).sz.well_formed(),
    ensures
        tracker_consistent(tracker_run(t, fills).0),
        open_start_known(tracker_run(t, fills).0, t, fills),
    decreases fills.len(),
{
    if fills.len() > 0 {
        let init = fills.drop_last();
        let fill = fills.last();
        lemma_prefix_in_order(t, fills);
        lemma_run_consistent(t, init);
        let before = tracker_run(t, init);
        assert(fill == fills[fills.len() - 1]);
        if before.0.state.lifecycle_id is Some && !(t.state.lifecycle_id is Some
            && before.0.lifecycles.last().start_time_ms == t.lifecycles.last().start_time_ms) {
            let j = choose|j: int|
                0 <= j < init.len() && before.0.lifecycles.last().start_time_ms == (
                #[trigger] init[j]).time_ms;
            assert(init[j] == fills[j]);
        }
        if before.1 is None && tracker_step(before.0, fill) is Ok {
            lemma_step_consistent(before.0, fill);
            lemma_step_keeps_or_restarts(before.0, fill);
        }
    }
}

/// The tracker that goes on from the snapshot of a consistent tracker is
/// consistent, and the fills that are in order for the one are in order for the
/// other.
pub proof fn lemma_resumed_consistent(t: TrackerView, fills: Seq<Fill>)
    requires
        tracker_consistent(t),
        fills_in_order(t, fills),
    ensures
        tracker_consistent(resumed_tracker(snapshot_of(t))),
        fills_in_order(resumed_tracker(snapshot_of(t)), fills),
{
    let start = resumed_tracker(snapshot_of(t));
    if t.state.lifecycle_id is Some {
        assert(start.lifecycles =~= seq![t.lifecycles.last()]);
        assert(start.lifecycles.last() == t.lifecycles.last());
    } else {
        assert(start.lifecycles =~= Seq::<Lifecycle>::empty());
    }
}

/// Incremental compilation is replay. A tracker that goes on from a snapshot and
/// processes the fills that came after it ends in the position, and emits the
/// snapshots and effects, that a tracker ends in and emits which processed the
/// fills before the snapshot as well; the lifecycle that was open at the snapshot
/// is emitted once more. The two stop at the same fill with the same error.
pub proof fn lemma_resume_is_replay(t: TrackerView, fills: Seq<Fill>)
    requires
        tracker_consistent(t),
        fills_in_order(t, fills),
        forall|i: int| 0 <= i < fills.len() ==> (#[trigger] fills[i]).sz.well_formed(),
    ensures
        continues(
            tracker_run(t, fills).0,
            tracker_run(resumed_tracker(snapshot_of(t)), fills).0,
            t,
        ),
        tracker_run(t, fills).1 == tracker_run(resumed_tracker(snapshot_of(t)), fills).1,
    decreases fills.len(),
{
    let start = resumed_tracker(snapshot_of(t));
    if fills.len() == 0 {
        assert(t.snapshots + start.snapshots =~= t.snapshots);
        assert(t.effects + start.effects =~= t.effects);
        if t.state.lifecycle_id is Some {
            assert(t.lifecycles.drop_last() + start.lifecycles =~= t.lifecycles);
        } else {
            assert(t.lifecycles + start.lifecycles =~= t.lifecycles);
        }
    } else {
        let init = fills.drop_last();
        lemma_prefix_in_order(t, fills);
        lemma_resume_is_replay(t, init);
        lemma_resumed_consistent(t, init);
        lemma_run_consistent(start, init);
        let whole = tracker_run(t, init);
        let resumed = tracker_run(start, init);
        if whole.1 is None {
            lemma_resumed_step(whole.0, resumed.0, t, fills.last());
        }
    }
}

/// Fills in canonical order, each of a positive size, are in order for a fresh
/// tracker: in canonical order the times never decrease.
pub proof fn lemma_canonical_order_is_in_order(fills: Seq<Fill>)
    requires
        crate::domain::ordering::canonically_sorted(fills),
        forall|i: int| 0 <= i < fills.len() ==> (#[trigger] fills[i]).sz.mantissa() > 0,
    ensures
        fills_in_order(fresh_tracker(), fills),
{
    assert forall|i: int, j: int| 0 <= i <= j < fills.len() implies (#[trigger] fills[i]).time_ms.0
        <= (#[trigger] fills[j]).time_ms.0 by {
        if i < j {
            assert(!crate::domain::ordering::canonical_before(fills[j], fills[i]));
        }
    }
}

/// Runs fills through a fresh tracker and hands out what it emitted. The outputs
/// are a function of the fills: the same fills give the same lifecycles, with the
/// same ids, the same snapshots and the same effects.
pub fn track_fills(fills: &Vec<Fill>) -> (r: Result<
    (Vec<Lifecycle>, Vec<Snapshot>, Vec<Effect>),
    TrackerError,
>)
    requires
        fills_in_order(fresh_tracker(), fills@),
    ensures
        match tracker_run(fresh_tracker(), fills@).1 {
            Some(e) => r == Err::<(Vec<Lifecycle>, Vec<Snapshot>, Vec<Effect>), TrackerError>(e),
            None => r matches Ok(out) && out.0@ == tracker_run(fresh_tracker(), fills@).0.lifecycles
                && out.1@ == tracker_run(fresh_tracker(), fills@).0.snapshots && out.2@
                == tracker_run(fresh_tracker(), fills@).0.effects,
        },
{
    let mut tracker = PositionTracker::new();
    assert(tracker@.lifecycles =~= Seq::<Lifecycle>::empty());
    assert(tracker@.snapshots =~= Seq::<Snapshot>::empty());
    assert(tracker@.effects =~= Seq::<Effect>::empty());
    assert(tracker@ == fresh_tracker());
    match tracker.process_fills(fills) {
        Ok(()) => Ok(tracker.into_outputs()),
        Err(e) => Err(e),
    }
}

/// The closed profit and loss of each effect, in order.
pub open spec fn effects_closed_pnl(effects: Seq<Effect>) -> Seq<Decimal> {
    Seq::new(effects.len(), |i: int| effects[i].closed_pnl)
}

/// The closed profit and loss of each fill, in order.
pub open spec fn fills_closed_pnl(fills: Seq<Fill>) -> Seq<Decimal> {
    Seq::new(fills.len(), |i: int| fills[i].closed_pnl)
}

/// Flip decomposition. A fill that takes a position through zero emits exactly
/// two effects and two snapshots. The close effect is booked on the old lifecycle
/// with the old position's absolute size and the fill's whole closed profit and
/// loss; the open effect is booked on a new lifecycle with the new position's
/// absolute size and no profit and loss. Each notional is the fill's price times
/// the effect's quantity. The closing fee is the fill's fee times the share of
/// the size that closes, and the opening fee is the fill's fee less the closing
/// fee. Both snapshots carry the fill's time, the first with `seq` 0 at zero on
/// the old lifecycle, the second with `seq` 1 at the new size and the fill's
/// price on the new lifecycle, which is the new average entry price.
pub proof fn lemma_flip_decomposition(t: TrackerView, fill: Fill)
    requires
        tracker_consistent(t),
        decimal_sum(t.state.net_size, signed_qty(fill)) matches Some(new_size) && is_flip(
            t.state.net_size,
            new_size,
        ),
        tracker_step(t, fill) is Ok,
    ensures
        ({
            let next = tracker_step(t, fill)->Ok_0;
            let new_size = decimal_sum(t.state.net_size, signed_qty(fill))->Some_0;
            let old_id = t.state.lifecycle_id->Some_0;
            let new_id = t.next_lifecycle_id;
            let n = t.effects.len() as int;
            let m = t.snapshots.len() as int;
            let k = t.lifecycles.len() as int;
            &&& t.state.lifecycle_id is Some
            &&& new_id != old_id
            &&& next.effects.len() == n + 2
            &&& next.effects.subrange(0, n) == t.effects
            &&& next.effects[n].effect_type == EffectType::Close
            &&& next.effects[n].lifecycle_id == old_id
            &&& next.effects[n].fill_key == fill.fill_key
            &&& next.effects[n].qty == t.state.net_size.magnitude()
            &&& next.effects[n].closed_pnl == fill.closed_pnl
            &&& next.effects[n + 1].effect_type == EffectType::Open
            &&& next.effects[n + 1].lifecycle_id == new_id
            &&& next.effects[n + 1].fill_key == fill.fill_key
            &&& next.effects[n + 1].qty == new_size.magnitude()
            &&& next.effects[n + 1].closed_pnl == Decimal::nought()
            &&& checked_product(fill.px, next.effects[n].qty) == Some(next.effects[n].notional)
            &&& checked_product(fill.px, next.effects[n + 1].qty) == Some(
                next.effects[n + 1].notional,
            )
            &&& decimal_quotient(next.effects[n].qty, fill.sz) matches Some(share)
                && checked_product(fill.fee, share) == Some(next.effects[n].fee)
            &&& checked_difference(fill.fee, next.effects[n].fee) == Some(next.effects[n + 1].fee)
            &&& next.state.avg_entry_px == fill.px
            &&& next.snapshots.len() == m + 2
            &&& next.snapshots.subrange(0, m) == t.snapshots
            &&& next.snapshots[m] == (Snapshot {
                time_ms: fill.time_ms,
                seq: 0,
                net_size: Decimal::nought(),
                avg_entry_px: Decimal::nought(),
                lifecycle_id: old_id,
            })
            &&& next.snapshots[m + 1] == (Snapshot {
                time_ms: fill.time_ms,
                seq: 1,
                net_size: new_size,
                avg_entry_px: fill.px,
                lifecycle_id: new_id,
            })
            &&& next.lifecycles.len() == k + 1
            &&& next.lifecycles[k - 1].id == old_id
            &&& next.lifecycles[k - 1].end_time_ms == Some(fill.time_ms)
            &&& next.lifecycles[k] == opened_lifecycle(new_id, fill)
            &&& next.state.net_size == new_size
            &&& next.state.lifecycle_id == Some(new_id)
        }),
{
    let next = tracker_step(t, fill)->Ok_0;
    let n = t.effects.len() as int;
    let m = t.snapshots.len() as int;
    assert(next.effects.subrange(0, n) =~= t.effects);
    assert(next.snapshots.subrange(0, m) =~= t.snapshots);
}

/// What one step adds to the effects: one effect with the fill's closed profit
/// and loss, or, on a flip, that effect and one more that carries none.
pub proof fn lemma_step_closed_pnl(t: TrackerView, fill: Fill)
    requires
        tracker_step(t, fill) is Ok,
    ensures
        ({
            let next = tracker_step(t, fill)->Ok_0;
            let before = effects_closed_pnl(t.effects);
            let after = effects_closed_pnl(next.effects);
            after == before.push(fill.closed_pnl) || after == before.push(fill.closed_pnl).push(
                Decimal::nought(),
            )
        }),
{
    let next = tracker_step(t, fill)->Ok_0;
    let before = effects_closed_pnl(t.effects);
    let after = effects_closed_pnl(next.effects);
    if next.effects.len() == t.effects.len() + 1 {
        assert(after =~= before.push(fill.closed_pnl));
    } else {
        assert(after =~= before.push(fill.closed_pnl).push(Decimal::nought()));
    }
}

/// Conservation of closed profit and loss. Where a run from a fresh tracker goes
/// through, the total over the effects it emitted agrees with the total over the
/// fills: each fill's closed profit and loss is booked on exactly one effect, a
/// flip's on its closing side.
pub proof fn lemma_closed_pnl_conserved(fills: Seq<Fill>)
    requires
        tracker_run(fresh_tracker(), fills).1 is None,
    ensures
        totals_agree(
            decimal_total(effects_closed_pnl(tracker_run(fresh_tracker(), fills).0.effects)),
            decimal_total(fills_closed_pnl(fills)),
        ),
    decreases fills.len(),
{
    crate::domain::decimal::lemma_nought();
    let reached = tracker_run(fresh_tracker(), fills).0;
    if fills.len() == 0 {
        assert(effects_closed_pnl(reached.effects) =~= fills_closed_pnl(fills));
    } else {
        let before = tracker_run(fresh_tracker(), fills.drop_last());
        lemma_closed_pnl_conserved(fills.drop_last());
        lemma_step_closed_pnl(before.0, fills.last());
        let pnl = fills.last().closed_pnl;
        let of_effects = effects_closed_pnl(before.0.effects);
        let of_fills = fills_closed_pnl(fills.drop_last());
        assert(fills_closed_pnl(fills) =~= of_fills.push(pnl));
        crate::domain::decimal::lemma_total_push(of_fills, pnl);
        crate::domain::decimal::lemma_total_push(of_effects, pnl);
        crate::domain::decimal::lemma_total_push(of_effects.push(pnl), Decimal::nought());
        assert(totals_agree(
            decimal_total(of_effects.push(pnl)),
            decimal_total(of_fills.push(pnl)),
        ));
    }
}

/// The fee of each effect, in order.
pub open spec fn effects_fee(effects: Seq<Effect>) -> Seq<Decimal> {
    Seq::new(effects.len(), |i: int| effects[i].fee)
}

/// The fee of each fill, in order.
pub open spec fn fills_fee(fills: Seq<Fill>) -> Seq<Decimal> {
    Seq::new(fills.len(), |i: int| fills[i].fee)
}

/// What one step adds to the fees of the effects: one effect with the fill's
/// whole fee, or, on a flip, a closing part and an opening part, the opening part
/// being the fill's fee less the closing part.
pub proof fn lemma_step_fee(t: TrackerView, fill: Fill)
    requires
        tracker_step(t, fill) is Ok,
    ensures
        ({
            let next = tracker_step(t, fill)->Ok_0;
            let before = effects_fee(t.effects);
            let after = effects_fee(next.effects);
            ||| next.effects.len() == t.effects.len() + 1 && after == before.push(fill.fee)
            ||| next.effects.len() == t.effects.len() + 2 && after == before.push(
                after[after.len() - 2],
            ).push(after.last()) && checked_difference(fill.fee, after[after.len() - 2]) == Some(
                after.last(),
            )
        }),
{
    let next = tracker_step(t, fill)->Ok_0;
    let before = effects_fee(t.effects);
    let after = effects_fee(next.effects);
    if next.effects.len() == t.effects.len() + 1 {
        assert(after =~= before.push(fill.fee));
    } else {
        assert(after =~= before.push(after[after.len() - 2]).push(after.last()));
    }
}

/// A run emits at least one effect for each fill.
pub proof fn lemma_run_effects_per_fill(fills: Seq<Fill>)
    requires
        tracker_run(fresh_tracker(), fills).1 is None,
    ensures
        tracker_run(fresh_tracker(), fills).0.effects.len() >= fills.len(),
    decreases fills.len(),
{
    if fills.len() > 0 {
        let before = tracker_run(fresh_tracker(), fills.drop_last());
        lemma_run_effects_per_fill(fills.drop_last());
        lemma_step_fee(before.0, fills.last());
    }
}

/// Conservation of fees without a flip. Where a run from a fresh tracker goes
/// through and emits one effect for each fill, so that no fill took the position
/// through zero, the fees of the effects are the fees of the fills, one for one
/// and in order.
pub proof fn lemma_fees_conserved_without_flip(fills: Seq<Fill>)
    requires
        tracker_run(fresh_tracker(), fills).1 is None,
        tracker_run(fresh_tracker(), fills).0.effects.len() == fills.len(),
    ensures
        effects_fee(tracker_run(fresh_tracker(), fills).0.effects) == fills_fee(fills),
    decreases fills.len(),
{
    let reached = tracker_run(fresh_tracker(), fills).0;
    if fills.len() == 0 {
        assert(effects_fee(reached.effects) =~= fills_fee(fills));
    } else {
        let before = tracker_run(fresh_tracker(), fills.drop_last());
        lemma_run_effects_per_fill(fills.drop_last());
        lemma_step_fee(before.0, fills.last());
        lemma_fees_conserved_without_flip(fills.drop_last());
        assert(fills_fee(fills) =~= fills_fee(fills.drop_last()).push(fills.last().fee));
    }
}

impl Default for PositionTracker {
    fn default() -> (r: PositionTracker)
        ensures
            r.wf(),
            r@.state == PositionState::flat(),
            r@.next_lifecycle_id == 1,
            r@.lifecycles.len() == 0,
            r@.snapshots.len() == 0,
            r@.effects.len() == 0,
    {
        PositionTracker::new()
    }
}

} // verus!
