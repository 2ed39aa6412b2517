use hypesilico::engine::position_tracker::{track_fills, TrackerError, TrackerSnapshot};
use hypesilico::engine::{EffectType, PositionState, PositionTracker};
use hypesilico::{Address, Coin, Decimal, Fill, Side, TimeMs};

fn d(s: &str) -> Decimal {
    Decimal::from_str_canonical(s).unwrap()
}

fn fill(side: Side, sz: &str, px: &str, time_ms: i64, tid: i64, fee: &str, closed_pnl: &str) -> Fill {
    Fill::new(
        TimeMs::new(time_ms),
        Address::new("0x123".to_string()),
        Coin::new("BTC".to_string()),
        side,
        d(px),
        d(sz),
        d(fee),
        d(closed_pnl),
        None,
        Some(tid),
        None,
    )
}

fn buy(sz: &str, px: &str, time_ms: i64, tid: i64) -> Fill {
    fill(Side::Buy, sz, px, time_ms, tid, "0", "0")
}

fn sell(sz: &str, px: &str, time_ms: i64, tid: i64) -> Fill {
    fill(Side::Sell, sz, px, time_ms, tid, "0", "0")
}

#[test]
fn test_simple_open_close_long() {
    let mut tracker = PositionTracker::new();

    tracker.process_fill(&buy("1", "50000", 1000, 1)).unwrap();
    assert_eq!(tracker.state.net_size, d("1"));
    assert_eq!(tracker.state.avg_entry_px, d("50000"));
    assert_eq!(tracker.state.lifecycle_id, Some(1));

    tracker.process_fill(&sell("1", "55000", 2000, 2)).unwrap();
    assert!(tracker.state.is_flat());
    assert_eq!(tracker.state.lifecycle_id, None);

    let (lifecycles, snapshots, effects) = tracker.into_outputs();
    assert_eq!(lifecycles.len(), 1);
    assert_eq!(lifecycles[0].start_time_ms, TimeMs::new(1000));
    assert_eq!(lifecycles[0].end_time_ms, Some(TimeMs::new(2000)));

    assert_eq!(snapshots.len(), 2);
    assert_eq!(snapshots[0].net_size, d("1"));
    assert_eq!(snapshots[0].avg_entry_px, d("50000"));
    assert_eq!(snapshots[1].net_size, Decimal::zero());
    assert_eq!(snapshots[1].avg_entry_px, Decimal::zero());

    assert_eq!(effects.len(), 2);
    assert_eq!(effects[0].effect_type, EffectType::Open);
    assert_eq!(effects[1].effect_type, EffectType::Close);
}

#[test]
fn test_partial_close_preserves_avg_entry() {
    let mut tracker = PositionTracker::new();

    tracker.process_fill(&buy("2", "50000", 1000, 1)).unwrap();
    assert_eq!(tracker.state.avg_entry_px, d("50000"));

    tracker.process_fill(&sell("1", "55000", 2000, 2)).unwrap();
    assert_eq!(tracker.state.net_size, d("1"));
    assert_eq!(tracker.state.avg_entry_px, d("50000"));
    assert_eq!(tracker.state.lifecycle_id, Some(1));
}

#[test]
fn test_flip_long_to_short_emits_two_effects_and_snapshots() {
    let mut tracker = PositionTracker::new();

    tracker.process_fill(&buy("1", "50000", 1000, 1)).unwrap();
    assert_eq!(tracker.state.lifecycle_id, Some(1));

    // Sell 2 to flip from +1 to -1.
    let flip_fill = fill(Side::Sell, "2", "55000", 2000, 2, "10", "123.45");
    tracker.process_fill(&flip_fill).unwrap();

    assert_eq!(tracker.state.net_size, d("-1"));
    assert_eq!(tracker.state.avg_entry_px, d("55000"));
    assert_eq!(tracker.state.lifecycle_id, Some(2));

    let (lifecycles, snapshots, effects) = tracker.into_outputs();
    assert_eq!(lifecycles.len(), 2);
    assert_eq!(lifecycles[0].end_time_ms, Some(TimeMs::new(2000)));
    assert_eq!(lifecycles[1].end_time_ms, None);

    let flip_snapshots: Vec<_> = snapshots
        .iter()
        .filter(|s| s.time_ms == TimeMs::new(2000))
        .collect();
    assert_eq!(flip_snapshots.len(), 2);
    assert_eq!(flip_snapshots[0].seq, 0);
    assert_eq!(flip_snapshots[0].net_size, Decimal::zero());
    assert_eq!(flip_snapshots[0].lifecycle_id, 1);
    assert_eq!(flip_snapshots[1].seq, 1);
    assert_eq!(flip_snapshots[1].net_size, d("-1"));
    assert_eq!(flip_snapshots[1].lifecycle_id, 2);

    let flip_effects: Vec<_> = effects
        .iter()
        .filter(|e| e.fill_key == "0x123:BTC:tid:2")
        .collect();
    assert_eq!(flip_effects.len(), 2);
    assert_eq!(flip_effects[0].effect_type, EffectType::Close);
    assert_eq!(flip_effects[0].lifecycle_id, 1);
    assert_eq!(flip_effects[0].qty, d("1"));
    assert_eq!(flip_effects[0].fee, d("5"));
    assert_eq!(flip_effects[0].closed_pnl, d("123.45"));
    assert_eq!(flip_effects[1].effect_type, EffectType::Open);
    assert_eq!(flip_effects[1].lifecycle_id, 2);
    assert_eq!(flip_effects[1].qty, d("1"));
    assert_eq!(flip_effects[1].fee, d("5"));
    assert_eq!(flip_effects[1].closed_pnl, Decimal::zero());
}

#[test]
fn test_avg_entry_weighted_on_add() {
    let mut tracker = PositionTracker::new();

    tracker.process_fill(&buy("1", "50000", 1000, 1)).unwrap();
    tracker.process_fill(&buy("1", "60000", 2000, 2)).unwrap();

    assert_eq!(tracker.state.net_size, d("2"));
    assert_eq!(tracker.state.avg_entry_px, d("55000"));
}

#[test]
fn test_short_open_add_partial_close_then_close() {
    let mut tracker = PositionTracker::new();

    tracker.process_fill(&sell("1", "100", 1000, 1)).unwrap();
    assert_eq!(tracker.state.net_size, d("-1"));
    assert_eq!(tracker.state.avg_entry_px, d("100"));
    assert_eq!(tracker.state.lifecycle_id, Some(1));

    tracker.process_fill(&sell("1", "90", 2000, 2)).unwrap();
    assert_eq!(tracker.state.net_size, d("-2"));
    assert_eq!(tracker.state.avg_entry_px, d("95"));

    tracker.process_fill(&buy("0.5", "80", 3000, 3)).unwrap();
    assert_eq!(tracker.state.net_size, d("-1.5"));
    assert_eq!(tracker.state.avg_entry_px, d("95"));

    tracker.process_fill(&buy("1.5", "70", 4000, 4)).unwrap();
    assert!(tracker.state.is_flat());
    assert_eq!(tracker.state.lifecycle_id, None);

    let (lifecycles, snapshots, effects) = tracker.into_outputs();
    assert_eq!(lifecycles.len(), 1);
    assert_eq!(lifecycles[0].end_time_ms, Some(TimeMs::new(4000)));
    assert_eq!(snapshots.len(), 4);
    assert_eq!(effects.len(), 4);
    assert_eq!(effects[2].effect_type, EffectType::Close);
    assert_eq!(effects[3].effect_type, EffectType::Close);
}

#[test]
fn scenario_simple_open_close_gross() {
    let mut tracker = PositionTracker::new();
    tracker
        .process_fill(&fill(Side::Buy, "1", "50000", 1000, 1, "5", "0"))
        .unwrap();
    tracker
        .process_fill(&fill(Side::Sell, "1", "51000", 2000, 2, "5", "1000"))
        .unwrap();
    let (lifecycles, snapshots, effects) = tracker.into_outputs();
    assert_eq!(lifecycles.len(), 1);
    assert_eq!(lifecycles[0].id, 1);
    assert_eq!(lifecycles[0].user, Address::new("0x123".to_string()));
    assert_eq!(lifecycles[0].coin, Coin::new("BTC".to_string()));
    assert_eq!(lifecycles[0].start_time_ms, TimeMs::new(1000));
    assert_eq!(lifecycles[0].end_time_ms, Some(TimeMs::new(2000)));
    assert_eq!(snapshots.len(), 2);
    assert_eq!((snapshots[0].net_size, snapshots[0].avg_entry_px), (d("1"), d("50000")));
    assert_eq!((snapshots[0].seq, snapshots[0].lifecycle_id), (0, 1));
    assert_eq!((snapshots[1].net_size, snapshots[1].avg_entry_px), (d("0"), d("0")));
    assert_eq!((snapshots[1].seq, snapshots[1].lifecycle_id), (0, 1));
    assert_eq!(snapshots[1].time_ms, TimeMs::new(2000));
    assert_eq!(effects.len(), 2);
    assert_eq!(effects[0].effect_type, EffectType::Open);
    assert_eq!(effects[0].fill_key, "0x123:BTC:tid:1");
    assert_eq!(effects[0].qty, d("1"));
    assert_eq!(effects[0].fee, d("5"));
    assert_eq!(effects[0].notional, d("50000"));
    assert_eq!(effects[0].closed_pnl, d("0"));
    assert_eq!(effects[1].effect_type, EffectType::Close);
    assert_eq!(effects[1].qty, d("1"));
    assert_eq!(effects[1].fee, d("5"));
    assert_eq!(effects[1].notional, d("51000"));
    assert_eq!(effects[1].closed_pnl, d("1000"));
    assert_eq!(effects[1].lifecycle_id, 1);
}

#[test]
fn scenario_flip() {
    let mut tracker = PositionTracker::new();
    tracker.process_fill(&buy("1", "50000", 1000, 1)).unwrap();
    tracker
        .process_fill(&fill(Side::Sell, "2", "55000", 2000, 2, "10", "5000"))
        .unwrap();
    let (lifecycles, snapshots, effects) = tracker.into_outputs();
    assert_eq!(lifecycles.len(), 2);
    assert_eq!((lifecycles[0].id, lifecycles[1].id), (1, 2));
    assert_eq!(lifecycles[0].end_time_ms, Some(TimeMs::new(2000)));
    assert_eq!(lifecycles[1].start_time_ms, TimeMs::new(2000));
    assert_eq!(lifecycles[1].end_time_ms, None);
    assert_eq!(snapshots.len(), 3);
    assert_eq!(snapshots[0].time_ms, TimeMs::new(1000));
    assert_eq!((snapshots[0].seq, snapshots[0].net_size, snapshots[0].avg_entry_px), (0, d("1"), d("50000")));
    assert_eq!(snapshots[1].time_ms, TimeMs::new(2000));
    assert_eq!((snapshots[1].seq, snapshots[1].net_size, snapshots[1].avg_entry_px), (0, d("0"), d("0")));
    assert_eq!(snapshots[1].lifecycle_id, 1);
    assert_eq!(snapshots[2].time_ms, TimeMs::new(2000));
    assert_eq!((snapshots[2].seq, snapshots[2].net_size, snapshots[2].avg_entry_px), (1, d("-1"), d("55000")));
    assert_eq!(snapshots[2].lifecycle_id, 2);
    assert_eq!(effects.len(), 3);
    assert_eq!(effects[1].effect_type, EffectType::Close);
    assert_eq!((effects[1].qty, effects[1].fee, effects[1].closed_pnl), (d("1"), d("5"), d("5000")));
    assert_eq!(effects[1].notional, d("55000"));
    assert_eq!(effects[2].effect_type, EffectType::Open);
    assert_eq!((effects[2].qty, effects[2].fee, effects[2].closed_pnl), (d("1"), d("5"), d("0")));
    assert_eq!(effects[2].notional, d("55000"));
    assert_eq!(effects[1].fill_key, effects[2].fill_key);
}

#[test]
fn flip_apportions_the_fee_by_quantity() {
    let mut tracker = PositionTracker::new();
    tracker.process_fill(&sell("3", "100", 1000, 1)).unwrap();
    tracker
        .process_fill(&fill(Side::Buy, "4", "90", 2000, 2, "8", "30"))
        .unwrap();
    assert_eq!(tracker.state.net_size, d("1"));
    assert_eq!(tracker.position().lifecycle_id, Some(2));
    let (_, _, effects) = tracker.into_outputs();
    let close = &effects[1];
    let open = &effects[2];
    assert_eq!(close.qty, d("3"));
    assert_eq!(open.qty, d("1"));
    assert_eq!(close.qty.checked_add(&open.qty).unwrap(), d("4"));
    assert_eq!(close.fee, d("6"));
    assert_eq!(open.fee, d("2"));
    assert_eq!(close.fee.checked_add(&open.fee).unwrap(), d("8"));
    assert_eq!(close.notional, d("270"));
    assert_eq!(open.notional, d("90"));
    assert_eq!(close.closed_pnl, d("30"));
    assert_eq!(open.closed_pnl, d("0"));
}

#[test]
fn tracker_run_twice_gives_the_same_outputs() {
    let fills = vec![
        buy("1", "50000", 1000, 1),
        fill(Side::Sell, "2.5", "55000", 2000, 2, "10", "5000"),
        sell("0.5", "54000", 2000, 3),
        fill(Side::Buy, "2", "53000", 3000, 4, "1", "-7"),
        buy("1", "52000", 4000, 5),
    ];
    let first = track_fills(&fills).unwrap();
    let second = track_fills(&fills).unwrap();
    assert_eq!(first, second);
    assert_eq!(first.0.len(), 3);
    assert_eq!(first.0.iter().map(|l| l.id).collect::<Vec<_>>(), vec![1, 2, 3]);
    assert_eq!(first.1.len(), 6);
    assert_eq!(first.2.len(), 6);
    let mut stepwise = PositionTracker::new();
    for f in &fills {
        stepwise.process_fill(f).unwrap();
    }
    assert_eq!(stepwise.into_outputs(), first);
}

#[test]
fn closed_pnl_of_effects_adds_up_to_that_of_the_fills() {
    let fills = vec![
        fill(Side::Buy, "1", "50000", 1000, 1, "1", "0"),
        fill(Side::Sell, "3", "55000", 2000, 2, "10", "5000"),
        fill(Side::Buy, "1", "54000", 3000, 3, "2", "1000.5"),
        fill(Side::Buy, "4", "53000", 4000, 4, "3", "-250.25"),
        fill(Side::Sell, "3", "52000", 5000, 5, "4", "0.75"),
    ];
    let (_, _, effects) = track_fills(&fills).unwrap();
    assert_eq!(effects.len(), 7);
    let of_effects = hypesilico::domain::decimal::sum_decimals(
        &effects.iter().map(|e| e.closed_pnl).collect(),
    )
    .unwrap();
    let of_fills = hypesilico::domain::decimal::sum_decimals(
        &fills.iter().map(|f| f.closed_pnl).collect(),
    )
    .unwrap();
    assert_eq!(of_effects, of_fills);
    assert_eq!(of_effects.to_canonical_string(), "5751");
    let fees = hypesilico::domain::decimal::sum_decimals(
        &effects.iter().map(|e| e.fee).collect(),
    )
    .unwrap();
    assert_eq!(fees.to_canonical_string(), "20");
}

#[test]
fn tracker_reports_overflow_and_stays_as_it_was() {
    let mut tracker = PositionTracker::new();
    tracker.process_fill(&buy("1", "50000", 1000, 1)).unwrap();
    let huge = fill(
        Side::Buy,
        "79228162514264337593543950335",
        "2",
        2000,
        2,
        "0",
        "0",
    );
    assert_eq!(
        tracker.process_fill(&huge),
        Err(TrackerError::ArithmeticOverflow)
    );
    assert_eq!(tracker.state.net_size, d("1"));
    assert_eq!(tracker.state.lifecycle_id, Some(1));
    let mut flat = PositionTracker::new();
    assert_eq!(
        flat.process_fill(&huge),
        Err(TrackerError::ArithmeticOverflow)
    );
    assert!(flat.state.is_flat());
    let (lifecycles, snapshots, effects) = flat.into_outputs();
    assert!(lifecycles.is_empty() && snapshots.is_empty() && effects.is_empty());
    let (lifecycles, snapshots, effects) = tracker.into_outputs();
    assert_eq!((lifecycles.len(), snapshots.len(), effects.len()), (1, 1, 1));
}

#[test]
fn track_fills_stops_at_the_first_error() {
    let fills = vec![
        buy("1", "50000", 1000, 1),
        fill(Side::Buy, "79228162514264337593543950335", "1", 2000, 2, "0", "0"),
        sell("1", "50000", 3000, 3),
    ];
    assert_eq!(track_fills(&fills), Err(TrackerError::ArithmeticOverflow));
    assert_eq!(track_fills(&vec![]), Ok((vec![], vec![], vec![])));
}

#[test]
fn position_state_tells_long_short_and_flat() {
    let flat = PositionState::new();
    assert!(flat.is_flat() && !flat.is_long() && !flat.is_short());
    assert_eq!(flat, PositionState::default());
    let mut tracker = PositionTracker::default();
    tracker.process_fill(&sell("2", "10", 1, 1)).unwrap();
    assert!(tracker.state.is_short() && !tracker.state.is_long() && !tracker.state.is_flat());
    tracker.process_fill(&buy("5", "10", 2, 2)).unwrap();
    assert!(tracker.state.is_long());
}

#[test]
fn tracker_resumes_where_it_stopped() {
    let fills = vec![
        buy("1", "50000", 1000, 1),
        buy("1", "60000", 2000, 2),
        fill(Side::Sell, "3", "70000", 3000, 3, "3", "10"),
        buy("1", "65000", 4000, 4),
    ];
    let whole = track_fills(&fills).unwrap();

    let mut first = PositionTracker::new();
    first.process_fill(&fills[0]).unwrap();
    first.process_fill(&fills[1]).unwrap();
    let checkpoint = first.checkpoint();
    assert_eq!(checkpoint.next_lifecycle_id, 2);
    assert_eq!(checkpoint.state.net_size, d("2"));
    assert_eq!(checkpoint.state.avg_entry_px, d("55000"));
    assert_eq!(checkpoint.open_lifecycle.as_ref().map(|l| l.id), Some(1));
    let before = first.into_outputs();

    let mut second = PositionTracker::resume(checkpoint).unwrap();
    second.process_fill(&fills[2]).unwrap();
    second.process_fill(&fills[3]).unwrap();
    assert!(second.checkpoint().open_lifecycle.is_none());
    let after = second.into_outputs();

    // the lifecycle that was open comes again, now closed
    assert_eq!(after.0[0], whole.0[0]);
    assert_eq!(after.0[1..], whole.0[1..]);
    assert_eq!(before.0[0].end_time_ms, None);
    let mut snapshots = before.1.clone();
    snapshots.extend(after.1.clone());
    assert_eq!(snapshots, whole.1);
    let mut effects = before.2.clone();
    effects.extend(after.2.clone());
    assert_eq!(effects, whole.2);
}

#[test]
fn tracker_refuses_a_snapshot_that_is_not_consistent() {
    let open = hypesilico::engine::Lifecycle {
        id: 3,
        user: Address::new("0x123".to_string()),
        coin: Coin::new("BTC".to_string()),
        start_time_ms: TimeMs::new(5),
        end_time_ms: None,
    };
    let state = PositionState {
        net_size: d("1"),
        avg_entry_px: d("10"),
        lifecycle_id: Some(3),
    };
    let good = TrackerSnapshot {
        state,
        next_lifecycle_id: 4,
        open_lifecycle: Some(open.clone()),
    };
    assert!(PositionTracker::resume(good.clone()).is_some());
    let mut bad = good.clone();
    bad.next_lifecycle_id = 3;
    assert!(PositionTracker::resume(bad).is_none());
    let mut bad = good.clone();
    bad.open_lifecycle = None;
    assert!(PositionTracker::resume(bad).is_none());
    let mut bad = good.clone();
    bad.state.net_size = d("0");
    assert!(PositionTracker::resume(bad).is_none());
    let mut bad = good.clone();
    bad.open_lifecycle.as_mut().unwrap().end_time_ms = Some(TimeMs::new(9));
    assert!(PositionTracker::resume(bad).is_none());
    let mut bad = good.clone();
    bad.open_lifecycle.as_mut().unwrap().id = 2;
    assert!(PositionTracker::resume(bad).is_none());
    let flat = TrackerSnapshot {
        state: PositionState::new(),
        next_lifecycle_id: 0,
        open_lifecycle: None,
    };
    assert!(PositionTracker::resume(flat).is_none());
    let flat = TrackerSnapshot {
        state: PositionState::new(),
        next_lifecycle_id: 1,
        open_lifecycle: Some(open),
    };
    assert!(PositionTracker::resume(flat).is_none());
}

#[test]
fn tracker_runs_out_of_lifecycle_ids() {
    let snapshot = TrackerSnapshot {
        state: PositionState::new(),
        next_lifecycle_id: i64::MAX,
        open_lifecycle: None,
    };
    let mut tracker = PositionTracker::resume(snapshot).unwrap();
    assert_eq!(
        tracker.process_fill(&buy("1", "1", 1, 1)),
        Err(TrackerError::LifecycleIdsExhausted)
    );
    assert!(tracker.state.is_flat());
}

#[test]
fn flip_fees_add_up_where_the_ratio_has_no_end() {
    let mut tracker = PositionTracker::new();
    tracker.process_fill(&buy("1", "100", 1000, 1)).unwrap();
    tracker
        .process_fill(&fill(Side::Sell, "3", "110", 2000, 2, "10", "7"))
        .unwrap();
    assert_eq!(tracker.state.net_size, d("-2"));
    assert_eq!(tracker.state.avg_entry_px, d("110"));
    let (_, _, effects) = tracker.into_outputs();
    let close = &effects[1];
    let open = &effects[2];
    assert_eq!(close.qty, d("1"));
    assert_eq!(open.qty, d("2"));
    assert_eq!(close.qty.checked_add(&open.qty).unwrap(), d("3"));
    assert_eq!(close.fee.to_canonical_string(), "3.333333333333333333333333333");
    assert_eq!(open.fee.to_canonical_string(), "6.666666666666666666666666667");
    assert_eq!(close.fee.checked_add(&open.fee).unwrap(), d("10"));
    assert_eq!(close.notional, d("110"));
    assert_eq!(open.notional, d("220"));
    assert_eq!(close.closed_pnl, d("7"));
    assert_eq!(open.closed_pnl, d("0"));
}
