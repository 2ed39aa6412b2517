use hypesilico::compile::incremental::{
    merge_carried_taint, AttributionRow, CompileError, TaintUpdate,
};
use hypesilico::compile::{CompileState, Compiler};
use hypesilico::engine::position_tracker::{track_fills, TrackerError};
use hypesilico::engine::{Effect, Lifecycle, TaintInfo};
use hypesilico::{
    Address, Attribution, AttributionConfidence, AttributionMode, Coin, Decimal, Fill, Side, TimeMs,
};
#[test]
fn test_compile_state_new() {
    let user = Address::new("0x123".to_string());
    let coin = Coin::new("BTC".to_string());
    let state = CompileState::new(user.clone(), coin.clone());

    assert_eq!(state.user, user);
    assert_eq!(state.coin, coin);
    assert!(state.last_compiled_ms.is_none());
    assert!(state.last_fill_key.is_none());
}

#[test]
fn test_compile_state_is_first_compilation() {
    let user = Address::new("0x123".to_string());
    let coin = Coin::new("BTC".to_string());
    let state = CompileState::new(user, coin);

    assert!(state.is_first_compilation());
}

#[test]
fn test_compile_state_with_watermark() {
    let user = Address::new("0x123".to_string());
    let coin = Coin::new("BTC".to_string());
    let time_ms = TimeMs::new(1000);
    let fill_key = "fill_key_123".to_string();

    let state = CompileState::with_watermark(
        user.clone(),
        coin.clone(),
        Some(time_ms),
        Some(fill_key.clone()),
    );

    assert_eq!(state.user, user);
    assert_eq!(state.coin, coin);
    assert_eq!(state.last_compiled_ms, Some(time_ms));
    assert_eq!(state.last_fill_key, Some(fill_key));
    assert!(!state.is_first_compilation());
}

#[test]
fn test_compile_state_update_watermark() {
    let user = Address::new("0x123".to_string());
    let coin = Coin::new("BTC".to_string());
    let mut state = CompileState::new(user, coin);

    let time_ms = TimeMs::new(2000);
    let fill_key = "fill_key_456".to_string();
    state.update_watermark(time_ms, fill_key.clone());

    assert_eq!(state.last_compiled_ms, Some(time_ms));
    assert_eq!(state.last_fill_key, Some(fill_key));
}

fn d(s: &str) -> Decimal {
    Decimal::from_str_canonical(s).unwrap()
}

fn fill(side: Side, sz: &str, px: &str, time_ms: i64, tid: i64, closed_pnl: &str) -> Fill {
    Fill::new(
        TimeMs::new(time_ms),
        Address::new("0x123".to_string()),
        Coin::new("BTC".to_string()),
        side,
        d(px),
        d(sz),
        d("1"),
        d(closed_pnl),
        None,
        Some(tid),
        None,
    )
}

fn row(key: &str, attributed: bool, mode: &str) -> AttributionRow {
    AttributionRow {
        fill_key: key.to_string(),
        attributed,
        mode: mode.to_string(),
        confidence: "low".to_string(),
        builder: None,
    }
}

#[test]
fn compile_state_counts_compilations() {
    let mut state = CompileState::new(
        Address::new("0x123".to_string()),
        Coin::new("BTC".to_string()),
    );
    assert_eq!(state.compile_version, 0);
    assert!(state.tracker_snapshot.is_none());
    state.update_watermark(TimeMs::new(1), "a".to_string());
    state.update_watermark(TimeMs::new(2), "b".to_string());
    assert_eq!(state.compile_version, 2);
    assert_eq!(state.last_fill_key.as_deref(), Some("b"));
    state.compile_version = u64::MAX;
    state.update_watermark(TimeMs::new(3), "c".to_string());
    assert_eq!(state.compile_version, u64::MAX);
    assert_eq!(state.clone(), state);
}

#[test]
fn compile_batch_of_nothing_is_nothing() {
    assert!(matches!(Compiler::compile_batch(None, &vec![]), Ok(None)));
}

#[test]
fn compile_batch_derives_rows_and_the_watermark() {
    let fills = vec![
        fill(Side::Buy, "1", "100", 1000, 1, "0"),
        fill(Side::Sell, "3", "110", 2000, 2, "10"),
    ];
    let batch = Compiler::compile_batch(None, &fills).unwrap().unwrap();
    let emitted = track_fills(&fills).unwrap();
    assert_eq!(batch.lifecycles, emitted.0);
    assert_eq!(batch.snapshots, emitted.1);
    assert_eq!(batch.effects, emitted.2);
    assert_eq!(batch.fills_processed, 2);
    assert_eq!(batch.last_time_ms, TimeMs::new(2000));
    assert_eq!(batch.last_fill_key, "0x123:BTC:tid:2");
    assert_eq!(batch.tracker_snapshot.next_lifecycle_id, 3);
    assert_eq!(batch.tracker_snapshot.state.net_size, d("-2"));
    assert_eq!(
        batch.tracker_snapshot.open_lifecycle.as_ref().map(|l| l.id),
        Some(2)
    );
}

#[test]
fn compile_in_two_batches_gives_what_one_batch_gives() {
    let fills = vec![
        fill(Side::Buy, "1", "100", 1000, 1, "0"),
        fill(Side::Buy, "1", "120", 2000, 2, "0"),
        fill(Side::Sell, "3", "110", 3000, 3, "10"),
        fill(Side::Buy, "1", "105", 4000, 4, "5"),
        fill(Side::Buy, "2", "100", 5000, 5, "0"),
    ];
    let whole = Compiler::compile_batch(None, &fills).unwrap().unwrap();
    let first = Compiler::compile_batch(None, &fills[..2].to_vec())
        .unwrap()
        .unwrap();
    let mut state = CompileState::new(
        Address::new("0x123".to_string()),
        Coin::new("BTC".to_string()),
    );
    state.update_watermark(first.last_time_ms, first.last_fill_key.clone());
    state.set_tracker_snapshot(first.tracker_snapshot.clone());
    assert_eq!(state.compile_version, 1);
    let second = Compiler::compile_batch(state.tracker_snapshot.clone(), &fills[2..].to_vec())
        .unwrap()
        .unwrap();
    assert_eq!(second.tracker_snapshot, whole.tracker_snapshot);
    assert_eq!(second.last_fill_key, whole.last_fill_key);
    // upserting the second batch over the first gives the rows of the whole
    let mut lifecycles: Vec<Lifecycle> = first.lifecycles.clone();
    for l in &second.lifecycles {
        match lifecycles.iter_mut().find(|k| k.id == l.id) {
            Some(k) => *k = l.clone(),
            None => lifecycles.push(l.clone()),
        }
    }
    assert_eq!(lifecycles, whole.lifecycles);
    let snapshots: Vec<_> = first.snapshots.iter().chain(second.snapshots.iter()).cloned().collect();
    assert_eq!(snapshots, whole.snapshots);
    let effects: Vec<Effect> = first.effects.iter().chain(second.effects.iter()).cloned().collect();
    assert_eq!(effects, whole.effects);
}

#[test]
fn compile_batch_refuses_fills_out_of_order() {
    let late_first = vec![
        fill(Side::Buy, "1", "100", 2000, 1, "0"),
        fill(Side::Buy, "1", "100", 1000, 2, "0"),
    ];
    assert!(matches!(
        Compiler::compile_batch(None, &late_first),
        Err(CompileError::FillsOutOfOrder)
    ));
    let no_size = vec![fill(Side::Buy, "0", "100", 1000, 1, "0")];
    assert!(matches!(
        Compiler::compile_batch(None, &no_size),
        Err(CompileError::FillsOutOfOrder)
    ));
    let negative = vec![fill(Side::Buy, "-1", "100", 1000, 1, "0")];
    assert!(matches!(
        Compiler::compile_batch(None, &negative),
        Err(CompileError::FillsOutOfOrder)
    ));
    // a fill older than the start of the open position
    let open = Compiler::compile_batch(None, &vec![fill(Side::Buy, "1", "100", 5000, 1, "0")])
        .unwrap()
        .unwrap();
    let older = vec![fill(Side::Sell, "1", "100", 4999, 2, "0")];
    assert!(matches!(
        Compiler::compile_batch(Some(open.tracker_snapshot.clone()), &older),
        Err(CompileError::FillsOutOfOrder)
    ));
    let same_time = vec![fill(Side::Sell, "1", "100", 5000, 2, "0")];
    assert!(Compiler::compile_batch(Some(open.tracker_snapshot), &same_time).is_ok());
}

#[test]
fn compile_batch_refuses_a_corrupt_snapshot_and_reports_overflow() {
    let open = Compiler::compile_batch(None, &vec![fill(Side::Buy, "1", "100", 5000, 1, "0")])
        .unwrap()
        .unwrap();
    let mut corrupt = open.tracker_snapshot.clone();
    corrupt.open_lifecycle = None;
    assert!(matches!(
        Compiler::compile_batch(Some(corrupt), &vec![fill(Side::Buy, "1", "1", 6000, 2, "0")]),
        Err(CompileError::CorruptSnapshot)
    ));
    let huge = vec![fill(Side::Buy, "79228162514264337593543950335", "2", 1, 1, "0")];
    assert!(matches!(
        Compiler::compile_batch(None, &huge),
        Err(CompileError::Tracker(TrackerError::ArithmeticOverflow))
    ));
}

#[test]
fn attribution_from_row_reads_mode_and_confidence() {
    let a = Compiler::attribution_from_row(&AttributionRow {
        fill_key: "k".to_string(),
        attributed: true,
        mode: "logs".to_string(),
        confidence: "fuzzy".to_string(),
        builder: Some("0xb".to_string()),
    });
    assert_eq!(
        a,
        Attribution::from_logs_match(
            true,
            Some(Address::new("0xb".to_string())),
            AttributionConfidence::Fuzzy
        )
    );
    let a = Compiler::attribution_from_row(&row("k", false, "heuristic"));
    assert_eq!(a, Attribution::heuristic(false));
    let a = Compiler::attribution_from_row(&AttributionRow {
        fill_key: "k".to_string(),
        attributed: true,
        mode: "LOGS".to_string(),
        confidence: "certain".to_string(),
        builder: None,
    });
    assert_eq!(a.mode, AttributionMode::Heuristic);
    assert_eq!(a.confidence, AttributionConfidence::Low);
    let a = Compiler::attribution_from_row(&AttributionRow {
        fill_key: "k".to_string(),
        attributed: true,
        mode: "logs".to_string(),
        confidence: "exact".to_string(),
        builder: None,
    });
    assert_eq!(a.confidence, AttributionConfidence::Exact);
}

#[test]
fn scenario_builder_only_taints() {
    // four fills: lifecycle 1 from fills 1 and 2, lifecycle 2 from fills 3 and 4;
    // attributions for fills 1, 3 and 4 only
    let fills = vec![
        fill(Side::Buy, "1", "100", 1000, 1, "0"),
        fill(Side::Sell, "1", "110", 2000, 2, "10"),
        fill(Side::Buy, "1", "100", 3000, 3, "0"),
        fill(Side::Sell, "1", "120", 4000, 4, "20"),
    ];
    let batch = Compiler::compile_batch(None, &fills).unwrap().unwrap();
    assert_eq!(batch.lifecycles.len(), 2);
    let rows = vec![
        row("0x123:BTC:tid:1", true, "heuristic"),
        row("0x123:BTC:tid:3", true, "heuristic"),
        row("0x123:BTC:tid:4", true, "heuristic"),
    ];
    let taints = Compiler::lifecycle_taints(&batch.lifecycles, &batch.effects, &rows);
    assert_eq!(
        taints,
        vec![
            TaintUpdate {
                lifecycle_id: 1,
                is_tainted: true,
                reason: Some("Fill 0x123:BTC:tid:2 has no attribution data".to_string()),
            },
            TaintUpdate {
                lifecycle_id: 2,
                is_tainted: false,
                reason: None,
            },
        ]
    );
}

#[test]
fn lifecycle_taints_go_by_the_last_row_of_a_fill() {
    let fills = vec![
        fill(Side::Buy, "1", "100", 1000, 1, "0"),
        fill(Side::Sell, "2", "110", 2000, 2, "10"),
    ];
    let batch = Compiler::compile_batch(None, &fills).unwrap().unwrap();
    let rows = vec![
        row("0x123:BTC:tid:1", true, "heuristic"),
        row("0x123:BTC:tid:2", true, "logs"),
        row("0x123:BTC:tid:2", false, "logs"),
    ];
    let taints = Compiler::lifecycle_taints(&batch.lifecycles, &batch.effects, &rows);
    // the flip books fill 2 on both lifecycles
    assert_eq!(
        taints,
        vec![
            TaintUpdate {
                lifecycle_id: 1,
                is_tainted: true,
                reason: Some(
                    "Fill 0x123:BTC:tid:2 not attributed to builder (mode=Logs)".to_string()
                ),
            },
            TaintUpdate {
                lifecycle_id: 2,
                is_tainted: true,
                reason: Some(
                    "Fill 0x123:BTC:tid:2 not attributed to builder (mode=Logs)".to_string()
                ),
            },
        ]
    );
    let computer = Compiler::taint_computer(&batch.effects, &rows);
    assert!(computer.compute_taint(1).is_tainted);
    assert!(!computer.compute_taint(3).is_tainted);
    assert!(Compiler::lifecycle_taints(&vec![], &batch.effects, &rows).is_empty());
}

#[test]
fn compile_arrived_processes_in_canonical_order_and_keeps_the_largest_key() {
    // as delivered by key: tid:10 comes before tid:9
    let by_key = vec![
        fill(Side::Sell, "1", "110", 2000, 10, "10"),
        fill(Side::Buy, "1", "100", 1000, 9, "0"),
    ];
    assert!(by_key[0].fill_key < by_key[1].fill_key);
    let batch = Compiler::compile_arrived(None, by_key.clone()).unwrap().unwrap();
    let canonical = vec![by_key[1].clone(), by_key[0].clone()];
    let emitted = track_fills(&canonical).unwrap();
    assert_eq!(batch.lifecycles, emitted.0);
    assert_eq!(batch.snapshots, emitted.1);
    assert_eq!(batch.effects, emitted.2);
    assert_eq!(batch.last_fill_key, "0x123:BTC:tid:9");
    assert_eq!(batch.last_time_ms, TimeMs::new(1000));
    assert_eq!(batch.fills_processed, 2);
    assert!(batch.tracker_snapshot.open_lifecycle.is_none());
    assert!(matches!(Compiler::compile_arrived(None, vec![]), Ok(None)));
    let no_size = vec![fill(Side::Buy, "0", "100", 1000, 1, "0")];
    assert!(matches!(
        Compiler::compile_arrived(None, no_size),
        Err(CompileError::FillsOutOfOrder)
    ));
}

#[test]
fn a_carried_lifecycle_never_turns_clean_again() {
    let update = |is_tainted: bool, reason: Option<&str>| TaintUpdate {
        lifecycle_id: 7,
        is_tainted,
        reason: reason.map(|r| r.to_string()),
    };
    let stored = |is_tainted: bool, reason: Option<&str>| {
        Some(TaintInfo { is_tainted, reason: reason.map(|r| r.to_string()) })
    };
    assert_eq!(merge_carried_taint(None, update(false, None)), update(false, None));
    assert_eq!(merge_carried_taint(None, update(true, Some("new"))), update(true, Some("new")));
    assert_eq!(
        merge_carried_taint(stored(false, None), update(false, None)),
        update(false, None)
    );
    assert_eq!(
        merge_carried_taint(stored(false, None), update(true, Some("new"))),
        update(true, Some("new"))
    );
    assert_eq!(
        merge_carried_taint(stored(true, Some("old")), update(false, None)),
        update(true, Some("old"))
    );
    assert_eq!(
        merge_carried_taint(stored(true, Some("old")), update(true, Some("new"))),
        update(true, Some("old"))
    );
    assert_eq!(
        merge_carried_taint(stored(true, None), update(true, Some("new"))),
        update(true, None)
    );
}
