use hypesilico::engine::{BuilderOnlyFilter, Effect, EffectType, Snapshot, TaintComputer, TaintInfo};
use hypesilico::{Address, Attribution, Decimal};
use std::collections::HashMap;
use std::str::FromStr;
fn attributed() -> Attribution {
    let fee = Decimal::from_str("1").unwrap();
    Attribution::from_heuristic(Some(&fee))
}

fn not_attributed() -> Attribution {
    Attribution::from_heuristic(None)
}

#[test]
fn test_lifecycle_with_all_builder_fills_not_tainted() {
    let mut computer = TaintComputer::new();

    computer.add_fill_to_lifecycle(1, "fill_a".into());
    computer.add_fill_to_lifecycle(1, "fill_b".into());

    computer.set_attribution("fill_a".into(), attributed());
    computer.set_attribution("fill_b".into(), attributed());

    let taint = computer.compute_taint(1);
    assert!(!taint.is_tainted);
    assert!(taint.reason.is_none());
}

#[test]
fn test_lifecycle_with_one_non_builder_fill_is_tainted() {
    let mut computer = TaintComputer::new();

    computer.add_fill_to_lifecycle(1, "fill_a".into());
    computer.add_fill_to_lifecycle(1, "fill_b".into());

    computer.set_attribution("fill_a".into(), attributed());
    computer.set_attribution("fill_b".into(), not_attributed());

    let taint = computer.compute_taint(1);
    assert!(taint.is_tainted);
    assert!(taint.reason.as_ref().is_some());
    assert!(taint.reason.unwrap().contains("fill_b"));
}

#[test]
fn test_lifecycle_with_missing_attribution_is_tainted() {
    let mut computer = TaintComputer::new();
    computer.add_fill_to_lifecycle(1, "fill_a".into());

    let taint = computer.compute_taint(1);
    assert!(taint.is_tainted);
    assert!(taint
        .reason
        .unwrap()
        .to_lowercase()
        .contains("no attribution"));
}

#[test]
fn test_taint_resets_on_new_lifecycle() {
    let mut computer = TaintComputer::new();

    computer.add_fill_to_lifecycle(1, "fill_a".into());
    computer.set_attribution("fill_a".into(), not_attributed());

    computer.add_fill_to_lifecycle(2, "fill_b".into());
    computer.set_attribution("fill_b".into(), attributed());

    let taints = computer.compute_all_taints();
    assert!(taints[&1].is_tainted);
    assert!(!taints[&2].is_tainted);
}

#[test]
fn test_filter_excludes_tainted_lifecycles() {
    let taints = HashMap::from([
        (
            1,
            TaintInfo {
                is_tainted: false,
                reason: None,
            },
        ),
        (
            2,
            TaintInfo {
                is_tainted: true,
                reason: Some("non-builder fill".into()),
            },
        ),
    ]);

    let filter = BuilderOnlyFilter::new(&taints);

    let snapshots = vec![
        Snapshot {
            lifecycle_id: 1,
            ..Default::default()
        },
        Snapshot {
            lifecycle_id: 2,
            ..Default::default()
        },
    ];

    let filtered = filter.filter_snapshots(&snapshots);
    assert_eq!(filtered.len(), 1);
    assert_eq!(filtered[0].lifecycle_id, 1);
}

#[test]
fn test_had_exclusions_returns_true_when_data_excluded() {
    let taints = HashMap::from([
        (
            1,
            TaintInfo {
                is_tainted: false,
                reason: None,
            },
        ),
        (
            2,
            TaintInfo {
                is_tainted: true,
                reason: Some("x".into()),
            },
        ),
    ]);

    let filter = BuilderOnlyFilter::new(&taints);

    assert!(filter.had_exclusions(&[1, 2]));
    assert!(!filter.had_exclusions(&[1]));
}

#[test]
fn taint_reason_names_the_first_fill_in_key_order_and_its_mode() {
    let mut computer = TaintComputer::new();
    computer.add_fill_to_lifecycle(7, "fill_c".into());
    computer.add_fill_to_lifecycle(7, "fill_a".into());
    computer.add_fill_to_lifecycle(7, "fill_b".into());
    computer.add_fill_to_lifecycle(7, "fill_a".into());
    computer.set_attribution("fill_a".into(), attributed());
    computer.set_attribution("fill_b".into(), Attribution::logs(false, None));
    let taint = computer.compute_taint(7);
    assert_eq!(
        taint,
        TaintInfo {
            is_tainted: true,
            reason: Some("Fill fill_b not attributed to builder (mode=Logs)".to_string()),
        }
    );
    computer.set_attribution("fill_b".into(), not_attributed());
    assert_eq!(
        computer.compute_taint(7).reason.unwrap(),
        "Fill fill_b not attributed to builder (mode=Heuristic)"
    );
    computer.set_attribution("fill_b".into(), attributed());
    assert_eq!(
        computer.compute_taint(7).reason.unwrap(),
        "Fill fill_c has no attribution data"
    );
    computer.set_attribution(
        "fill_c".into(),
        Attribution::logs(true, Some(Address::new("0xb".to_string()))),
    );
    assert_eq!(
        computer.compute_taint(7),
        TaintInfo {
            is_tainted: false,
            reason: None
        }
    );
}

#[test]
fn taint_of_an_unknown_lifecycle_is_clean() {
    let computer = TaintComputer::default();
    assert_eq!(
        computer.compute_taint(1),
        TaintInfo {
            is_tainted: false,
            reason: None
        }
    );
    assert!(computer.compute_all_taints().is_empty());
}

#[test]
fn adding_a_fill_never_clears_a_taint() {
    let mut computer = TaintComputer::new();
    computer.add_fill_to_lifecycle(1, "k1".into());
    computer.set_attribution("k1".into(), attributed());
    assert!(!computer.compute_taint(1).is_tainted);
    // a fill that is not attributed taints
    computer.set_attribution("k2".into(), not_attributed());
    computer.add_fill_to_lifecycle(1, "k2".into());
    assert!(computer.compute_taint(1).is_tainted);
    // and no fill added later clears it
    computer.set_attribution("k0".into(), attributed());
    computer.add_fill_to_lifecycle(1, "k0".into());
    assert!(computer.compute_taint(1).is_tainted);
    computer.add_fill_to_lifecycle(1, "k3".into());
    assert!(computer.compute_taint(1).is_tainted);
    // other lifecycles are not touched
    computer.add_fill_to_lifecycle(2, "k1".into());
    assert!(!computer.compute_taint(2).is_tainted);
    let all = computer.compute_all_taints();
    assert_eq!(all.len(), 2);
    assert!(all[&1].is_tainted && !all[&2].is_tainted);
    assert_eq!(all[&1], computer.compute_taint(1));
}

#[test]
fn filter_leaves_out_lifecycles_without_taint_info() {
    let taints = HashMap::from([(
        1,
        TaintInfo {
            is_tainted: false,
            reason: None,
        },
    )]);
    let filter = BuilderOnlyFilter::new(&taints);
    assert!(filter.include_lifecycle(1));
    assert!(!filter.include_lifecycle(9));
    assert!(filter.had_exclusions(&[9]));
    assert!(!filter.had_exclusions(&[]));
    let effects = vec![
        Effect {
            fill_key: "a".to_string(),
            lifecycle_id: 9,
            effect_type: EffectType::Close,
            ..Default::default()
        },
        Effect {
            fill_key: "b".to_string(),
            lifecycle_id: 1,
            ..Default::default()
        },
        Effect {
            fill_key: "c".to_string(),
            lifecycle_id: 1,
            ..Default::default()
        },
    ];
    let kept = filter.filter_effects(&effects);
    assert_eq!(kept, effects[1..].to_vec());
    assert_eq!(kept[0].effect_type, EffectType::Open);
}

#[test]
fn effect_type_as_stored_text() {
    assert_eq!(EffectType::Open.as_text(), "open");
    assert_eq!(EffectType::Close.as_text(), "close");
    assert_eq!(EffectType::from_text("open"), Some(EffectType::Open));
    assert_eq!(EffectType::from_text("close"), Some(EffectType::Close));
    assert_eq!(EffectType::from_text("Close"), None);
    assert_eq!(EffectType::default(), EffectType::Open);
}
