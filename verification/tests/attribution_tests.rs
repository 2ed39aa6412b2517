use hypesilico::{Address, Attribution, AttributionConfidence, AttributionMode, Confidence, Decimal};
use std::str::FromStr;

#[test]
fn test_heuristic_attribution_with_fee() {
    let fee = Decimal::from_str("0.5").unwrap();
    let attr = Attribution::from_heuristic(Some(&fee));

    assert!(attr.attributed);
    assert_eq!(attr.mode, AttributionMode::Heuristic);
    assert_eq!(attr.confidence, AttributionConfidence::Low);
    assert!(attr.builder.is_none());
}

#[test]
fn test_heuristic_attribution_without_fee() {
    let attr = Attribution::from_heuristic(None);
    assert!(!attr.attributed);
}

#[test]
fn test_heuristic_attribution_with_zero_fee() {
    let fee = Decimal::from_str("0").unwrap();
    let attr = Attribution::from_heuristic(Some(&fee));
    assert!(!attr.attributed);
}

#[test]
fn test_logs_attribution_exact_match() {
    let builder = Address::new("0x1234".to_string());
    let attr = Attribution::from_logs_match(
        true,
        Some(builder.clone()),
        AttributionConfidence::Exact,
    );

    assert!(attr.attributed);
    assert_eq!(attr.mode, AttributionMode::Logs);
    assert_eq!(attr.confidence, AttributionConfidence::Exact);
    assert_eq!(attr.builder, Some(builder));
}

#[test]
fn heuristic_attribution_with_negative_fee_is_not_attributed() {
    let fee = Decimal::from_str("-0.5").unwrap();
    let attr = Attribution::from_heuristic(Some(&fee));
    assert!(!attr.attributed);
    assert_eq!(attr.mode, AttributionMode::Heuristic);
    assert_eq!(attr.confidence, Confidence::Low);
    let tiny = Decimal::from_str("0.0000000000000000000000000001").unwrap();
    assert!(Attribution::from_heuristic(Some(&tiny)).attributed);
    let zero = Decimal::from_str("0.000").unwrap();
    assert!(!Attribution::from_heuristic(Some(&zero)).attributed);
}

#[test]
fn attribution_shorthands() {
    let h = Attribution::heuristic(true);
    assert!(h.attributed);
    assert_eq!(h.mode, AttributionMode::Heuristic);
    assert_eq!(h.confidence, AttributionConfidence::Low);
    assert_eq!(h.builder, None);
    assert!(!Attribution::heuristic(false).attributed);
    let b = Address::new("0xb".to_string());
    let l = Attribution::logs(false, Some(b.clone()));
    assert!(!l.attributed);
    assert_eq!(l.mode, AttributionMode::Logs);
    assert_eq!(l.confidence, AttributionConfidence::Exact);
    assert_eq!(l.builder, Some(b));
    assert_eq!(l.clone(), l);
    let f = Attribution::from_logs_match(true, None, AttributionConfidence::Fuzzy);
    assert_eq!(f.confidence, AttributionConfidence::Fuzzy);
    assert!(f.builder.is_none());
}
