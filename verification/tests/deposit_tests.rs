use hypesilico::domain::deposit::normalize_tx_hash;
use hypesilico::{Address, Decimal, Deposit, TimeMs};
use sha2::Digest;
use std::str::FromStr;

#[test]
fn event_key_prefers_tx_hash() {
    let deposit = Deposit::new(
        Address::new("0xabc".to_string()),
        TimeMs::new(1000),
        Decimal::from_str("1").unwrap(),
        Some("0xDEADBEEF".to_string()),
    );
    assert_eq!(deposit.event_key, "0xdeadbeef");
    assert_eq!(deposit.tx_hash.as_deref(), Some("0xdeadbeef"));
}

#[test]
fn event_key_falls_back_to_hash() {
    let d1 = Deposit::new(
        Address::new("0xabc".to_string()),
        TimeMs::new(1000),
        Decimal::from_str("1.2300").unwrap(),
        None,
    );
    let d2 = Deposit::new(
        Address::new("0xabc".to_string()),
        TimeMs::new(1000),
        Decimal::from_str("1.23").unwrap(),
        None,
    );
    assert_eq!(d1.event_key, d2.event_key);
    assert!(d1.event_key.starts_with("hash:"));
}

#[test]
fn test_deposit_clone_and_eq() {
    let deposit = Deposit::new(
        Address::new("0x123".to_string()),
        TimeMs::new(1000),
        Decimal::from_str_canonical("100").unwrap(),
        None,
    );
    let deposit2 = deposit.clone();
    assert_eq!(deposit, deposit2);
}

#[test]
fn event_key_hash_is_the_truncated_digest_of_the_encoding() {
    let key = Deposit::compute_event_key(
        &Address::new("0xabc".to_string()),
        TimeMs::new(1000),
        &Decimal::from_str("-12.50").unwrap(),
        None,
    );
    let mut bytes = Vec::new();
    bytes.extend_from_slice(&5u32.to_le_bytes());
    bytes.extend_from_slice(b"0xabc");
    bytes.extend_from_slice(&1000i64.to_le_bytes());
    bytes.extend_from_slice(&5u32.to_le_bytes());
    bytes.extend_from_slice(b"-12.5");
    let digest = sha2::Sha256::digest(&bytes);
    assert_eq!(key, format!("hash:{}", hex::encode(&digest[..16])));
    assert_eq!(key.len(), 5 + 32);
}

#[test]
fn event_key_ignores_a_blank_tx_hash() {
    let user = Address::new("0xabc".to_string());
    let amount = Decimal::from_str("1").unwrap();
    let hashed = Deposit::compute_event_key(&user, TimeMs::new(1), &amount, None);
    assert_eq!(
        Deposit::compute_event_key(&user, TimeMs::new(1), &amount, Some("   ")),
        hashed
    );
    assert_eq!(
        Deposit::compute_event_key(&user, TimeMs::new(1), &amount, Some("")),
        hashed
    );
    assert_eq!(
        Deposit::compute_event_key(&user, TimeMs::new(1), &amount, Some("  0xAB  ")),
        "0xab"
    );
    let blank = Deposit::new(user, TimeMs::new(1), amount, Some(" \t".to_string()));
    assert_eq!(blank.tx_hash, None);
    assert_eq!(blank.event_key, hashed);
}

#[test]
fn normalize_tx_hash_trims_and_lowers() {
    assert_eq!(
        normalize_tx_hash(Some("  0xABCdef ".to_string())),
        Some("0xabcdef".to_string())
    );
    assert_eq!(normalize_tx_hash(Some("   ".to_string())), None);
    assert_eq!(normalize_tx_hash(Some(String::new())), None);
    assert_eq!(normalize_tx_hash(None), None);
}

#[test]
fn event_key_differs_with_user_time_and_amount() {
    let key = |user: &str, t: i64, amount: &str| {
        Deposit::compute_event_key(
            &Address::new(user.to_string()),
            TimeMs::new(t),
            &Decimal::from_str(amount).unwrap(),
            None,
        )
    };
    let base = key("0xabc", 1000, "1");
    assert_eq!(base, key("0xabc", 1000, "1.0"));
    assert_ne!(base, key("0xabd", 1000, "1"));
    assert_ne!(base, key("0xabc", 1001, "1"));
    assert_ne!(base, key("0xabc", 1000, "-1"));
}
