use hypesilico::datasource::{parse_deposit, parse_fill, DepositRecord, FillRecord};
use hypesilico::{Address, Coin, DataSourceError, Decimal, Side, TimeMs};

#[test]
fn test_datasource_error_display() {
    let err = DataSourceError::NetworkError("connection timeout".to_string());
    assert_eq!(err.to_string(), "Network error: connection timeout");

    let err = DataSourceError::HttpError {
        status: 429,
        message: "Too many requests".to_string(),
    };
    assert_eq!(err.to_string(), "HTTP error 429: Too many requests");

    let err = DataSourceError::ParseError("invalid JSON".to_string());
    assert_eq!(err.to_string(), "Parse error: invalid JSON");

    let err = DataSourceError::RateLimited;
    assert_eq!(err.to_string(), "Rate limited");
}

fn record() -> FillRecord {
    FillRecord {
        time: Some(1000),
        side: Some("A".to_string()),
        px: Some("50000".to_string()),
        sz: Some("1".to_string()),
        fee: Some("10".to_string()),
        closed_pnl: Some("0".to_string()),
        tid: Some(123),
        oid: Some(456),
        builder_fee: None,
    }
}

#[test]
fn test_parse_fill_valid() {
    let fill = parse_fill(&record(), "0x123", "BTC").unwrap();
    assert_eq!(fill.user, Address::new("0x123".to_string()));
    assert_eq!(fill.coin, Coin::new("BTC".to_string()));
    assert_eq!(fill.time_ms, TimeMs::new(1000));
    assert_eq!(fill.side, Side::Buy);
    assert_eq!(fill.tid, Some(123));
    assert_eq!(fill.oid, Some(456));
}

#[test]
fn test_parse_deposit_valid() {
    let deposit = parse_deposit(
        &DepositRecord {
            time: Some(1000),
            amount: Some("1000".to_string()),
            coin: Some("USDC".to_string()),
            tx_hash: None,
        },
        "0x123",
    )
    .unwrap();
    assert_eq!(deposit.user, Address::new("0x123".to_string()));
    assert_eq!(deposit.time_ms, TimeMs::new(1000));
    assert_eq!(deposit.amount, Decimal::from_str_canonical("1000").unwrap());
}

#[test]
fn datasource_error_other_and_clone() {
    let err = DataSourceError::Other("boom".to_string());
    assert_eq!(err.message(), "Error: boom");
    assert_eq!(err.clone().message(), "Error: boom");
    let err = DataSourceError::HttpError {
        status: 0,
        message: String::new(),
    };
    assert_eq!(err.clone().to_string(), "HTTP error 0: ");
}

#[test]
fn parse_fill_reads_every_field() {
    let mut r = record();
    r.side = Some("B".to_string());
    r.px = Some("0.5000".to_string());
    r.fee = Some("-1".to_string());
    r.closed_pnl = Some("12.5".to_string());
    r.builder_fee = Some("0.01".to_string());
    r.tid = None;
    r.oid = None;
    let fill = parse_fill(&r, "0xabc", "ETH").unwrap();
    assert_eq!(fill.side, Side::Sell);
    assert_eq!(fill.px.to_canonical_string(), "0.5");
    assert_eq!(fill.sz.to_canonical_string(), "1");
    assert_eq!(fill.fee.to_canonical_string(), "-1");
    assert_eq!(fill.closed_pnl.to_canonical_string(), "12.5");
    assert_eq!(
        fill.builder_fee,
        Some(Decimal::from_str_canonical("0.01").unwrap())
    );
    assert_eq!((fill.tid, fill.oid), (None, None));
    assert!(fill.fill_key.starts_with("hash:"));
    assert!(fill.attribution.is_none());
    // a builder fee that is no decimal counts as absent
    r.builder_fee = Some("n/a".to_string());
    assert_eq!(parse_fill(&r, "0xabc", "ETH").unwrap().builder_fee, None);
}

fn parse_error(r: &FillRecord) -> String {
    match parse_fill(r, "0x1", "BTC") {
        Err(DataSourceError::ParseError(m)) => m,
        other => panic!("expected a parse error, got {:?}", other),
    }
}

#[test]
fn parse_fill_names_what_is_missing_or_invalid() {
    let mut r = record();
    r.time = None;
    assert_eq!(parse_error(&r), "Missing time field");
    let mut r = record();
    r.side = None;
    assert_eq!(parse_error(&r), "Missing side field");
    let mut r = record();
    r.side = Some("a".to_string());
    assert_eq!(parse_error(&r), "Invalid side: a");
    let mut r = record();
    r.px = None;
    assert_eq!(parse_error(&r), "Missing px field");
    let mut r = record();
    r.sz = Some("x".to_string());
    assert!(parse_error(&r).starts_with("Invalid sz: "));
    let mut r = record();
    r.fee = None;
    assert_eq!(parse_error(&r), "Missing fee field");
    let mut r = record();
    r.closed_pnl = Some(String::new());
    assert!(parse_error(&r).starts_with("Invalid closedPnl: "));
}

#[test]
fn parse_deposit_needs_time_amount_and_coin() {
    let good = DepositRecord {
        time: Some(5),
        amount: Some("-2.50".to_string()),
        coin: Some("USDC".to_string()),
        tx_hash: Some(" 0xAB ".to_string()),
    };
    let deposit = parse_deposit(&good, "0x1").unwrap();
    assert_eq!(deposit.amount.to_canonical_string(), "-2.5");
    assert_eq!(deposit.tx_hash.as_deref(), Some("0xab"));
    assert_eq!(deposit.event_key, "0xab");
    let err = |r: DepositRecord| match parse_deposit(&r, "0x1") {
        Err(DataSourceError::ParseError(m)) => m,
        other => panic!("expected a parse error, got {:?}", other),
    };
    assert_eq!(
        err(DepositRecord {
            time: None,
            amount: Some("1".to_string()),
            coin: Some("USDC".to_string()),
            tx_hash: None
        }),
        "Missing time field"
    );
    assert_eq!(
        err(DepositRecord {
            time: Some(1),
            amount: None,
            coin: Some("USDC".to_string()),
            tx_hash: None
        }),
        "Missing amount field"
    );
    assert!(err(DepositRecord {
        time: Some(1),
        amount: Some("one".to_string()),
        coin: Some("USDC".to_string()),
        tx_hash: None
    })
    .starts_with("Invalid amount: "));
    assert_eq!(
        err(DepositRecord {
            time: Some(1),
            amount: Some("1".to_string()),
            coin: None,
            tx_hash: None
        }),
        "Missing coin field"
    );
}
