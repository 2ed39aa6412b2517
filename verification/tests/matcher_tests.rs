use hypesilico::domain::BuilderLogFill;
use hypesilico::engine::{BuilderLogsIndex, MatchTolerances};
use hypesilico::{Address, AttributionConfidence, Coin, Decimal, Fill, Side, TimeMs};
use std::str::FromStr;
fn fill(
    time_ms: i64,
    tid: Option<i64>,
    px: &str,
    sz: &str,
    side: Side,
) -> Fill {
    Fill::new(
        TimeMs::new(time_ms),
        Address::new("0xabc".to_string()),
        Coin::new("BTC".to_string()),
        side,
        Decimal::from_str(px).unwrap(),
        Decimal::from_str(sz).unwrap(),
        Decimal::from_str("0").unwrap(),
        Decimal::from_str("0").unwrap(),
        None,
        tid,
        None,
    )
}

fn log(time_ms: i64, tid: Option<i64>, px: &str, sz: &str, side: Side) -> BuilderLogFill {
    BuilderLogFill {
        time_ms: TimeMs::new(time_ms),
        user: Address::new("0xAbC".to_string()),
        coin: Coin::new("btc".to_string()),
        side,
        px: Decimal::from_str(px).unwrap(),
        sz: Decimal::from_str(sz).unwrap(),
        tid,
        oid: None,
    }
}

#[test]
fn exact_match_on_tid() {
    let logs = vec![log(1000, Some(42), "100", "1", Side::Buy)];
    let index = BuilderLogsIndex::new(&logs);
    let fill = fill(999, Some(42), "999", "9", Side::Sell);

    assert_eq!(
        index.match_fill(&fill, &MatchTolerances::default()),
        Some(AttributionConfidence::Exact)
    );
}

#[test]
fn fuzzy_match_with_tolerances() {
    let logs = vec![log(1000, Some(1), "100.0000005", "1.0000005", Side::Buy)];
    let index = BuilderLogsIndex::new(&logs);
    let fill = fill(1500, Some(999), "100.0000004", "1.0000004", Side::Buy);

    let tolerances = MatchTolerances {
        time_ms: 1_000,
        px_abs: Decimal::from_str("0.000001").unwrap(),
        sz_abs: Decimal::from_str("0.000001").unwrap(),
    };
    assert_eq!(
        index.match_fill(&fill, &tolerances),
        Some(AttributionConfidence::Fuzzy)
    );
}

#[test]
fn no_match_returns_none() {
    let logs = vec![log(1000, Some(1), "100", "1", Side::Buy)];
    let index = BuilderLogsIndex::new(&logs);
    let fill = fill(9999, Some(2), "100", "1", Side::Buy);
    assert_eq!(index.match_fill(&fill, &MatchTolerances::default()), None);
}

#[test]
fn fuzzy_match_is_bounded_by_each_tolerance() {
    let logs = vec![log(1000, None, "100", "1", Side::Buy)];
    let index = BuilderLogsIndex::new(&logs);
    let t = MatchTolerances::default();
    assert_eq!(t.time_ms, 1000);
    assert_eq!(t.px_abs, Decimal::from_str("0.000001").unwrap());
    assert_eq!(t.sz_abs, Decimal::from_str("0.000001").unwrap());
    let fuzzy = Some(AttributionConfidence::Fuzzy);
    // time: the bound itself still matches, one more does not
    assert_eq!(index.match_fill(&fill(2000, None, "100", "1", Side::Buy), &t), fuzzy);
    assert_eq!(index.match_fill(&fill(0, None, "100", "1", Side::Buy), &t), fuzzy);
    assert_eq!(index.match_fill(&fill(2001, None, "100", "1", Side::Buy), &t), None);
    assert_eq!(index.match_fill(&fill(-1, None, "100", "1", Side::Buy), &t), None);
    // price
    assert_eq!(index.match_fill(&fill(1000, None, "100.000001", "1", Side::Buy), &t), fuzzy);
    assert_eq!(index.match_fill(&fill(1000, None, "99.999999", "1", Side::Buy), &t), fuzzy);
    assert_eq!(index.match_fill(&fill(1000, None, "100.0000011", "1", Side::Buy), &t), None);
    // size
    assert_eq!(index.match_fill(&fill(1000, None, "100", "1.000001", Side::Buy), &t), fuzzy);
    assert_eq!(index.match_fill(&fill(1000, None, "100", "0.9999989", Side::Buy), &t), None);
    // side
    assert_eq!(index.match_fill(&fill(1000, None, "100", "1", Side::Sell), &t), None);
}

#[test]
fn fuzzy_match_compares_account_and_coin_without_case() {
    let logs = vec![log(1000, None, "100", "1", Side::Buy)];
    let index = BuilderLogsIndex::new(&logs);
    let t = MatchTolerances::default();
    let mut f = fill(1000, None, "100", "1", Side::Buy);
    f.user = Address::new("0XABC".to_string());
    f.coin = Coin::new("bTc".to_string());
    assert_eq!(index.match_fill(&f, &t), Some(AttributionConfidence::Fuzzy));
    f.coin = Coin::new("ETH".to_string());
    assert_eq!(index.match_fill(&f, &t), None);
    f.coin = Coin::new("BTC".to_string());
    f.user = Address::new("0xabd".to_string());
    assert_eq!(index.match_fill(&f, &t), None);
}

#[test]
fn exact_match_needs_the_trade_id_in_the_logs() {
    let logs = vec![
        log(1000, None, "100", "1", Side::Buy),
        log(5000, Some(7), "1", "1", Side::Sell),
    ];
    let index = BuilderLogsIndex::new(&logs);
    let t = MatchTolerances::default();
    assert_eq!(
        index.match_fill(&fill(1, Some(7), "9", "9", Side::Buy), &t),
        Some(AttributionConfidence::Exact)
    );
    assert_eq!(index.match_fill(&fill(1, Some(8), "9", "9", Side::Buy), &t), None);
    assert_eq!(index.match_fill(&fill(1, None, "9", "9", Side::Buy), &t), None);
    let none: Vec<BuilderLogFill> = vec![];
    let empty = BuilderLogsIndex::new(&none);
    assert_eq!(empty.match_fill(&fill(1000, Some(7), "100", "1", Side::Buy), &t), None);
}

#[test]
fn fuzzy_match_folds_ascii_letters_only() {
    let t = MatchTolerances::default();
    let mut row = log(1000, None, "100", "1", Side::Buy);
    row.user = Address::new("0xAZaz09\u{c9}".to_string());
    row.coin = Coin::new("k\u{e9}Pe-1z".to_string());
    let logs = vec![row];
    let index = BuilderLogsIndex::new(&logs);
    let mut f = fill(1000, None, "100", "1", Side::Buy);
    f.user = Address::new("0XazAZ09\u{c9}".to_string());
    f.coin = Coin::new("K\u{e9}pE-1Z".to_string());
    assert_eq!(index.match_fill(&f, &t), Some(AttributionConfidence::Fuzzy));
    f.coin = Coin::new("K\u{c9}PE-1Z".to_string());
    assert_eq!(index.match_fill(&f, &t), None);
    f.coin = Coin::new("K\u{e9}pE-1Z".to_string());
    f.user = Address::new("0xazaz09\u{e9}".to_string());
    assert_eq!(index.match_fill(&f, &t), None);
    f.user = Address::new("0xazaz09\u{c9}".to_string());
    f.coin = Coin::new("k\u{e9}pe-1z ".to_string());
    assert_eq!(index.match_fill(&f, &t), None);
}
