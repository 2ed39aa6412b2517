use hypesilico::engine::equity::{EquityPlan, ResolvedEquity};
use hypesilico::engine::EquityResolver;
use hypesilico::orchestration::ensure::{
    coin_filter, compute_fetch_start, current_fetch_window, fetch_window, ingestion_result,
};
use hypesilico::orchestration::orchestrator::coins_to_compile;
use hypesilico::{Coin, Decimal, TimeMs};

fn d(s: &str) -> Decimal {
    Decimal::from_str_canonical(s).unwrap()
}

#[test]
fn scenario_equity_resolver_caching() {
    // the store of one account: snapshots by time
    let mut store: Vec<(TimeMs, Decimal)> = vec![];
    let at = TimeMs::new(5000);
    let stored_at_or_before = |store: &Vec<(TimeMs, Decimal)>, at: TimeMs| {
        store.iter().filter(|(t, _)| *t <= at).max_by_key(|(t, _)| *t).copied()
    };

    // first call: nothing stored, the equity is derived and stored
    let first = EquityResolver::resolve_equity(
        at,
        stored_at_or_before(&store, at),
        d("10000"),
        d("250.5"),
    )
    .unwrap();
    assert_eq!(first.equity.to_canonical_string(), "10250.5");
    assert_eq!(first.store, Some((at, d("10250.5"))));
    store.push(first.store.unwrap());

    // second call: the snapshot answers, nothing is stored
    let second = EquityResolver::resolve_equity(
        at,
        stored_at_or_before(&store, at),
        d("10000"),
        d("250.5"),
    )
    .unwrap();
    assert_eq!(
        second,
        ResolvedEquity {
            equity: d("10250.5"),
            store: None
        }
    );

    // a later deposit changes the sums, the cached equity stays
    let third = EquityResolver::resolve_equity(
        at,
        stored_at_or_before(&store, at),
        d("99999"),
        d("250.5"),
    )
    .unwrap();
    assert_eq!(third.equity, first.equity);
    assert_eq!(third.store, None);
}

#[test]
fn equity_plan_and_derivation() {
    assert_eq!(EquityResolver::plan(None), EquityPlan::Derive);
    assert_eq!(
        EquityResolver::plan(Some((TimeMs::new(1), d("7")))),
        EquityPlan::UseSnapshot(d("7"))
    );
    assert_eq!(
        EquityResolver::derive_equity(d("100.25"), d("-0.25")).unwrap().to_canonical_string(),
        "100"
    );
    let max = d("79228162514264337593543950335");
    assert_eq!(EquityResolver::derive_equity(max, d("1")), None);
    assert_eq!(
        EquityResolver::resolve_equity(TimeMs::new(1), None, max, d("1")),
        None
    );
}

#[test]
fn fetch_window_applies_the_lookback() {
    assert_eq!(compute_fetch_start(Some(TimeMs::new(1000)), 100).as_ms(), 900);
    assert_eq!(compute_fetch_start(Some(TimeMs::new(1000)), 1000).as_ms(), 0);
    assert_eq!(compute_fetch_start(Some(TimeMs::new(1000)), 1001).as_ms(), 0);
    assert_eq!(compute_fetch_start(None, 86_400_000).as_ms(), 0);
    assert_eq!(compute_fetch_start(None, 0).as_ms(), 0);
    assert_eq!(compute_fetch_start(Some(TimeMs::new(-5)), 0).as_ms(), 0);
    assert_eq!(compute_fetch_start(Some(TimeMs::new(10)), -5).as_ms(), 15);
    assert_eq!(
        compute_fetch_start(Some(TimeMs::new(i64::MAX)), i64::MIN).as_ms(),
        i64::MAX
    );
    assert_eq!(
        compute_fetch_start(Some(TimeMs::new(i64::MIN)), i64::MAX).as_ms(),
        0
    );
    let w = fetch_window(
        Some(TimeMs::new(1000)),
        Some(TimeMs::new(2000)),
        TimeMs::new(9999),
        100,
    );
    assert_eq!(w, (TimeMs::new(900), TimeMs::new(2000)));
    let w = fetch_window(None, None, TimeMs::new(9999), 100);
    assert_eq!(w, (TimeMs::new(0), TimeMs::new(9999)));
    let w2 = current_fetch_window(Some(TimeMs::new(1000)), Some(TimeMs::new(2000)), 100);
    assert_eq!(w2, (TimeMs::new(900), TimeMs::new(2000)));
    let w3 = current_fetch_window(None, None, 100);
    assert_eq!(w3.0, TimeMs::new(0));
    assert!(w3.1.as_ms() > 1_600_000_000_000);
    let r = ingestion_result(3, 2, w);
    assert_eq!(
        (r.fills_fetched, r.fills_new, r.fetch_from, r.fetch_to),
        (3, 2, TimeMs::new(0), TimeMs::new(9999))
    );
}

#[test]
fn coin_filter_and_coins_to_compile() {
    let btc = Coin::new("BTC".to_string());
    let eth = Coin::new("ETH".to_string());
    assert_eq!(coin_filter(Some(&btc)), "BTC");
    assert_eq!(coin_filter(None), "");
    assert_eq!(
        coins_to_compile(Some(&btc), vec![eth.clone()]),
        vec![btc.clone()]
    );
    assert_eq!(
        coins_to_compile(None, vec![eth.clone(), btc.clone()]),
        vec![eth, btc]
    );
    assert!(coins_to_compile(None, vec![]).is_empty());
}
