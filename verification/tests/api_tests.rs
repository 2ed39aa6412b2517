use hypesilico::api::deposits::{deposits_response, DepositDto};
use hypesilico::api::leaderboard::{
    compute_user_metric, count_distinct_fills, filter_effects_builder_only,
    parse_leaderboard_users, rank_users, LeaderboardEntry, LeaderboardMetric, UserMetric,
};
use hypesilico::api::pnl::{
    capital, exclude_tainted, parse_user_address, return_pct, summarize_pnl, taint_flag,
    PnlResponse,
};
use hypesilico::api::positions::{positions_history, PositionSnapshotDto};
use hypesilico::api::trades::{find_attribution, trades_response, TradeDto};
use hypesilico::api::{
    count_i64, parse_coin_param, parse_max_start_capital, parse_user, validate_window,
};
use hypesilico::compile::incremental::AttributionRow;
use hypesilico::compile::Compiler;
use hypesilico::config::PnlMode;
use hypesilico::db::{
    chunk_bounds, sorted_distinct_ids, LeaderboardFillEffect, PnlFillEffect, PositionSnapshotRow,
};
use hypesilico::engine::equity::EquityResolver;
use hypesilico::{Address, AppError, Coin, Decimal, Deposit, Fill, Side, TimeMs};
use std::str::FromStr;

fn d(s: &str) -> Decimal {
    Decimal::from_str_canonical(s).unwrap()
}

#[test]
fn parse_metric_accepts_camel_case_return_pct() {
    assert_eq!(
        LeaderboardMetric::from_str("returnPct").unwrap(),
        LeaderboardMetric::ReturnPct
    );
    assert!(LeaderboardMetric::from_str("nope").is_err());
}

#[test]
fn parse_leaderboard_users_sorts_and_dedups() {
    let users = vec![
        " 0x0000000000000000000000000000000000000002 ".to_string(),
        "0x0000000000000000000000000000000000000001".to_string(),
        "0x0000000000000000000000000000000000000002".to_string(),
    ];
    let parsed = parse_leaderboard_users(&users).unwrap();
    assert_eq!(parsed.len(), 2);
    assert_eq!(parsed[0].as_str(), "0x0000000000000000000000000000000000000001");
    assert_eq!(parsed[1].as_str(), "0x0000000000000000000000000000000000000002");
}

#[test]
fn parse_leaderboard_users_rejects_what_is_no_address() {
    let users = vec![
        "0x0000000000000000000000000000000000000002".to_string(),
        "0x123".to_string(),
    ];
    match parse_leaderboard_users(&users) {
        Err(AppError::Internal(m)) => {
            assert_eq!(m, "Invalid leaderboard user address in config")
        }
        other => panic!("expected an internal error, got {:?}", other),
    }
    assert!(parse_leaderboard_users(&vec!["  ".to_string(), String::new()])
        .unwrap()
        .is_empty());
    // addresses that differ in case are different texts
    let users = vec![
        "0x000000000000000000000000000000000000000b".to_string(),
        "0x000000000000000000000000000000000000000B".to_string(),
        "0x000000000000000000000000000000000000000a".to_string(),
    ];
    let parsed = parse_leaderboard_users(&users).unwrap();
    let texts: Vec<&str> = parsed.iter().map(|a| a.as_str()).collect();
    assert_eq!(
        texts,
        vec![
            "0x000000000000000000000000000000000000000B",
            "0x000000000000000000000000000000000000000a",
            "0x000000000000000000000000000000000000000b",
        ]
    );
}

#[test]
fn metric_of_a_query() {
    assert_eq!(LeaderboardMetric::parse(" VOLUME "), Some(LeaderboardMetric::Volume));
    assert_eq!(LeaderboardMetric::parse("pnl"), Some(LeaderboardMetric::Pnl));
    assert_eq!(LeaderboardMetric::parse("ReturnPCT"), Some(LeaderboardMetric::ReturnPct));
    assert_eq!(LeaderboardMetric::parse("return_pct"), None);
    assert_eq!(LeaderboardMetric::parse(""), None);
    assert_eq!(
        LeaderboardMetric::of_query(Some("pnl")).unwrap(),
        LeaderboardMetric::Pnl
    );
    match LeaderboardMetric::of_query(None) {
        Err(AppError::BadRequest(m)) => assert_eq!(m, "metric is required"),
        other => panic!("expected a bad request, got {:?}", other),
    }
    match LeaderboardMetric::of_query(Some("sharpe")) {
        Err(AppError::BadRequest(m)) => {
            assert_eq!(m, "metric must be one of: volume, pnl, returnPct")
        }
        other => panic!("expected a bad request, got {:?}", other),
    }
}

#[test]
fn window_must_be_in_order() {
    assert_eq!(
        validate_window(Some(1), Some(2)).unwrap(),
        (Some(TimeMs::new(1)), Some(TimeMs::new(2)))
    );
    assert_eq!(
        validate_window(Some(2), Some(2)).unwrap(),
        (Some(TimeMs::new(2)), Some(TimeMs::new(2)))
    );
    assert_eq!(validate_window(None, Some(2)).unwrap(), (None, Some(TimeMs::new(2))));
    assert_eq!(validate_window(Some(9), None).unwrap(), (Some(TimeMs::new(9)), None));
    assert_eq!(validate_window(None, None).unwrap(), (None, None));
    match validate_window(Some(3), Some(2)) {
        Err(e @ AppError::BadRequest(_)) => {
            assert_eq!(e.detail(), "fromMs must be <= toMs");
            assert_eq!(e.status_code(), 400);
            assert_eq!(e.message(), "Bad request: fromMs must be <= toMs");
        }
        other => panic!("expected a bad request, got {:?}", other),
    }
}

#[test]
fn app_error_status_codes() {
    assert_eq!(AppError::Config("c".into()).status_code(), 500);
    assert_eq!(AppError::Internal("i".into()).status_code(), 500);
    assert_eq!(AppError::NotFound("n".into()).status_code(), 404);
    assert_eq!(AppError::BadRequest("b".into()).status_code(), 400);
    assert_eq!(AppError::Config("c".into()).message(), "Configuration error: c");
    assert_eq!(AppError::Internal("i".into()).message(), "Internal server error: i");
    assert_eq!(AppError::NotFound("n".into()).message(), "Not found: n");
    assert_eq!(AppError::internal("x").detail(), "x");
    assert_eq!(AppError::bad_request("y").detail(), "y");
}

#[test]
fn query_parameters() {
    assert!(parse_user("0x0000000000000000000000000000000000000001").is_ok());
    match parse_user("0x1") {
        Err(AppError::BadRequest(m)) => assert_eq!(m, "Invalid user address"),
        other => panic!("expected a bad request, got {:?}", other),
    }
    assert_eq!(parse_coin_param(Some(" BTC ")), Some(Coin::new("BTC".to_string())));
    assert_eq!(parse_coin_param(Some("  ")), None);
    assert_eq!(parse_coin_param(Some("")), None);
    assert_eq!(parse_coin_param(None), None);
    assert_eq!(parse_max_start_capital(None).unwrap(), None);
    assert_eq!(parse_max_start_capital(Some("1000.50")).unwrap(), Some(d("1000.5")));
    match parse_max_start_capital(Some("lots")) {
        Err(AppError::BadRequest(m)) => assert_eq!(m, "Invalid maxStartCapital"),
        other => panic!("expected a bad request, got {:?}", other),
    }
    assert_eq!(count_i64(0), 0);
    assert_eq!(count_i64(12345), 12345);
    assert_eq!(
        parse_user_address("0x00000000000000000000000000000000000000Ab").unwrap().as_str(),
        "0x00000000000000000000000000000000000000Ab"
    );
    for bad in [
        "0x",
        "",
        "abc",
        "invalid",
        "0x123",
        "0xabc",
        "0xA",
        "0Xabc",
        "0xabg",
        "1xabc",
        "0xab c",
        "0x000000000000000000000000000000000000000g",
        "1x0000000000000000000000000000000000000001",
        "0x00000000000000000000000000000000000000011",
    ] {
        match parse_user_address(bad) {
            Err(AppError::BadRequest(m)) => assert_eq!(m, "Invalid user address"),
            other => panic!("expected a bad request for {:?}, got {:?}", bad, other),
        }
    }
    for bad in ["0xzzzzzzzzzzzzzzzzzzzzzzzzzzzzzzzzzzzzzzzz", "0x123", ""] {
        match parse_user(bad) {
            Err(AppError::BadRequest(m)) => assert_eq!(m, "Invalid user address"),
            other => panic!("expected a bad request for {:?}, got {:?}", bad, other),
        }
    }
}

fn pnl_effect(lifecycle_id: i64, fee: &str, closed_pnl: &str) -> PnlFillEffect {
    PnlFillEffect {
        lifecycle_id,
        fee: d(fee),
        closed_pnl: d(closed_pnl),
    }
}

#[test]
fn scenario_simple_open_close_pnl() {
    // one deposit of 10000 at time 0, a buy and a sell with a fee of 5 each
    let equity = EquityResolver::resolve_equity(TimeMs::new(0), None, d("10000"), d("0"))
        .unwrap()
        .equity;
    let effects = vec![pnl_effect(1, "5", "0"), pnl_effect(1, "5", "1000")];
    let response = summarize_pnl(&effects, PnlMode::Gross, equity, None, None).unwrap();
    assert_eq!(
        response,
        PnlResponse {
            realized_pnl: "1000".to_string(),
            return_pct: "10".to_string(),
            fees_paid: "10".to_string(),
            trade_count: 2,
            tainted: None,
        }
    );
    let net = summarize_pnl(&effects, PnlMode::Net, equity, None, Some(false)).unwrap();
    assert_eq!(net.realized_pnl, "990");
    assert_eq!(net.return_pct, "9.9");
    assert_eq!(net.fees_paid, "10");
    assert_eq!(net.tainted, Some(false));
}

#[test]
fn pnl_return_goes_by_the_capped_capital() {
    let effects = vec![pnl_effect(1, "1", "50")];
    let r = summarize_pnl(&effects, PnlMode::Gross, d("1000"), Some(d("200")), None).unwrap();
    assert_eq!(r.return_pct, "25");
    let r = summarize_pnl(&effects, PnlMode::Gross, d("100"), Some(d("200")), None).unwrap();
    assert_eq!(r.return_pct, "50");
    let r = summarize_pnl(&effects, PnlMode::Gross, d("200"), Some(d("200.0")), None).unwrap();
    assert_eq!(r.return_pct, "25");
    let r = summarize_pnl(&effects, PnlMode::Gross, d("0"), None, None).unwrap();
    assert_eq!(r.return_pct, "0");
    let r = summarize_pnl(&effects, PnlMode::Gross, d("1000"), Some(d("0")), None).unwrap();
    assert_eq!(r.return_pct, "0");
    let r = summarize_pnl(&effects, PnlMode::Gross, d("-100"), None, None).unwrap();
    assert_eq!(r.return_pct, "-50");
    let r = summarize_pnl(&vec![], PnlMode::Net, d("1000"), None, None).unwrap();
    assert_eq!(
        (r.realized_pnl.as_str(), r.fees_paid.as_str(), r.return_pct.as_str(), r.trade_count),
        ("0", "0", "0", 0)
    );
    assert_eq!(capital(d("5"), Some(d("3"))), d("3"));
    assert_eq!(capital(d("5"), Some(d("7"))), d("5"));
    assert_eq!(capital(d("5"), None), d("5"));
    assert_eq!(return_pct(d("1"), d("3")).unwrap().to_canonical_string(), "33.33333333333333333333333333");
    assert_eq!(return_pct(d("1"), d("0")).unwrap(), d("0"));
}

#[test]
fn pnl_out_of_range_is_an_internal_error() {
    let max = "79228162514264337593543950335";
    let effects = vec![pnl_effect(1, "0", max), pnl_effect(1, "0", "1")];
    assert!(matches!(
        summarize_pnl(&effects, PnlMode::Gross, d("1"), None, None),
        Err(AppError::Internal(_))
    ));
    let effects = vec![pnl_effect(1, max, "0"), pnl_effect(1, "1", "0")];
    assert!(matches!(
        summarize_pnl(&effects, PnlMode::Gross, d("1"), None, None),
        Err(AppError::Internal(_))
    ));
    let effects = vec![pnl_effect(1, max, &format!("-{}", max))];
    assert!(summarize_pnl(&effects, PnlMode::Gross, d("0"), None, None).is_ok());
    assert!(matches!(
        summarize_pnl(&effects, PnlMode::Net, d("0"), None, None),
        Err(AppError::Internal(_))
    ));
    let effects = vec![pnl_effect(1, "0", max)];
    assert!(matches!(
        summarize_pnl(&effects, PnlMode::Gross, d("0.001"), None, None),
        Err(AppError::Internal(_))
    ));
}

#[test]
fn scenario_builder_only_pnl() {
    // lifecycle 1 is tainted, lifecycle 2 is clean
    let effects = vec![
        pnl_effect(1, "1", "0"),
        pnl_effect(1, "1", "100"),
        pnl_effect(2, "2", "0"),
        pnl_effect(2, "2", "300"),
    ];
    let (kept, excluded) = exclude_tainted(&effects, &vec![1]);
    assert_eq!(kept, effects[2..].to_vec());
    assert!(excluded);
    let r = summarize_pnl(&kept, PnlMode::Gross, d("1000"), None, Some(excluded)).unwrap();
    assert_eq!(
        r,
        PnlResponse {
            realized_pnl: "300".to_string(),
            return_pct: "30".to_string(),
            fees_paid: "4".to_string(),
            trade_count: 2,
            tainted: Some(true),
        }
    );
    let (kept, excluded) = exclude_tainted(&effects, &vec![]);
    assert_eq!(kept, effects);
    assert!(!excluded);
    let (kept, excluded) = exclude_tainted(&effects, &vec![7, 2, 1]);
    assert!(kept.is_empty() && excluded);
    let (kept, excluded) = exclude_tainted(&vec![], &vec![1]);
    assert!(kept.is_empty() && !excluded);
}

fn board_effect(key: &str, lifecycle_id: i64, notional: &str, fee: &str, pnl: &str) -> LeaderboardFillEffect {
    LeaderboardFillEffect {
        fill_key: key.to_string(),
        lifecycle_id,
        notional: d(notional),
        fee: d(fee),
        closed_pnl: d(pnl),
    }
}

fn address(last: &str) -> Address {
    Address::new(format!("0x00000000000000000000000000000000000000{}", last))
}

#[test]
fn scenario_leaderboard_tie_breakers() {
    // three users with a metric of 100: user1 has one fill, user2 and user3 two
    let one = vec![board_effect("a", 1, "100", "0", "0")];
    let two = vec![
        board_effect("a", 1, "40", "0", "0"),
        board_effect("b", 1, "60", "0", "0"),
    ];
    let metric = |user: Address, effects: &Vec<LeaderboardFillEffect>| {
        compute_user_metric(
            user,
            effects,
            false,
            LeaderboardMetric::Volume,
            PnlMode::Gross,
            d("0"),
            None,
        )
        .unwrap()
    };
    let metrics = vec![
        metric(address("03"), &one),
        metric(address("02"), &two),
        metric(address("01"), &two),
    ];
    let board = rank_users(metrics, false);
    assert_eq!(
        board,
        vec![
            LeaderboardEntry {
                rank: 1,
                user: address("01").to_string(),
                metric_value: "100".to_string(),
                trade_count: 2,
                tainted: None,
            },
            LeaderboardEntry {
                rank: 2,
                user: address("02").to_string(),
                metric_value: "100".to_string(),
                trade_count: 2,
                tainted: None,
            },
            LeaderboardEntry {
                rank: 3,
                user: address("03").to_string(),
                metric_value: "100".to_string(),
                trade_count: 1,
                tainted: None,
            },
        ]
    );
}

fn user_metric(user: &str, value: &str, trade_count: i64, tainted: bool) -> UserMetric {
    UserMetric {
        user: Address::new(user.to_string()),
        metric_value: d(value),
        metric_value_str: d(value).to_canonical_string(),
        trade_count,
        tainted,
    }
}

#[test]
fn leaderboard_ranks_by_metric_then_count_then_address() {
    let board = rank_users(
        vec![
            user_metric("0xc", "-5", 9, false),
            user_metric("0xb", "10.0", 1, true),
            user_metric("0xa", "10", 1, false),
            user_metric("0xd", "10.00", 2, false),
            user_metric("0xe", "10.5", 0, true),
        ],
        true,
    );
    let got: Vec<(i64, &str, &str, i64, Option<bool>)> = board
        .iter()
        .map(|e| (e.rank, e.user.as_str(), e.metric_value.as_str(), e.trade_count, e.tainted))
        .collect();
    assert_eq!(
        got,
        vec![
            (1, "0xe", "10.5", 0, Some(true)),
            (2, "0xd", "10", 2, Some(false)),
            (3, "0xa", "10", 1, Some(false)),
            (4, "0xb", "10", 1, Some(true)),
            (5, "0xc", "-5", 9, Some(false)),
        ]
    );
    assert!(rank_users(vec![], true).is_empty());
}

#[test]
fn user_metric_for_each_metric() {
    let effects = vec![
        board_effect("a", 1, "100", "1", "0"),
        board_effect("b", 1, "150", "2", "30"),
        board_effect("b", 2, "50", "1", "0"),
    ];
    assert_eq!(count_distinct_fills(&effects), 2);
    assert_eq!(count_distinct_fills(&vec![]), 0);
    let value = |metric, mode, equity: &str, cap: Option<&str>| {
        compute_user_metric(
            Address::new("0xa".to_string()),
            &effects,
            true,
            metric,
            mode,
            d(equity),
            cap.map(d),
        )
        .unwrap()
    };
    let m = value(LeaderboardMetric::Volume, PnlMode::Net, "0", None);
    assert_eq!(m.metric_value_str, "300");
    assert_eq!(m.metric_value, d("300"));
    assert_eq!(m.trade_count, 2);
    assert!(m.tainted);
    assert_eq!(m.user.as_str(), "0xa");
    assert_eq!(value(LeaderboardMetric::Pnl, PnlMode::Gross, "0", None).metric_value_str, "30");
    assert_eq!(value(LeaderboardMetric::Pnl, PnlMode::Net, "0", None).metric_value_str, "26");
    assert_eq!(
        value(LeaderboardMetric::ReturnPct, PnlMode::Gross, "600", None).metric_value_str,
        "5"
    );
    assert_eq!(
        value(LeaderboardMetric::ReturnPct, PnlMode::Net, "600", Some("260")).metric_value_str,
        "10"
    );
    assert_eq!(
        value(LeaderboardMetric::ReturnPct, PnlMode::Gross, "0", Some("260")).metric_value_str,
        "0"
    );
    let max = "79228162514264337593543950335";
    let huge = vec![board_effect("a", 1, max, "0", "0"), board_effect("b", 1, "1", "0", "0")];
    assert!(matches!(
        compute_user_metric(
            Address::new("0xa".to_string()),
            &huge,
            false,
            LeaderboardMetric::Pnl,
            PnlMode::Gross,
            d("0"),
            None
        ),
        Err(AppError::Internal(_))
    ));
}

#[test]
fn leaderboard_builder_only_leaves_out_tainted_lifecycles() {
    let effects = vec![
        board_effect("a", 1, "100", "1", "0"),
        board_effect("b", 2, "150", "2", "30"),
        board_effect("c", 1, "50", "1", "0"),
    ];
    let (kept, excluded) = filter_effects_builder_only(
        vec![
            board_effect("a", 1, "100", "1", "0"),
            board_effect("b", 2, "150", "2", "30"),
            board_effect("c", 1, "50", "1", "0"),
        ],
        &vec![1],
    );
    assert_eq!(kept, vec![board_effect("b", 2, "150", "2", "30")]);
    assert!(excluded);
    let (kept, excluded) = filter_effects_builder_only(effects, &vec![3]);
    assert_eq!(kept.len(), 3);
    assert!(!excluded);
}

#[test]
fn ids_are_sorted_made_distinct_and_chunked() {
    assert_eq!(sorted_distinct_ids(vec![3, 1, 3, -2, 1, 3]), vec![-2, 1, 3]);
    assert_eq!(sorted_distinct_ids(vec![]), Vec::<i64>::new());
    assert_eq!(sorted_distinct_ids(vec![i64::MAX, i64::MIN]), vec![i64::MIN, i64::MAX]);
    assert_eq!(chunk_bounds(0), vec![]);
    assert_eq!(chunk_bounds(1), vec![(0, 1)]);
    assert_eq!(chunk_bounds(500), vec![(0, 500)]);
    assert_eq!(chunk_bounds(501), vec![(0, 500), (500, 501)]);
    assert_eq!(chunk_bounds(1200), vec![(0, 500), (500, 1000), (1000, 1200)]);
}

fn snapshot_row(time_ms: i64, seq: i32, coin: &str, lifecycle_id: i64, tainted: bool) -> PositionSnapshotRow {
    PositionSnapshotRow {
        time_ms: TimeMs::new(time_ms),
        seq,
        coin: Coin::new(coin.to_string()),
        net_size: "1".to_string(),
        avg_entry_px: "50000".to_string(),
        lifecycle_id,
        lifecycle_tainted: tainted,
    }
}

fn shown(dtos: &[PositionSnapshotDto]) -> Vec<(i64, String, String)> {
    dtos.iter()
        .map(|s| (s.time_ms, s.coin.clone(), s.lifecycle_id.clone()))
        .collect()
}

#[test]
fn positions_history_is_sorted_and_filtered() {
    let rows = || {
        vec![
            snapshot_row(2000, 1, "BTC", 2, false),
            snapshot_row(2000, 0, "ETH", 5, true),
            snapshot_row(2000, 0, "BTC", 1, false),
            snapshot_row(1000, 0, "ETH", 4, true),
            snapshot_row(2000, 0, "BTC", -1, false),
        ]
    };
    let all = positions_history(rows(), false);
    assert_eq!(all.tainted, None);
    assert_eq!(
        shown(&all.snapshots),
        vec![
            (1000, "ETH".to_string(), "4".to_string()),
            (2000, "BTC".to_string(), "-1".to_string()),
            (2000, "BTC".to_string(), "1".to_string()),
            (2000, "ETH".to_string(), "5".to_string()),
            (2000, "BTC".to_string(), "2".to_string()),
        ]
    );
    assert!(all.snapshots.iter().all(|s| s.tainted.is_none()));
    assert_eq!(all.snapshots[0].net_size, "1");
    assert_eq!(all.snapshots[0].avg_entry_px, "50000");
    let clean = positions_history(rows(), true);
    assert_eq!(clean.tainted, Some(true));
    assert_eq!(
        shown(&clean.snapshots),
        vec![
            (2000, "BTC".to_string(), "-1".to_string()),
            (2000, "BTC".to_string(), "1".to_string()),
            (2000, "BTC".to_string(), "2".to_string()),
        ]
    );
    assert!(clean.snapshots.iter().all(|s| s.tainted == Some(false)));
    let none = positions_history(vec![snapshot_row(1, 0, "BTC", 1, false)], true);
    assert_eq!(none.tainted, Some(false));
    assert_eq!(none.snapshots.len(), 1);
}

fn trade(time_ms: i64, tid: i64, side: Side) -> Fill {
    Fill::new(
        TimeMs::new(time_ms),
        Address::new("0xabc".to_string()),
        Coin::new("BTC".to_string()),
        side,
        d("100.50"),
        d("2"),
        d("0.10"),
        d("-1"),
        None,
        Some(tid),
        None,
    )
}

fn attribution_row(tid: i64, attributed: bool, mode: &str, builder: Option<&str>) -> AttributionRow {
    AttributionRow {
        fill_key: format!("0xabc:BTC:tid:{}", tid),
        attributed,
        mode: mode.to_string(),
        confidence: "exact".to_string(),
        builder: builder.map(|b| b.to_string()),
    }
}

#[test]
fn trades_are_sorted_and_show_the_builder_of_log_matches() {
    let fills = || vec![trade(2000, 3, Side::Sell), trade(1000, 2, Side::Buy), trade(1000, 1, Side::Buy)];
    let rows = vec![
        attribution_row(1, true, "logs", Some("0xb")),
        attribution_row(2, true, "heuristic", Some("0xb")),
        attribution_row(3, false, "logs", Some("0xb")),
    ];
    let all = trades_response(fills(), &rows, false);
    assert_eq!(all.tainted, None);
    assert_eq!(
        all.trades,
        vec![
            TradeDto {
                time_ms: 1000,
                coin: "BTC".to_string(),
                side: "buy".to_string(),
                px: "100.5".to_string(),
                sz: "2".to_string(),
                fee: "0.1".to_string(),
                closed_pnl: "-1".to_string(),
                builder: Some("0xb".to_string()),
            },
            TradeDto {
                time_ms: 1000,
                coin: "BTC".to_string(),
                side: "buy".to_string(),
                px: "100.5".to_string(),
                sz: "2".to_string(),
                fee: "0.1".to_string(),
                closed_pnl: "-1".to_string(),
                builder: None,
            },
            TradeDto {
                time_ms: 2000,
                coin: "BTC".to_string(),
                side: "sell".to_string(),
                px: "100.5".to_string(),
                sz: "2".to_string(),
                fee: "0.1".to_string(),
                closed_pnl: "-1".to_string(),
                builder: None,
            },
        ]
    );
    let only = trades_response(fills(), &rows, true);
    assert_eq!(only.tainted, Some(true));
    assert_eq!(only.trades, all.trades[..2].to_vec_dto());
    // without any attribution every fill is left out
    let none = trades_response(fills(), &vec![], true);
    assert_eq!(none.tainted, Some(true));
    assert!(none.trades.is_empty());
    let clean = trades_response(vec![trade(1, 1, Side::Buy)], &rows, true);
    assert_eq!(clean.tainted, Some(false));
    assert_eq!(clean.trades.len(), 1);
    assert_eq!(
        find_attribution(&rows, "0xabc:BTC:tid:3"),
        Some(Compiler::attribution_from_row(&rows[2]))
    );
    assert_eq!(find_attribution(&rows, "0xabc:BTC:tid:4"), None);
}

trait ToVecDto {
    fn to_vec_dto(&self) -> Vec<TradeDto>;
}

impl ToVecDto for [TradeDto] {
    fn to_vec_dto(&self) -> Vec<TradeDto> {
        self.iter()
            .map(|t| TradeDto {
                time_ms: t.time_ms,
                coin: t.coin.clone(),
                side: t.side.clone(),
                px: t.px.clone(),
                sz: t.sz.clone(),
                fee: t.fee.clone(),
                closed_pnl: t.closed_pnl.clone(),
                builder: t.builder.clone(),
            })
            .collect()
    }
}

#[test]
fn deposits_are_sorted_and_totalled() {
    let user = Address::new("0xabc".to_string());
    let deposits = vec![
        Deposit::new(user.clone(), TimeMs::new(2000), d("-50.5"), Some("0xBB".to_string())),
        Deposit::new(user.clone(), TimeMs::new(1000), d("100"), Some("0xcc".to_string())),
        Deposit::new(user.clone(), TimeMs::new(1000), d("0.50"), Some("0xAA".to_string())),
    ];
    let response = deposits_response(deposits).unwrap();
    assert_eq!(response.total_deposits, "50");
    assert_eq!(response.deposit_count, 3);
    assert_eq!(
        response.deposits,
        vec![
            DepositDto {
                time_ms: 1000,
                amount: "0.5".to_string(),
                tx_hash: Some("0xaa".to_string()),
            },
            DepositDto {
                time_ms: 1000,
                amount: "100".to_string(),
                tx_hash: Some("0xcc".to_string()),
            },
            DepositDto {
                time_ms: 2000,
                amount: "-50.5".to_string(),
                tx_hash: Some("0xbb".to_string()),
            },
        ]
    );
    let empty = deposits_response(vec![]).unwrap();
    assert_eq!(
        (empty.total_deposits.as_str(), empty.deposit_count, empty.deposits.len()),
        ("0", 0, 0)
    );
    let max = d("79228162514264337593543950335");
    let too_much = vec![
        Deposit::new(user.clone(), TimeMs::new(1), max, None),
        Deposit::new(user, TimeMs::new(2), d("1"), None),
    ];
    assert!(matches!(deposits_response(too_much), Err(AppError::Internal(_))));
}

#[test]
fn the_same_query_twice_gives_the_same_answer() {
    let fills = || vec![trade(2000, 3, Side::Sell), trade(1000, 2, Side::Buy), trade(1000, 1, Side::Buy)];
    let rows = vec![attribution_row(1, true, "logs", Some("0xb"))];
    assert_eq!(
        trades_response(fills(), &rows, true),
        trades_response(fills(), &rows, true)
    );
    let effects = vec![pnl_effect(1, "5", "0"), pnl_effect(1, "5", "1000")];
    assert_eq!(
        summarize_pnl(&effects, PnlMode::Net, d("10000"), None, None).unwrap(),
        summarize_pnl(&effects, PnlMode::Net, d("10000"), None, None).unwrap()
    );
    let snapshots = || vec![snapshot_row(2, 0, "ETH", 1, false), snapshot_row(1, 0, "BTC", 1, true)];
    assert_eq!(
        positions_history(snapshots(), true),
        positions_history(snapshots(), true)
    );
}

#[test]
fn the_taint_flag_is_set_for_builder_only_queries() {
    assert_eq!(taint_flag(false, false), None);
    assert_eq!(taint_flag(false, true), None);
    assert_eq!(taint_flag(true, false), Some(false));
    assert_eq!(taint_flag(true, true), Some(true));
}
