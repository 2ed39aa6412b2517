use hypesilico::api::risk::{risk_response, MarginRecord, PositionRecord};

fn margin(used: &str) -> MarginRecord {
    MarginRecord {
        account_value: Some("10000".to_string()),
        total_margin_used: Some(used.to_string()),
        total_ntl_pos: Some("5000".to_string()),
        total_raw_usd: Some("10000".to_string()),
        withdrawable: Some("9500".to_string()),
    }
}

fn position(coin: &str, szi: &str) -> PositionRecord {
    PositionRecord {
        coin: Some(coin.to_string()),
        szi: Some(szi.to_string()),
        entry_px: Some("50000".to_string()),
        position_value: Some("5000".to_string()),
        unrealized_pnl: Some("100".to_string()),
        liquidation_px: None,
        leverage: None,
        margin_used: Some("500".to_string()),
        max_leverage: None,
    }
}

#[test]
fn test_parse_user_state_empty() {
    let result = risk_response(Some(&margin("500")), &vec![]).unwrap();
    assert_eq!(result.positions.len(), 0);
    assert_eq!(result.cross_margin_summary.account_value, "10000");
    assert_eq!(result.cross_margin_summary.total_margin_used, "500");
}

#[test]
fn test_parse_user_state_with_position() {
    let mut btc = position("BTC", "0.1");
    btc.liquidation_px = Some("45000".to_string());
    btc.leverage = Some("10".to_string());
    let result = risk_response(Some(&margin("500")), &vec![Some(btc)]).unwrap();
    assert_eq!(result.positions.len(), 1);
    assert_eq!(result.positions[0].coin, "BTC");
    assert_eq!(result.positions[0].size, "0.1");
    assert_eq!(result.positions[0].liquidation_px, Some("45000".to_string()));
    assert_eq!(result.positions[0].leverage, Some("10".to_string()));
}

#[test]
fn test_parse_user_state_with_flat_leverage() {
    let mut eth = position("ETH", "1.5");
    eth.leverage = Some("5".to_string());
    let result = risk_response(Some(&margin("500")), &vec![Some(eth)]).unwrap();
    assert_eq!(result.positions.len(), 1);
    assert_eq!(result.positions[0].coin, "ETH");
    assert_eq!(result.positions[0].leverage, Some("5".to_string()));
}

#[test]
fn test_parse_user_state_skips_zero_positions() {
    let listed = vec![
        Some(position("BTC", "0")),
        Some(position("ETH", "0.0")),
        Some(position("SOL", "0.00")),
        Some(position("DOGE", "100")),
    ];
    let result = risk_response(Some(&margin("0")), &listed).unwrap();
    assert_eq!(result.positions.len(), 1);
    assert_eq!(result.positions[0].coin, "DOGE");
    assert_eq!(result.positions[0].size, "100");
}

#[test]
fn test_parse_user_state_missing_position_field() {
    let listed = vec![None, Some(position("BTC", "0.1"))];
    let result = risk_response(Some(&margin("500")), &listed).unwrap();
    assert_eq!(result.positions.len(), 1);
    assert_eq!(result.positions[0].coin, "BTC");
}

#[test]
fn risk_response_needs_the_margin_summary() {
    assert_eq!(
        risk_response(None, &vec![Some(position("BTC", "1"))]).unwrap_err(),
        "Missing marginSummary"
    );
}

#[test]
fn risk_response_fills_in_what_was_not_found() {
    let listed = vec![
        Some(PositionRecord {
            szi: Some("-2".to_string()),
            ..Default::default()
        }),
        Some(PositionRecord::default()),
        Some(position("BAD", "n/a")),
    ];
    let result = risk_response(Some(&MarginRecord::default()), &listed).unwrap();
    assert_eq!(result.cross_margin_summary.account_value, "0");
    assert_eq!(result.cross_margin_summary.total_margin_used, "0");
    assert_eq!(result.cross_margin_summary.total_ntl_pos, "0");
    assert_eq!(result.cross_margin_summary.total_raw_usd, "0");
    assert_eq!(result.cross_margin_summary.withdrawable, "0");
    assert_eq!(result.positions.len(), 1);
    let p = &result.positions[0];
    assert_eq!(
        (p.coin.as_str(), p.size.as_str(), p.entry_px.as_str()),
        ("", "-2", "0")
    );
    assert_eq!(
        (p.position_value.as_str(), p.unrealized_pnl.as_str(), p.margin_used.as_str()),
        ("0", "0", "0")
    );
    assert_eq!((&p.liquidation_px, &p.leverage, &p.max_leverage), (&None, &None, &None));
}
