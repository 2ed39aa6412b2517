use hypesilico::datasource::builder_logs::parse_side;
use hypesilico::datasource::{BuilderLogsError, BuilderLogsFetcher};
use hypesilico::{Address, Side, TimeMs};
use std::io::Write;
fn compress_lz4_frame(input: &[u8]) -> Vec<u8> {
    let mut encoder = lz4_flex::frame::FrameEncoder::new(Vec::new());
    encoder.write_all(input).unwrap();
    encoder.finish().unwrap()
}

#[test]
fn lz4_decompress_fixture_roundtrip() {
    let csv = b"time,user,coin,side,px,sz,crossed,special_trade_type,tif,is_trigger,counterparty,closed_pnl,twap_id,builder_fee\n\
        2023-11-14T16:53:20.000Z,0xabc,BTC,buy,100,1,false,,Gtc,false,0xdef,0,,0.01\n";
    let lz4 = compress_lz4_frame(csv);

    let out = BuilderLogsFetcher::decompress_lz4_frame(&lz4).unwrap();
    assert_eq!(out, csv);
}

#[test]
fn csv_parsing_valid_row() {
    // Schema: time,user,coin,side,px,sz,crossed,special_trade_type,tif,is_trigger,counterparty,closed_pnl,twap_id,builder_fee
    let csv = b"time,user,coin,side,px,sz,crossed,special_trade_type,tif,is_trigger,counterparty,closed_pnl,twap_id,builder_fee\n\
        2023-11-14T16:53:20.000Z,0xabc,BTC,A,100,1,false,,Gtc,false,0xdef,0,,0.01\n";
    let fills = BuilderLogsFetcher::parse_csv(csv).unwrap();
    assert_eq!(fills.len(), 1);
    // 2023-11-14T16:53:20.000Z = 1699980800000 ms
    assert_eq!(fills[0].time_ms, TimeMs::new(1699980800000));
    assert_eq!(fills[0].user.as_str(), "0xabc");
    assert_eq!(fills[0].coin.as_str(), "BTC");
    assert_eq!(fills[0].side, Side::Buy);
    assert_eq!(fills[0].px.to_canonical_string(), "100");
    assert_eq!(fills[0].sz.to_canonical_string(), "1");
    // tid and oid are not available in the real API
    assert_eq!(fills[0].tid, None);
    assert_eq!(fills[0].oid, None);
}

#[test]
fn csv_parsing_invalid_side_errors() {
    let csv = b"time,user,coin,side,px,sz,crossed,special_trade_type,tif,is_trigger,counterparty,closed_pnl,twap_id,builder_fee\n\
        2023-11-14T16:53:20.000Z,0xabc,BTC,wat,100,1,false,,Gtc,false,0xdef,0,,0.01\n";
    let err = BuilderLogsFetcher::parse_csv(csv).unwrap_err();
    assert!(matches!(err, BuilderLogsError::Csv(_)));
}

#[test]
fn csv_parsing_uppercase_side() {
    // Verify uppercase "A" -> Buy and "B" -> Sell are handled correctly
    let csv = b"time,user,coin,side,px,sz,crossed,special_trade_type,tif,is_trigger,counterparty,closed_pnl,twap_id,builder_fee\n\
        2023-11-14T16:53:20.000Z,0xabc,BTC,A,100,1,false,,Gtc,false,0xdef,0,,0.01\n\
        2023-11-14T16:53:21.000Z,0xdef,ETH,B,200,2,false,,Gtc,false,0xabc,0,,0.02\n";
    let fills = BuilderLogsFetcher::parse_csv(csv).unwrap();
    assert_eq!(fills.len(), 2);
    assert_eq!(fills[0].side, Side::Buy, "uppercase 'A' should be Buy");
    assert_eq!(fills[1].side, Side::Sell, "uppercase 'B' should be Sell");
}

#[test]
fn csv_parsing_minimal_columns() {
    // Test parsing with only the required columns (extra columns marked as optional)
    let csv = b"time,user,coin,side,px,sz\n\
        2023-11-14T16:53:20.000Z,0xabc,BTC,buy,100.5,1.25\n";
    let fills = BuilderLogsFetcher::parse_csv(csv).unwrap();
    assert_eq!(fills.len(), 1);
    assert_eq!(fills[0].px.to_canonical_string(), "100.5");
    assert_eq!(fills[0].sz.to_canonical_string(), "1.25");
}

#[test]
fn csv_parsing_invalid_time_format_errors() {
    let csv = b"time,user,coin,side,px,sz\n\
        not-a-valid-time,0xabc,BTC,buy,100,1\n";
    let err = BuilderLogsFetcher::parse_csv(csv).unwrap_err();
    assert!(matches!(err, BuilderLogsError::Csv(_)));
}

const PHANTOM_BUILDER: &str = "0xb84168cf3be63c6b8dad05ff5d755e97432ff80b";
const INSILICO_BUILDER: &str = "0x2868fc0d9786a740b491577a43502259efa78a39";
const BASEDAPP_BUILDER: &str = "0x1924b8561eef20e70ede628a296175d358be80e5";

#[test]
fn url_construction_phantom() {
    let builder = Address::new(PHANTOM_BUILDER.to_string());
    let url = BuilderLogsFetcher::builder_logs_url(&builder, "20250117");
    assert_eq!(
        url,
        format!("https://stats-data.hyperliquid.xyz/Mainnet/builder_fills/{}/20250117.csv.lz4", PHANTOM_BUILDER)
    );
}

#[test]
fn url_construction_insilico() {
    let builder = Address::new(INSILICO_BUILDER.to_string());
    let url = BuilderLogsFetcher::builder_logs_url(&builder, "20250117");
    assert_eq!(
        url,
        format!("https://stats-data.hyperliquid.xyz/Mainnet/builder_fills/{}/20250117.csv.lz4", INSILICO_BUILDER)
    );
}

#[test]
fn url_construction_basedapp() {
    let builder = Address::new(BASEDAPP_BUILDER.to_string());
    let url = BuilderLogsFetcher::builder_logs_url(&builder, "20250117");
    assert_eq!(
        url,
        format!("https://stats-data.hyperliquid.xyz/Mainnet/builder_fills/{}/20250117.csv.lz4", BASEDAPP_BUILDER)
    );
}

#[test]
fn lz4_rejects_what_is_no_frame() {
    let err = BuilderLogsFetcher::decompress_lz4_frame(b"this is not lz4").unwrap_err();
    assert!(matches!(err, BuilderLogsError::Lz4(_)));
    assert!(err.message().starts_with("lz4 decode error: "));
    let packed = compress_lz4_frame(b"");
    assert_eq!(BuilderLogsFetcher::decompress_lz4_frame(&packed).unwrap(), b"");
    let big: Vec<u8> = (0..100_000u32).map(|i| (i % 251) as u8).collect();
    let packed = compress_lz4_frame(&big);
    assert_ne!(packed, big);
    assert_eq!(BuilderLogsFetcher::decompress_lz4_frame(&packed).unwrap(), big);
}

#[test]
fn csv_reads_columns_by_their_names() {
    let csv = b"sz,px,extra,side,coin,user,time\n\
        0.5,\"1,000\",x, Bid ,ETH,0xAbC,2024-02-29T23:59:59.999Z\n\
        2,3,y,ASK,BTC,0xdef,1970-01-01T00:00:00+00:00\n";
    let fills = BuilderLogsFetcher::parse_csv(csv);
    // "1,000" is one field, but no decimal
    assert!(matches!(fills, Err(BuilderLogsError::Csv(_))));
    let csv = b"sz,px,extra,side,coin,user,time\n\
        0.5,1000.10,x, Bid ,ETH,0xAbC,2024-02-29T23:59:59.999Z\n\
        2,3,y,ASK,BTC,0xdef,1970-01-01T00:00:00+00:00\n";
    let fills = BuilderLogsFetcher::parse_csv(csv).unwrap();
    assert_eq!(fills.len(), 2);
    assert_eq!(fills[0].time_ms, TimeMs::new(1_709_251_199_999));
    assert_eq!(fills[0].user.as_str(), "0xAbC");
    assert_eq!(fills[0].coin.as_str(), "ETH");
    assert_eq!(fills[0].side, Side::Buy);
    assert_eq!(fills[0].px.to_canonical_string(), "1000.1");
    assert_eq!(fills[0].sz.to_canonical_string(), "0.5");
    assert_eq!(fills[1].time_ms, TimeMs::new(0));
    assert_eq!(fills[1].side, Side::Sell);
    assert_eq!((fills[1].tid, fills[1].oid), (None, None));
}

#[test]
fn csv_without_rows_is_empty() {
    assert_eq!(BuilderLogsFetcher::parse_csv(b"").unwrap(), vec![]);
    assert_eq!(
        BuilderLogsFetcher::parse_csv(b"time,user,coin,side,px,sz\n").unwrap(),
        vec![]
    );
    // a header that lacks a column does no harm while there are no rows
    assert_eq!(BuilderLogsFetcher::parse_csv(b"time,user\n").unwrap(), vec![]);
}

#[test]
fn csv_fails_on_a_missing_column_or_field() {
    let err = BuilderLogsFetcher::parse_csv(
        b"time,user,coin,side,px\n2023-11-14T16:53:20.000Z,0xabc,BTC,buy,100\n",
    )
    .unwrap_err();
    assert!(matches!(err, BuilderLogsError::Csv(_)));
    let err = BuilderLogsFetcher::parse_csv(
        b"time,user,coin,side,px,sz\n2023-11-14T16:53:20.000Z,0xabc,BTC,buy,100\n",
    )
    .unwrap_err();
    assert!(matches!(err, BuilderLogsError::Csv(_)));
    let err = BuilderLogsFetcher::parse_csv(
        b"time,user,coin,side,px,sz\n2023-11-14T16:53:20.000Z,0xabc,BTC,buy,abc,1\n",
    )
    .unwrap_err();
    assert!(err.message().starts_with("csv parse error: invalid px: "));
    let err = BuilderLogsFetcher::parse_csv(b"time,user\n\xff\xfe,x\n").unwrap_err();
    assert!(matches!(err, BuilderLogsError::Csv(_)));
}

#[test]
fn side_of_a_log_in_any_case() {
    for s in ["a", "A", " buy", "BUY ", "bid", "Bid"] {
        assert_eq!(parse_side(s), Some(Side::Buy), "{}", s);
    }
    for s in ["b", "B", " sell", "SELL ", "ask", "Ask"] {
        assert_eq!(parse_side(s), Some(Side::Sell), "{}", s);
    }
    for s in ["", "c", "buys", "bu y", "long"] {
        assert_eq!(parse_side(s), None, "{}", s);
    }
}

#[test]
fn builder_logs_error_messages() {
    assert_eq!(BuilderLogsError::Http("x".into()).message(), "http error: x");
    assert_eq!(
        BuilderLogsError::HttpStatus(503).message(),
        "unexpected http status: 503"
    );
    assert_eq!(BuilderLogsError::Csv("y".into()).message(), "csv parse error: y");
}

#[test]
fn csv_errors_say_what_is_wrong() {
    let message = |row: &str| {
        let csv = format!("time,user,coin,side,px,sz\n{}\n", row);
        match BuilderLogsFetcher::parse_csv(csv.as_bytes()).unwrap_err() {
            BuilderLogsError::Csv(m) => m,
            other => panic!("expected a csv error, got {:?}", other),
        }
    };
    assert!(message("not-a-valid-time,0xabc,BTC,buy,100,1")
        .starts_with("invalid time 'not-a-valid-time': "));
    assert!(message("not-a-valid-time,0xabc,BTC,buy,100,1").len()
        > "invalid time 'not-a-valid-time': ".len());
    assert!(message(",0xabc,BTC,hold,x,y").starts_with("invalid time '': "));
    assert_eq!(
        message("2023-11-14T16:53:20.000Z,0xabc,BTC, Hold ,x,y"),
        "invalid side:  Hold "
    );
    assert!(message("2023-11-14T16:53:20.000Z,0xabc,BTC,buy,x,y").starts_with("invalid px: "));
    assert!(message("2023-11-14T16:53:20.000Z,0xabc,BTC,buy,1,y").starts_with("invalid sz: "));
    assert_eq!(message("2023-11-14T16:53:20.000Z,0xabc,BTC,buy,1"), "missing field");
}
