//! The builder's published fill logs: where they are, how they are unpacked and
//! how their rows are read.
//!
//! The logs are CSV, LZ4-framed. The header names the columns; `time`, `user`,
//! `coin`, `side`, `px` and `sz` are read and the others ignored. `time` is an
//! ISO 8601 instant; `side` is one of `a`, `buy`, `bid` (a buy) or `b`, `sell`,
//! `ask` (a sell), in any case. The logs carry neither trade nor order ids.

use crate::domain::builder_logs::BuilderLogFill;
use crate::domain::decimal::parsed_decimal;
use crate::domain::decimal::Decimal;
use crate::domain::primitives::Address;
use crate::domain::primitives::Coin;
use crate::domain::primitives::Side;
use crate::domain::primitives::TimeMs;
use crate::text::ascii_lower;
use crate::text::str_equal;
use crate::text::to_ascii_lower;
use crate::text::trim;
use crate::text::trimmed;
use std::io::Read;
use vstd::prelude::*;
use vstd::string::StringExecFns;

verus! {

/// Why a day's logs could not be had.
#[derive(Debug)]
pub enum BuilderLogsError {
    /// The request failed.
    Http(String),
    /// The server answered with a status that is not a success.
    HttpStatus(u16),
    /// The bytes are not an LZ4 frame.
    Lz4(String),
    /// The content is not the CSV expected.
    Csv(String),
}

/// The content of an LZ4 frame, `None` where the bytes are not one.
pub uninterp spec fn lz4_frame_content(bytes: Seq<u8>) -> Option<Seq<u8>>;

/// The records of a CSV text, each a list of fields, the header row first; `None`
/// where the bytes are not CSV in UTF-8.
pub uninterp spec fn csv_table(bytes: Seq<u8>) -> Option<Seq<Seq<Seq<char>>>>;

/// The milliseconds since the epoch of an ISO 8601 instant, `None` where the
/// text is not one.
pub uninterp spec fn instant_millis(text: Seq<char>) -> Option<i64>;

/// The fields of each record.
pub open spec fn table_view(rows: Seq<Vec<String>>) -> Seq<Seq<Seq<char>>> {
    Seq::new(rows.len(), |i: int| crate::text::texts(rows[i]@))
}

/// `lz4_flex::frame::FrameDecoder` read to its end: the content of the frame, or
/// the decoder's error in words.
#[verifier::external_body]
fn lz4_decode(bytes: &[u8]) -> (r: Result<Vec<u8>, String>)
    ensures
        match r {
            Ok(content) => lz4_frame_content(bytes@) == Some(content@),
            Err(_) => lz4_frame_content(bytes@) is None,
        },
{
    let mut decoder = lz4_flex::frame::FrameDecoder::new(bytes);
    let mut out = Vec::new();
    match decoder.read_to_end(&mut out) {
        Ok(_) => Ok(out),
        Err(e) => Err(e.to_string()),
    }
}

/// `csv::Reader::records` over the bytes, without a header row set apart and
/// with records of any length: every record as its fields, or the reader's error
/// in words.
#[verifier::external_body]
fn csv_records(bytes: &[u8]) -> (r: Result<Vec<Vec<String>>, String>)
    ensures
        match r {
            Ok(rows) => csv_table(bytes@) == Some(table_view(rows@)),
            Err(_) => csv_table(bytes@) is None,
        },
{
    let mut reader = csv::ReaderBuilder::new().has_headers(false).flexible(true).from_reader(bytes);
    let mut rows = Vec::new();
    for record in reader.records() {
        match record {
            Ok(fields) => rows.push(fields.iter().map(|f| f.to_string()).collect()),
            Err(e) => return Err(e.to_string()),
        }
    }
    Ok(rows)
}

/// `chrono::DateTime::<Utc>::from_str` and `timestamp_millis`: the instant that
/// the text denotes, in milliseconds since the epoch, or chrono's error in words.
#[verifier::external_body]
fn parse_instant(text: &str) -> (r: Result<i64, String>)
    ensures
        match r {
            Ok(ms) => instant_millis(text@) == Some(ms),
            Err(_) => instant_millis(text@) is None,
        },
{
    match text.parse::<chrono::DateTime<chrono::Utc>>() {
        Ok(instant) => Ok(instant.timestamp_millis()),
        Err(e) => Err(e.to_string()),
    }
}

/// The side that a log names, in any case and with white space around it.
pub open spec fn side_of_log(text: Seq<char>) -> Option<Side> {
    let t = ascii_lower(trimmed(text));
    if t == "a"@ || t == "buy"@ || t == "bid"@ {
        Some(Side::Buy)
    } else if t == "b"@ || t == "sell"@ || t == "ask"@ {
        Some(Side::Sell)
    } else {
        None
    }
}

/// Where each column that is read stands in the header, if it does.
pub struct LogColumns {
    pub time: Option<usize>,
    pub user: Option<usize>,
    pub coin: Option<usize>,
    pub side: Option<usize>,
    pub px: Option<usize>,
    pub sz: Option<usize>,
}

/// What a record of the logs says: the time, the account and coin as texts, the
/// side, the price and the size.
pub struct LogRow {
    pub time_ms: i64,
    pub user: Seq<char>,
    pub coin: Seq<char>,
    pub side: Side,
    pub px: Decimal,
    pub sz: Decimal,
}

/// What a row says, and that it carries no ids.
pub open spec fn row_says(row: BuilderLogFill, said: LogRow) -> bool {
    &&& row.time_ms.0 == said.time_ms
    &&& row.user.0@ == said.user
    &&& row.coin.0@ == said.coin
    &&& row.side == said.side
    &&& row.px == said.px
    &&& row.sz == said.sz
    &&& row.tid is None
    &&& row.oid is None
}

/// The first position of a name in a header, if it occurs.
#[verifier::opaque]
pub open spec fn column_of(header: Seq<Seq<char>>, name: Seq<char>) -> Option<usize> {
    if exists|i: int| 0 <= i < header.len() && #[trigger] header[i] == name {
        let i = choose|i: int|
            0 <= i < header.len() && #[trigger] header[i] == name && forall|j: int|
                0 <= j < i ==> #[trigger] header[j] != name;
        Some(i as usize)
    } else {
        None
    }
}

/// Where the columns that are read stand in a header.
pub open spec fn log_columns(header: Seq<Seq<char>>) -> LogColumns {
    LogColumns {
        time: column_of(header, "time"@),
        user: column_of(header, "user"@),
        coin: column_of(header, "coin"@),
        side: column_of(header, "side"@),
        px: column_of(header, "px"@),
        sz: column_of(header, "sz"@),
    }
}

/// The field of a record in a column, if the record reaches that far.
pub open spec fn field_at(record: Seq<Seq<char>>, column: Option<usize>) -> Option<Seq<char>> {
    match column {
        Some(c) => if c < record.len() {
            Some(record[c as int])
        } else {
            None
        },
        None => None,
    }
}

/// The row that a record stands for under the columns, if it can be read: every
/// column is there, the time is an instant, the side is known, price and size are
/// decimals.
pub open spec fn row_of_record(record: Seq<Seq<char>>, columns: LogColumns) -> Option<
    LogRow,
> {
    match (
        field_at(record, columns.time),
        field_at(record, columns.user),
        field_at(record, columns.coin),
        field_at(record, columns.side),
        field_at(record, columns.px),
        field_at(record, columns.sz),
    ) {
        (Some(time), Some(user), Some(coin), Some(side), Some(px), Some(sz)) => match (
            instant_millis(time),
            side_of_log(side),
            parsed_decimal(px),
            parsed_decimal(sz),
        ) {
            (Some(ms), Some(s), Some(p), Some(z)) => Some(
                LogRow { time_ms: ms, user, coin, side: s, px: p, sz: z },
            ),
            _ => None,
        },
        _ => None,
    }
}

/// How the message begins that says why a record cannot be read: the first of
/// a missing field, a time that is no instant (with the text as it stands), a
/// side that is not known (with the text as it stands), a price and a size that
/// is no decimal.
pub open spec fn record_fault(record: Seq<Seq<char>>, columns: LogColumns) -> Seq<char> {
    match (
        field_at(record, columns.time),
        field_at(record, columns.user),
        field_at(record, columns.coin),
        field_at(record, columns.side),
        field_at(record, columns.px),
        field_at(record, columns.sz),
    ) {
        (Some(time), Some(_), Some(_), Some(side), Some(px), Some(_)) => if instant_millis(time)
            is None {
            "invalid time '"@ + time + "': "@
        } else if side_of_log(side) is None {
            "invalid side: "@ + side
        } else if parsed_decimal(px) is None {
            "invalid px: "@
        } else {
            "invalid sz: "@
        },
        _ => "missing field"@,
    }
}

/// The row is what the record stands for under the columns.
pub open spec fn record_reads_as(
    record: Seq<Seq<char>>,
    columns: LogColumns,
    row: BuilderLogFill,
) -> bool {
    row_of_record(record, columns) matches Some(said) && row_says(row, said)
}

/// The fetcher's part that needs no network: the address of a day's logs, the
/// unpacking and the reading.
pub struct BuilderLogsFetcher;

fn find_column(header: &Vec<String>, name: &str) -> (r: Option<usize>)
    ensures
        r == column_of(crate::text::texts(header@), name@),
{
    let ghost h = crate::text::texts(header@);
    let mut i: usize = 0;
    while i < header.len()
        invariant
            i <= header@.len(),
            h == crate::text::texts(header@),
            forall|j: int| 0 <= j < i ==> #[trigger] h[j] != name@,
        decreases header@.len() - i,
    {
        if str_equal(header[i].as_str(), name) {
            proof {
                reveal(column_of);
                let at = i as int;
                assert(0 <= at < h.len() && h[at] == name@ && forall|j: int|
                    0 <= j < at ==> #[trigger] h[j] != name@);
                let c = choose|c: int|
                    0 <= c < h.len() && #[trigger] h[c] == name@ && forall|j: int|
                        0 <= j < c ==> #[trigger] h[j] != name@;
                assert(c == at);
            }
            return Some(i);
        }
        i += 1;
    }
    proof {
        reveal(column_of);
    }
    None
}

fn header_columns(header: &Vec<String>) -> (r: LogColumns)
    ensures
        r == log_columns(crate::text::texts(header@)),
{
    LogColumns {
        time: find_column(header, "time"),
        user: find_column(header, "user"),
        coin: find_column(header, "coin"),
        side: find_column(header, "side"),
        px: find_column(header, "px"),
        sz: find_column(header, "sz"),
    }
}

fn field<'a>(record: &'a Vec<String>, column: Option<usize>) -> (r: Option<&'a String>)
    ensures
        match r {
            Some(f) => field_at(crate::text::texts(record@), column) == Some(f@),
            None => field_at(crate::text::texts(record@), column) is None,
        },
{
    match column {
        Some(c) => if c < record.len() {
            Some(&record[c])
        } else {
            None
        },
        None => None,
    }
}

/// The error for a record that cannot be read: what is wrong, and the detail
/// behind it.
fn csv_failure(what: &str, detail: &str) -> (r: BuilderLogsError)
    ensures
        r matches BuilderLogsError::Csv(m) && m@ == what@ + detail@,
{
    let mut text = what.to_owned();
    text.append(detail);
    BuilderLogsError::Csv(text)
}

/// The error for a time that is no instant: the text as it stands, and why it
/// is none.
fn time_failure(text: &str, detail: &str) -> (r: BuilderLogsError)
    ensures
        r matches BuilderLogsError::Csv(m) && m@ == "invalid time '"@ + text@ + "': "@ + detail@,
{
    let mut message = "invalid time '".to_owned();
    message.append(text);
    message.append("': ");
    message.append(detail);
    BuilderLogsError::Csv(message)
}

/// The side that a log names.
pub fn parse_side(text: &str) -> (r: Option<Side>)
    ensures
        r == side_of_log(text@),
{
    let folded = to_ascii_lower(trim(text));
    let t = folded.as_str();
    if str_equal(t, "a") || str_equal(t, "buy") || str_equal(t, "bid") {
        Some(Side::Buy)
    } else if str_equal(t, "b") || str_equal(t, "sell") || str_equal(t, "ask") {
        Some(Side::Sell)
    } else {
        None
    }
}

impl BuilderLogsFetcher {
    /// The address of the logs of a builder for a day.
    pub fn builder_logs_url(builder: &Address, yyyymmdd: &str) -> (r: String)
        ensures
            r@ == "https://stats-data.hyperliquid.xyz/Mainnet/builder_fills/"@ + builder.0@ + "/"@
                + yyyymmdd@ + ".csv.lz4"@,
    {
        let mut url = "https://stats-data.hyperliquid.xyz/Mainnet/builder_fills/".to_owned();
        url.append(builder.as_str());
        url.append("/");
        url.append(yyyymmdd);
        url.append(".csv.lz4");
        url
    }

    /// Unpacks an LZ4 frame.
    pub fn decompress_lz4_frame(lz4_bytes: &[u8]) -> (r: Result<Vec<u8>, BuilderLogsError>)
        ensures
            match r {
                Ok(content) => lz4_frame_content(lz4_bytes@) == Some(content@),
                Err(e) => lz4_frame_content(lz4_bytes@) is None && e is Lz4,
            },
    {
        match lz4_decode(lz4_bytes) {
            Ok(content) => Ok(content),
            Err(what) => Err(BuilderLogsError::Lz4(what)),
        }
    }

    /// Reads one record under the columns of the header.
    pub fn parse_record(record: &Vec<String>, columns: &LogColumns) -> (r: Result<
        BuilderLogFill,
        BuilderLogsError,
    >)
        ensures
            match r {
                Ok(row) => record_reads_as(crate::text::texts(record@), *columns, row),
                Err(e) => row_of_record(crate::text::texts(record@), *columns) is None && (
                e matches BuilderLogsError::Csv(m) && record_fault(
                    crate::text::texts(record@),
                    *columns,
                ).is_prefix_of(m@)),
            },
    {
        let time = field(record, columns.time);
        let user = field(record, columns.user);
        let coin = field(record, columns.coin);
        let side = field(record, columns.side);
        let px = field(record, columns.px);
        let sz = field(record, columns.sz);
        match (time, user, coin, side, px, sz) {
            (Some(time), Some(user), Some(coin), Some(side), Some(px), Some(sz)) => {
                let time_ms = match parse_instant(time.as_str()) {
                    Ok(ms) => ms,
                    Err(what) => {
                        return Err(time_failure(time.as_str(), what.as_str()));
                    },
                };
                let side = match parse_side(side.as_str()) {
                    Some(s) => s,
                    None => {
                        return Err(csv_failure("invalid side: ", side.as_str()));
                    },
                };
                let px = match Decimal::from_str_canonical(px.as_str()) {
                    Ok(d) => d,
                    Err(e) => {
                        return Err(csv_failure("invalid px: ", e.message.as_str()));
                    },
                };
                let sz = match Decimal::from_str_canonical(sz.as_str()) {
                    Ok(d) => d,
                    Err(e) => {
                        return Err(csv_failure("invalid sz: ", e.message.as_str()));
                    },
                };
                Ok(
                    BuilderLogFill {
                        time_ms: TimeMs::new(time_ms),
                        user: Address::new(user.clone()),
                        coin: Coin::new(coin.clone()),
                        side,
                        px,
                        sz,
                        tid: None,
                        oid: None,
                    },
                )
            },
            _ => Err(csv_failure("missing field", "")),
        }
    }

    /// Reads the rows of a day's logs. Every record after the header must be
    /// readable; the first that is not fails the whole, with the message that says
    /// what is wrong with it.
    pub fn parse_csv(csv_bytes: &[u8]) -> (r: Result<Vec<BuilderLogFill>, BuilderLogsError>)
        ensures
            match csv_table(csv_bytes@) {
                None => r matches Err(e) && e is Csv,
                Some(table) => if table.len() == 0 {
                    r matches Ok(rows) && rows@.len() == 0
                } else {
                    let columns = log_columns(table[0]);
                    match r {
                        Ok(rows) => rows@.len() == table.len() - 1 && forall|i: int|
                            0 <= i < rows@.len() ==> record_reads_as(
                                table[i + 1],
                                columns,
                                #[trigger] rows@[i],
                            ),
                        Err(e) => e matches BuilderLogsError::Csv(m) && exists|i: int|
                            1 <= i < table.len() && row_of_record(#[trigger] table[i], columns)
                                is None && record_fault(table[i], columns).is_prefix_of(m@)
                                && forall|j: int|
                                1 <= j < i ==> row_of_record(#[trigger] table[j], columns)
                                    is Some,
                    }
                },
            },
    {
        let table = match csv_records(csv_bytes) {
            Ok(t) => t,
            Err(what) => {
                return Err(BuilderLogsError::Csv(what));
            },
        };
        let mut rows: Vec<BuilderLogFill> = Vec::new();
        if table.len() == 0 {
            return Ok(rows);
        }
        let columns = header_columns(&table[0]);
        let ghost view = table_view(table@);
        assert(view[0] == crate::text::texts(table@[0]@));
        let mut i: usize = 1;
        while i < table.len()
            invariant
                1 <= i <= table@.len(),
                view == table_view(table@),
                csv_table(csv_bytes@) == Some(view),
                columns == log_columns(view[0]),
                rows@.len() == i - 1,
                forall|k: int|
                    0 <= k < rows@.len() ==> record_reads_as(
                        view[k + 1],
                        columns,
                        #[trigger] rows@[k],
                    ),
            decreases table@.len() - i,
        {
            assert(view[i as int] == crate::text::texts(table@[i as int]@));
            let ghost before = rows@;
            match BuilderLogsFetcher::parse_record(&table[i], &columns) {
                Ok(row) => {
                    rows.push(row);
                    assert forall|k: int| 0 <= k < rows@.len() implies record_reads_as(
                        view[k + 1],
                        columns,
                        #[trigger] rows@[k],
                    ) by {
                        if k < before.len() {
                            assert(rows@[k] == before[k]);
                        }
                    }
                },
                Err(e) => {
                    assert(row_of_record(view[i as int], columns) is None);
                    assert forall|j: int| 1 <= j < i implies row_of_record(
                        #[trigger] view[j],
                        columns,
                    ) is Some by {
                        assert(record_reads_as(view[(j - 1) + 1], columns, rows@[j - 1]));
                    }
                    return Err(e);
                },
            }
            i += 1;
        }
        Ok(rows)
    }
}

impl BuilderLogsError {
    /// The error in words.
    pub fn message(&self) -> (r: String)
        ensures
            r@ == (match *self {
                BuilderLogsError::Http(m) => "http error: "@ + m@,
                BuilderLogsError::HttpStatus(status) => "unexpected http status: "@
                    + crate::text::int_text(status as int),
                BuilderLogsError::Lz4(m) => "lz4 decode error: "@ + m@,
                BuilderLogsError::Csv(m) => "csv parse error: "@ + m@,
            }),
    {
        match self {
            BuilderLogsError::Http(m) => {
                let mut text = "http error: ".to_owned();
                text.append(m.as_str());
                text
            },
            BuilderLogsError::HttpStatus(status) => {
                let mut text = "unexpected http status: ".to_owned();
                text.append(crate::text::u16_text(*status).as_str());
                text
            },
            BuilderLogsError::Lz4(m) => {
                let mut text = "lz4 decode error: ".to_owned();
                text.append(m.as_str());
                text
            },
            BuilderLogsError::Csv(m) => {
                let mut text = "csv parse error: ".to_owned();
                text.append(m.as_str());
                text
            },
        }
    }
}

} // verus!
