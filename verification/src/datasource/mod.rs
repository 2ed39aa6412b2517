//! What comes from outside: the exchange's fills and deposits as it reports
//! them, and the builder's fill logs.

pub mod builder_logs;

use crate::domain::decimal::parsed_decimal;
use crate::domain::decimal::Decimal;
use crate::domain::deposit::Deposit;
use crate::domain::fill::Fill;
use crate::domain::primitives::Address;
use crate::domain::primitives::Coin;
use crate::domain::primitives::Side;
use crate::domain::primitives::TimeMs;
use crate::text::u16_text;
use crate::text::str_equal;
use vstd::prelude::*;
use vstd::string::StringExecFns;

pub use builder_logs::BuilderLogsError;
pub use builder_logs::BuilderLogsFetcher;

verus! {

/// Why data could not be had from the exchange.
#[derive(Debug)]
pub enum DataSourceError {
    /// The network failed.
    NetworkError(String),
    /// The exchange answered with an error status.
    HttpError { status: u16, message: String },
    /// The answer could not be read.
    ParseError(String),
    /// The exchange asks to slow down.
    RateLimited,
    /// Anything else.
    Other(String),
}

impl DataSourceError {
    /// The error in words.
    pub open spec fn text(&self) -> Seq<char> {
        match *self {
            DataSourceError::NetworkError(m) => "Network error: "@ + m@,
            DataSourceError::HttpError { status, message } => "HTTP error "@
                + crate::text::int_text(status as int) + ": "@ + message@,
            DataSourceError::ParseError(m) => "Parse error: "@ + m@,
            DataSourceError::RateLimited => "Rate limited"@,
            DataSourceError::Other(m) => "Error: "@ + m@,
        }
    }

    /// The error in words.
    pub fn message(&self) -> (r: String)
        ensures
            r@ == self.text(),
    {
        match self {
            DataSourceError::NetworkError(m) => {
                let mut text = "Network error: ".to_owned();
                text.append(m.as_str());
                text
            },
            DataSourceError::HttpError { status, message } => {
                let mut text = "HTTP error ".to_owned();
                text.append(u16_text(*status).as_str());
                text.append(": ");
                text.append(message.as_str());
                text
            },
            DataSourceError::ParseError(m) => {
                let mut text = "Parse error: ".to_owned();
                text.append(m.as_str());
                text
            },
            DataSourceError::RateLimited => "Rate limited".to_owned(),
            DataSourceError::Other(m) => {
                let mut text = "Error: ".to_owned();
                text.append(m.as_str());
                text
            },
        }
    }

    /// The error in words.
    pub fn to_string(&self) -> (r: String)
        ensures
            r@ == self.text(),
    {
        self.message()
    }
}

impl Clone for DataSourceError {
    fn clone(&self) -> (r: DataSourceError)
        ensures
            r == *self,
    {
        match self {
            DataSourceError::NetworkError(m) => DataSourceError::NetworkError(m.clone()),
            DataSourceError::HttpError { status, message } => DataSourceError::HttpError {
                status: *status,
                message: message.clone(),
            },
            DataSourceError::ParseError(m) => DataSourceError::ParseError(m.clone()),
            DataSourceError::RateLimited => DataSourceError::RateLimited,
            DataSourceError::Other(m) => DataSourceError::Other(m.clone()),
        }
    }
}

/// A fill as the exchange reports it: each field as it was found, if it was.
#[derive(Debug)]
pub struct FillRecord {
    /// `time`, an integer.
    pub time: Option<i64>,
    /// `side`, `A` for a buy and `B` for a sell.
    pub side: Option<String>,
    /// `px`, a decimal as text.
    pub px: Option<String>,
    /// `sz`, a decimal as text.
    pub sz: Option<String>,
    /// `fee`, a decimal as text.
    pub fee: Option<String>,
    /// `closedPnl`, a decimal as text.
    pub closed_pnl: Option<String>,
    /// `tid`, an integer.
    pub tid: Option<i64>,
    /// `oid`, an integer.
    pub oid: Option<i64>,
    /// `builderFee`, a decimal as text.
    pub builder_fee: Option<String>,
}

/// A deposit or withdrawal as the exchange reports it.
#[derive(Debug)]
pub struct DepositRecord {
    /// `time`, an integer.
    pub time: Option<i64>,
    /// `amount`, a decimal as text.
    pub amount: Option<String>,
    /// `coin`, the asset moved.
    pub coin: Option<String>,
    /// `hash`, the transaction hash.
    pub tx_hash: Option<String>,
}

/// The side that the exchange's letter stands for.
pub open spec fn side_of_letter(letter: Seq<char>) -> Option<Side> {
    if letter == "A"@ {
        Some(Side::Buy)
    } else if letter == "B"@ {
        Some(Side::Sell)
    } else {
        None
    }
}

/// The decimal of an optional text.
pub open spec fn decimal_of(text: Option<String>) -> Option<Decimal> {
    match text {
        Some(t) => parsed_decimal(t@),
        None => None,
    }
}

/// A record from which a fill can be made: time, side, price, size, fee and
/// closed profit and loss are there and can be read.
pub open spec fn fill_record_ok(record: FillRecord) -> bool {
    &&& record.time is Some
    &&& record.side matches Some(s) && side_of_letter(s@) is Some
    &&& decimal_of(record.px) is Some
    &&& decimal_of(record.sz) is Some
    &&& decimal_of(record.fee) is Some
    &&& decimal_of(record.closed_pnl) is Some
}

/// How the message begins that says why a decimal field cannot be used: it is
/// missing, or it is no decimal.
pub open spec fn decimal_fault(text: Option<String>, missing: Seq<char>, invalid: Seq<char>) -> Seq<
    char,
> {
    match text {
        Some(_) => invalid,
        None => missing,
    }
}

/// How the message begins that says why a record stands for no fill: the first
/// of a missing time, a missing or unknown side (with the text as it stands), and
/// a price, size, fee and closed profit and loss that is missing or no decimal.
pub open spec fn fill_record_fault(record: FillRecord) -> Seq<char> {
    if record.time is None {
        "Missing time field"@
    } else if record.side is None {
        "Missing side field"@
    } else if side_of_letter(record.side->Some_0@) is None {
        "Invalid side: "@ + record.side->Some_0@
    } else if decimal_of(record.px) is None {
        decimal_fault(record.px, "Missing px field"@, "Invalid px: "@)
    } else if decimal_of(record.sz) is None {
        decimal_fault(record.sz, "Missing sz field"@, "Invalid sz: "@)
    } else if decimal_of(record.fee) is None {
        decimal_fault(record.fee, "Missing fee field"@, "Invalid fee: "@)
    } else {
        decimal_fault(record.closed_pnl, "Missing closedPnl field"@, "Invalid closedPnl: "@)
    }
}

/// How the message begins that says why a record stands for no deposit: the
/// first of a missing time, an amount that is missing or no decimal, and a
/// missing coin.
pub open spec fn deposit_record_fault(record: DepositRecord) -> Seq<char> {
    if record.time is None {
        "Missing time field"@
    } else if decimal_of(record.amount) is None {
        decimal_fault(record.amount, "Missing amount field"@, "Invalid amount: "@)
    } else {
        "Missing coin field"@
    }
}

/// The parse error that says what is wrong.
fn parse_failure(what: &str) -> (r: DataSourceError)
    ensures
        r matches DataSourceError::ParseError(m) && m@ == what@,
{
    DataSourceError::ParseError(what.to_owned())
}

fn required_decimal(text: &Option<String>, missing: &str, invalid: &str) -> (r: Result<
    Decimal,
    DataSourceError,
>)
    ensures
        match r {
            Ok(d) => decimal_of(*text) == Some(d),
            Err(e) => decimal_of(*text) is None && (e matches DataSourceError::ParseError(m)
                && decimal_fault(*text, missing@, invalid@).is_prefix_of(m@)),
        },
{
    match text {
        Some(t) => match Decimal::from_str_canonical(t.as_str()) {
            Ok(d) => Ok(d),
            Err(e) => {
                let mut what = invalid.to_owned();
                what.append(e.message.as_str());
                assert(invalid@.is_prefix_of(what@));
                Err(DataSourceError::ParseError(what))
            },
        },
        None => Err(parse_failure(missing)),
    }
}

/// The fill that a record of the exchange stands for, for the account and coin
/// asked for. A builder fee that cannot be read counts as absent.
pub fn parse_fill(record: &FillRecord, user: &str, coin: &str) -> (r: Result<Fill, DataSourceError>)
    ensures
        r is Ok <==> fill_record_ok(*record),
        r matches Err(e) ==> (e matches DataSourceError::ParseError(m) && fill_record_fault(
            *record,
        ).is_prefix_of(m@)),
        r matches Ok(fill) ==> {
            &&& fill.time_ms.0 == record.time->Some_0
            &&& fill.user.0@ == user@
            &&& fill.coin.0@ == coin@
            &&& Some(fill.side) == side_of_letter(record.side->Some_0@)
            &&& Some(fill.px) == decimal_of(record.px)
            &&& Some(fill.sz) == decimal_of(record.sz)
            &&& Some(fill.fee) == decimal_of(record.fee)
            &&& Some(fill.closed_pnl) == decimal_of(record.closed_pnl)
            &&& fill.builder_fee == decimal_of(record.builder_fee)
            &&& fill.tid == record.tid
            &&& fill.oid == record.oid
            &&& fill.attribution is None
            &&& fill.key_is_canonical()
        },
{
    let time_ms = match record.time {
        Some(t) => t,
        None => {
            return Err(parse_failure("Missing time field"));
        },
    };
    let side = match &record.side {
        Some(s) => {
            if str_equal(s.as_str(), "A") {
                Side::Buy
            } else if str_equal(s.as_str(), "B") {
                Side::Sell
            } else {
                let mut what = "Invalid side: ".to_owned();
                what.append(s.as_str());
                return Err(DataSourceError::ParseError(what));
            }
        },
        None => {
            return Err(parse_failure("Missing side field"));
        },
    };
    let px = match required_decimal(&record.px, "Missing px field", "Invalid px: ") {
        Ok(d) => d,
        Err(e) => {
            return Err(e);
        },
    };
    let sz = match required_decimal(&record.sz, "Missing sz field", "Invalid sz: ") {
        Ok(d) => d,
        Err(e) => {
            return Err(e);
        },
    };
    let fee = match required_decimal(&record.fee, "Missing fee field", "Invalid fee: ") {
        Ok(d) => d,
        Err(e) => {
            return Err(e);
        },
    };
    let closed_pnl = match required_decimal(
        &record.closed_pnl,
        "Missing closedPnl field",
        "Invalid closedPnl: ",
    ) {
        Ok(d) => d,
        Err(e) => {
            return Err(e);
        },
    };
    let builder_fee = match &record.builder_fee {
        Some(t) => match Decimal::from_str_canonical(t.as_str()) {
            Ok(d) => Some(d),
            Err(_) => None,
        },
        None => None,
    };
    Ok(
        Fill::new(
            TimeMs::new(time_ms),
            Address::new(user.to_owned()),
            Coin::new(coin.to_owned()),
            side,
            px,
            sz,
            fee,
            closed_pnl,
            builder_fee,
            record.tid,
            record.oid,
        ),
    )
}

/// The deposit that a record of the exchange stands for. Time, amount and coin
/// must be there, and the amount must be a decimal.
pub fn parse_deposit(record: &DepositRecord, user: &str) -> (r: Result<Deposit, DataSourceError>)
    ensures
        r is Ok <==> record.time is Some && decimal_of(record.amount) is Some && record.coin
            is Some,
        r matches Err(e) ==> (e matches DataSourceError::ParseError(m) && deposit_record_fault(
            *record,
        ).is_prefix_of(m@)),
        r matches Ok(deposit) ==> {
            &&& deposit.time_ms.0 == record.time->Some_0
            &&& deposit.user.0@ == user@
            &&& Some(deposit.amount) == decimal_of(record.amount)
            &&& crate::domain::deposit::optional_view(deposit.tx_hash)
                == crate::domain::deposit::normal_tx_hash(
                crate::domain::deposit::optional_view(record.tx_hash),
            )
        },
{
    let time_ms = match record.time {
        Some(t) => t,
        None => {
            return Err(parse_failure("Missing time field"));
        },
    };
    let amount = match required_decimal(&record.amount, "Missing amount field", "Invalid amount: ") {
        Ok(d) => d,
        Err(e) => {
            return Err(e);
        },
    };
    if record.coin.is_none() {
        return Err(parse_failure("Missing coin field"));
    }
    let tx_hash = match &record.tx_hash {
        Some(t) => Some(t.clone()),
        None => None,
    };
    Ok(Deposit::new(Address::new(user.to_owned()), TimeMs::new(time_ms), amount, tx_hash))
}

} // verus!
