//! The query aggregators: what each endpoint answers, computed from the rows of
//! the store. The transport around them is not here.

pub mod deposits;
pub mod leaderboard;
pub mod pnl;
pub mod positions;
pub mod risk;
pub mod trades;

use crate::domain::decimal::parsed_decimal;
use crate::domain::decimal::Decimal;
use crate::domain::primitives::address_fault;
use crate::domain::primitives::Address;
use crate::domain::primitives::Coin;
use crate::domain::primitives::TimeMs;
use crate::error::AppError;
use crate::text::trim;
use crate::text::trimmed;
use vstd::prelude::*;
use vstd::string::StringSliceAdditionalSpecFns;

verus! {

/// The window of a query is in order: where both ends are given, the start is
/// not after the end.
pub open spec fn window_in_order(from_ms: Option<i64>, to_ms: Option<i64>) -> bool {
    match (from_ms, to_ms) {
        (Some(from), Some(to)) => from <= to,
        _ => true,
    }
}

/// The time of an optional number of milliseconds.
pub open spec fn time_of(ms: Option<i64>) -> Option<TimeMs> {
    match ms {
        Some(t) => Some(TimeMs(t)),
        None => None,
    }
}

/// Checks the window of a query. A window whose start is after its end is a bad
/// request.
pub fn validate_window(from_ms: Option<i64>, to_ms: Option<i64>) -> (r: Result<
    (Option<TimeMs>, Option<TimeMs>),
    AppError,
>)
    ensures
        match r {
            Ok(window) => window_in_order(from_ms, to_ms) && window.0 == time_of(from_ms)
                && window.1 == time_of(to_ms),
            Err(e) => !window_in_order(from_ms, to_ms) && (e matches AppError::BadRequest(m) && m@
                == "fromMs must be <= toMs"@),
        },
{
    let from = match from_ms {
        Some(t) => Some(TimeMs::new(t)),
        None => None,
    };
    let to = match to_ms {
        Some(t) => Some(TimeMs::new(t)),
        None => None,
    };
    if let (Some(f), Some(t)) = (from_ms, to_ms) {
        if f > t {
            return Err(AppError::bad_request("fromMs must be <= toMs"));
        }
    }
    Ok((from, to))
}

/// The account of a query. Anything but `0x` and forty hex digits is a bad
/// request.
pub fn parse_user(input: &str) -> (r: Result<Address, AppError>)
    ensures
        match r {
            Ok(user) => address_fault(input.spec_bytes()) is None && user.0@ == input@,
            Err(e) => address_fault(input.spec_bytes()) is Some && (e matches AppError::BadRequest(m)
                && m@ == "Invalid user address"@),
        },
{
    match Address::parse(input) {
        Ok(user) => Ok(user),
        Err(_) => Err(AppError::bad_request("Invalid user address")),
    }
}

/// The coin that a query names: the trimmed text, or none where it is absent or
/// empty after trimming.
pub open spec fn coin_of_param(coin: Option<Seq<char>>) -> Option<Seq<char>> {
    match coin {
        Some(c) => if trimmed(c).len() == 0 {
            None
        } else {
            Some(trimmed(c))
        },
        None => None,
    }
}

/// The coin that a query names.
pub fn parse_coin_param(coin: Option<&str>) -> (r: Option<Coin>)
    ensures
        match r {
            Some(c) => coin_of_param(
                match coin {
                    Some(t) => Some(t@),
                    None => None,
                },
            ) == Some(c.0@),
            None => coin_of_param(
                match coin {
                    Some(t) => Some(t@),
                    None => None,
                },
            ) is None,
        },
{
    match coin {
        Some(text) => {
            let t = trim(text);
            if t.is_empty() {
                None
            } else {
                Some(Coin::new(t.to_owned()))
            }
        },
        None => None,
    }
}

/// The cap on the starting capital that a query names. A text that is not a
/// decimal is a bad request.
pub fn parse_max_start_capital(text: Option<&str>) -> (r: Result<Option<Decimal>, AppError>)
    ensures
        match text {
            None => r matches Ok(None),
            Some(t) => match parsed_decimal(t@) {
                Some(d) => r matches Ok(Some(v)) && v == d,
                None => r matches Err(AppError::BadRequest(m)) && m@ == "Invalid maxStartCapital"@,
            },
        },
{
    match text {
        None => Ok(None),
        Some(t) => match Decimal::from_str_canonical(t) {
            Ok(d) => Ok(Some(d)),
            Err(_) => Err(AppError::bad_request("Invalid maxStartCapital")),
        },
    }
}

/// A count as a signed number, at most the largest.
pub fn count_i64(n: usize) -> (r: i64)
    ensures
        r == (if n <= i64::MAX {
            n as int
        } else {
            i64::MAX as int
        }),
{
    let wide = n as u64;
    if wide <= 0x7fff_ffff_ffff_ffff {
        wide as i64
    } else {
        i64::MAX
    }
}

} // verus!
