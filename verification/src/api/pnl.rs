//! Realized profit and loss of an account over a window.

use crate::api::count_i64;
use crate::config::PnlMode;
use crate::db::PnlFillEffect;
use crate::domain::decimal::checked_difference;
use crate::domain::decimal::checked_product;
use crate::domain::decimal::decimal_quotient;
use crate::domain::decimal::decimal_total;
use crate::domain::decimal::sum_decimals;
use crate::domain::decimal::Decimal;
use crate::domain::primitives::address_fault;
use crate::domain::primitives::Address;
use crate::error::AppError;
use vstd::prelude::*;
use vstd::string::StringSliceAdditionalSpecFns;

verus! {

/// The query for realized profit and loss.
#[derive(Debug)]
pub struct PnlQuery {
    pub user: String,
    pub coin: Option<String>,
    pub from_ms: Option<i64>,
    pub to_ms: Option<i64>,
    pub builder_only: Option<bool>,
    pub max_start_capital: Option<String>,
}

/// Realized profit and loss, every decimal in its canonical text.
#[derive(Debug, PartialEq, Eq)]
pub struct PnlResponse {
    pub realized_pnl: String,
    pub return_pct: String,
    pub fees_paid: String,
    pub trade_count: i64,
    /// Set for builder-only queries: whether effects were left out.
    pub tainted: Option<bool>,
}

/// The account of a profit-and-loss query: `0x` and forty hex digits. Anything
/// else is a bad request.
pub fn parse_user_address(input: &str) -> (r: Result<Address, AppError>)
    ensures
        match r {
            Ok(user) => address_fault(input.spec_bytes()) is None && user.0@ == input@,
            Err(e) => address_fault(input.spec_bytes()) is Some && (e matches AppError::BadRequest(m)
                && m@ == "Invalid user address"@),
        },
{
    match Address::parse(input) {
        Ok(user) => Ok(user),
        Err(_) => Err(AppError::bad_request("Invalid user address")),
    }
}

/// The lifecycle is not among the tainted ones.
pub open spec fn is_clean(tainted_ids: Seq<i64>, lifecycle_id: i64) -> bool {
    !tainted_ids.contains(lifecycle_id)
}

/// True if the id is among those given.
pub fn contains_id(ids: &Vec<i64>, id: i64) -> (r: bool)
    ensures
        r == ids@.contains(id),
{
    let mut i: usize = 0;
    while i < ids.len()
        invariant
            i <= ids@.len(),
            forall|k: int| 0 <= k < i ==> ids@[k] != id,
        decreases ids@.len() - i,
    {
        if ids[i] == id {
            return true;
        }
        i += 1;
    }
    false
}

/// Leaves out the effects of tainted lifecycles and says whether any was left
/// out.
pub fn exclude_tainted(effects: &Vec<PnlFillEffect>, tainted_ids: &Vec<i64>) -> (r: (
    Vec<PnlFillEffect>,
    bool,
))
    ensures
        r.0@ == effects@.filter(|e: PnlFillEffect| is_clean(tainted_ids@, e.lifecycle_id)),
        r.1 == exists|i: int|
            0 <= i < effects@.len() && !is_clean(
                tainted_ids@,
                (#[trigger] effects@[i]).lifecycle_id,
            ),
{
    let ghost keep = |e: PnlFillEffect| is_clean(tainted_ids@, e.lifecycle_id);
    let mut kept: Vec<PnlFillEffect> = Vec::new();
    let mut excluded = false;
    let mut i: usize = 0;
    proof {
        reveal(Seq::filter);
        assert(effects@.take(0) =~= Seq::<PnlFillEffect>::empty());
    }
    while i < effects.len()
        invariant
            i <= effects@.len(),
            keep == |e: PnlFillEffect| is_clean(tainted_ids@, e.lifecycle_id),
            kept@ == effects@.take(i as int).filter(keep),
            excluded == exists|k: int|
                0 <= k < i && !is_clean(tainted_ids@, (#[trigger] effects@[k]).lifecycle_id),
        decreases effects@.len() - i,
    {
        proof {
            reveal(Seq::filter);
            assert(effects@.take(i + 1).drop_last() =~= effects@.take(i as int));
            assert(effects@.take(i + 1).last() == effects@[i as int]);
        }
        if contains_id(tainted_ids, effects[i].lifecycle_id) {
            excluded = true;
        } else {
            kept.push(effects[i]);
        }
        i += 1;
    }
    assert(effects@.take(i as int) =~= effects@);
    (kept, excluded)
}

/// The taint flag of an answer: absent unless the query is builder-only, and
/// then whether any effect was left out.
pub fn taint_flag(builder_only: bool, any_excluded: bool) -> (r: Option<bool>)
    ensures
        r == (if builder_only {
            Some(any_excluded)
        } else {
            None
        }),
{
    if builder_only {
        Some(any_excluded)
    } else {
        None
    }
}

/// The closed profit and loss of each effect, in order.
pub open spec fn closed_pnls(effects: Seq<PnlFillEffect>) -> Seq<Decimal> {
    Seq::new(effects.len(), |i: int| effects[i].closed_pnl)
}

/// The fee of each effect, in order.
pub open spec fn fees(effects: Seq<PnlFillEffect>) -> Seq<Decimal> {
    Seq::new(effects.len(), |i: int| effects[i].fee)
}

/// Realized profit and loss in a mode: the total of the closed profit and loss,
/// in net mode less the fees.
pub open spec fn realized_in_mode(gross: Decimal, fees_paid: Decimal, mode: PnlMode) -> Option<
    Decimal,
> {
    match mode {
        PnlMode::Gross => Some(gross),
        PnlMode::Net => checked_difference(gross, fees_paid),
    }
}

/// The capital that the return is measured against: the equity at the start of
/// the window, capped where a cap is given and the equity is above it.
pub open spec fn effective_capital(equity: Decimal, cap: Option<Decimal>) -> Decimal {
    match cap {
        Some(max) => if max.less_than(&equity) {
            max
        } else {
            equity
        },
        None => equity,
    }
}

/// The return in percent: zero on zero capital, else `realized / capital * 100`.
pub open spec fn return_percent(realized: Decimal, capital: Decimal) -> Option<Decimal> {
    if capital.mantissa() == 0 {
        Some(Decimal::nought())
    } else {
        match decimal_quotient(realized, capital) {
            Some(ratio) => checked_product(ratio, Decimal::one_hundred()),
            None => None,
        }
    }
}

/// The figures of a profit-and-loss answer.
pub struct PnlFigures {
    pub realized: Decimal,
    pub fees_paid: Decimal,
    pub return_pct: Decimal,
}

/// The figures for the effects given, `None` where a figure is out of range.
pub open spec fn pnl_figures(
    effects: Seq<PnlFillEffect>,
    mode: PnlMode,
    equity_at_start: Decimal,
    cap: Option<Decimal>,
) -> Option<PnlFigures> {
    match (decimal_total(closed_pnls(effects)), decimal_total(fees(effects))) {
        (Some(gross), Some(fees_paid)) => match realized_in_mode(gross, fees_paid, mode) {
            Some(realized) => match return_percent(
                realized,
                effective_capital(equity_at_start, cap),
            ) {
                Some(return_pct) => Some(PnlFigures { realized, fees_paid, return_pct }),
                None => None,
            },
            None => None,
        },
        _ => None,
    }
}

/// The capital that the return is measured against.
pub fn capital(equity: Decimal, cap: Option<Decimal>) -> (r: Decimal)
    ensures
        r == effective_capital(equity, cap),
{
    match cap {
        Some(max) => if equity.gt(&max) {
            max
        } else {
            equity
        },
        None => equity,
    }
}

/// The return in percent.
pub fn return_pct(realized: Decimal, capital: Decimal) -> (r: Option<Decimal>)
    ensures
        r == return_percent(realized, capital),
{
    if capital.is_zero() {
        Some(Decimal::zero())
    } else {
        let ratio = realized.checked_div(&capital)?;
        ratio.checked_mul(&Decimal::hundred())
    }
}

/// The profit-and-loss answer for the effects that count: the totals of closed
/// profit and loss and of fees, the realized figure in the mode, the return on
/// the effective capital, and the number of effects. A figure out of range is an
/// internal error.
pub fn summarize_pnl(
    effects: &Vec<PnlFillEffect>,
    pnl_mode: PnlMode,
    equity_at_start: Decimal,
    max_start_capital: Option<Decimal>,
    tainted: Option<bool>,
) -> (r: Result<PnlResponse, AppError>)
    ensures
        match pnl_figures(effects@, pnl_mode, equity_at_start, max_start_capital) {
            Some(figures) => r matches Ok(response) && response.realized_pnl@
                == figures.realized.canonical_text() && response.fees_paid@
                == figures.fees_paid.canonical_text() && response.return_pct@
                == figures.return_pct.canonical_text() && response.trade_count == (
            if effects@.len() <= i64::MAX {
                effects@.len() as int
            } else {
                i64::MAX as int
            }) && response.tainted == tainted,
            None => r matches Err(AppError::Internal(_)),
        },
{
    let mut pnls: Vec<Decimal> = Vec::new();
    let mut fee_list: Vec<Decimal> = Vec::new();
    let mut i: usize = 0;
    while i < effects.len()
        invariant
            i <= effects@.len(),
            pnls@ == closed_pnls(effects@.take(i as int)),
            fee_list@ == fees(effects@.take(i as int)),
        decreases effects@.len() - i,
    {
        pnls.push(effects[i].closed_pnl);
        fee_list.push(effects[i].fee);
        proof {
            assert(pnls@ =~= closed_pnls(effects@.take(i + 1)));
            assert(fee_list@ =~= fees(effects@.take(i + 1)));
        }
        i += 1;
    }
    assert(effects@.take(i as int) =~= effects@);
    let gross = match sum_decimals(&pnls) {
        Some(v) => v,
        None => {
            return Err(AppError::internal("realized pnl out of range"));
        },
    };
    let fees_paid = match sum_decimals(&fee_list) {
        Some(v) => v,
        None => {
            return Err(AppError::internal("fees out of range"));
        },
    };
    let realized = match pnl_mode {
        PnlMode::Gross => gross,
        PnlMode::Net => match gross.checked_sub(&fees_paid) {
            Some(v) => v,
            None => {
                return Err(AppError::internal("realized pnl out of range"));
            },
        },
    };
    let percent = match return_pct(realized, capital(equity_at_start, max_start_capital)) {
        Some(v) => v,
        None => {
            return Err(AppError::internal("return out of range"));
        },
    };
    Ok(
        PnlResponse {
            realized_pnl: realized.to_canonical_string(),
            return_pct: percent.to_canonical_string(),
            fees_paid: fees_paid.to_canonical_string(),
            trade_count: count_i64(effects.len()),
            tainted,
        },
    )
}

} // verus!
