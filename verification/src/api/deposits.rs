//! The deposits and withdrawals of an account over a window.

use crate::api::count_i64;
use crate::domain::decimal::decimal_total;
use crate::domain::decimal::sum_decimals;
use crate::domain::decimal::Decimal;
use crate::domain::deposit::optional_view;
use crate::domain::deposit::Deposit;
use crate::domain::ordering::lemma_text_order_facts;
use crate::error::AppError;
use crate::sorting::is_stable_sort_of;
use crate::sorting::sort_ranked;
use crate::sorting::Ranked;
use crate::text::str_less;
use crate::text::text_less;
use vstd::prelude::*;

verus! {

/// The query for deposits.
#[derive(Debug)]
pub struct DepositsQuery {
    pub user: String,
    pub from_ms: Option<i64>,
    pub to_ms: Option<i64>,
}

/// One deposit or withdrawal.
#[derive(Debug, PartialEq, Eq)]
pub struct DepositDto {
    pub time_ms: i64,
    pub amount: String,
    pub tx_hash: Option<String>,
}

/// The deposits of an account.
#[derive(Debug, PartialEq, Eq)]
pub struct DepositsResponse {
    pub total_deposits: String,
    pub deposit_count: i64,
    pub deposits: Vec<DepositDto>,
}

/// Deposit `a` comes before deposit `b`: by time, then by event key.
pub open spec fn deposit_before(a: Deposit, b: Deposit) -> bool {
    a.time_ms.0 < b.time_ms.0 || (a.time_ms.0 == b.time_ms.0 && text_less(
        a.event_key@,
        b.event_key@,
    ))
}

impl Ranked for Deposit {
    open spec fn before(&self, other: &Deposit) -> bool {
        deposit_before(*self, *other)
    }

    fn comes_before(&self, other: &Deposit) -> (r: bool) {
        if self.time_ms.as_ms() != other.time_ms.as_ms() {
            return self.time_ms.as_ms() < other.time_ms.as_ms();
        }
        str_less(self.event_key.as_str(), other.event_key.as_str())
    }

    proof fn lemma_irreflexive(a: &Deposit) {
        lemma_text_order_facts(a.event_key@, a.event_key@, a.event_key@);
    }

    proof fn lemma_transitive(a: &Deposit, b: &Deposit, c: &Deposit) {
        lemma_text_order_facts(a.event_key@, b.event_key@, c.event_key@);
    }

    proof fn lemma_not_before_transitive(a: &Deposit, b: &Deposit, c: &Deposit) {
        lemma_text_order_facts(a.event_key@, b.event_key@, c.event_key@);
    }
}

/// The amount of each deposit, in order.
pub open spec fn amounts(deposits: Seq<Deposit>) -> Seq<Decimal> {
    Seq::new(deposits.len(), |i: int| deposits[i].amount)
}

/// The entry shows the deposit.
pub open spec fn shows_deposit(dto: DepositDto, deposit: Deposit) -> bool {
    &&& dto.time_ms == deposit.time_ms.0
    &&& dto.amount@ == deposit.amount.canonical_text()
    &&& optional_view(dto.tx_hash) == optional_view(deposit.tx_hash)
}

/// The answer is that for the deposits in the order given: each deposit shown,
/// their number and their total, or an internal error where the total is out of
/// range.
pub open spec fn answers(deposits: Seq<Deposit>, r: Result<DepositsResponse, AppError>) -> bool {
    match decimal_total(amounts(deposits)) {
        Some(total) => r matches Ok(response) && response.total_deposits@
            == total.canonical_text() && response.deposit_count == (if deposits.len() <= i64::MAX {
            deposits.len() as int
        } else {
            i64::MAX as int
        }) && response.deposits@.len() == deposits.len() && forall|i: int|
            0 <= i < deposits.len() ==> shows_deposit(#[trigger] response.deposits@[i], deposits[i]),
        None => r matches Err(AppError::Internal(_)),
    }
}

/// The answer for deposits in the order given: each deposit shown, their number,
/// and the total of their amounts. A total out of range is an internal error.
pub fn deposits_in_order(deposits: &Vec<Deposit>) -> (r: Result<DepositsResponse, AppError>)
    ensures
        answers(deposits@, r),
{
    let mut values: Vec<Decimal> = Vec::new();
    let mut dtos: Vec<DepositDto> = Vec::new();
    let mut i: usize = 0;
    while i < deposits.len()
        invariant
            i <= deposits@.len(),
            values@ == amounts(deposits@.take(i as int)),
            dtos@.len() == i,
            forall|k: int| 0 <= k < i ==> shows_deposit(#[trigger] dtos@[k], deposits@[k]),
        decreases deposits@.len() - i,
    {
        let d = &deposits[i];
        values.push(d.amount);
        dtos.push(
            DepositDto {
                time_ms: d.time_ms.as_ms(),
                amount: d.amount.to_canonical_string(),
                tx_hash: match &d.tx_hash {
                    Some(t) => Some(t.clone()),
                    None => None,
                },
            },
        );
        proof {
            assert(values@ =~= amounts(deposits@.take(i + 1)));
        }
        i += 1;
    }
    assert(deposits@.take(i as int) =~= deposits@);
    match sum_decimals(&values) {
        Some(total) => Ok(
            DepositsResponse {
                total_deposits: total.to_canonical_string(),
                deposit_count: count_i64(deposits.len()),
                deposits: dtos,
            },
        ),
        None => Err(AppError::internal("total deposits out of range")),
    }
}

/// The answer is that for the deposits of a window: for the deposits by time and
/// then by event key, their total added up in that order.
pub open spec fn answers_deposits(deposits: Seq<Deposit>, r: Result<DepositsResponse, AppError>)
    -> bool {
    exists|ordered: Seq<Deposit>|
        #![trigger is_stable_sort_of(ordered, deposits)]
        is_stable_sort_of(ordered, deposits) && answers(ordered, r)
}

/// Two entries show the same.
pub open spec fn same_deposit(a: DepositDto, b: DepositDto) -> bool {
    &&& a.time_ms == b.time_ms
    &&& a.amount@ == b.amount@
    &&& optional_view(a.tx_hash) == optional_view(b.tx_hash)
}

/// The same query over the same deposits has one answer.
pub proof fn lemma_deposits_answer_determined(
    deposits: Seq<Deposit>,
    first: Result<DepositsResponse, AppError>,
    second: Result<DepositsResponse, AppError>,
)
    requires
        answers_deposits(deposits, first),
        answers_deposits(deposits, second),
    ensures
        first is Ok == second is Ok,
        first matches Ok(x) ==> second matches Ok(y) && x.total_deposits@ == y.total_deposits@
            && x.deposit_count == y.deposit_count && x.deposits@.len() == y.deposits@.len()
            && forall|i: int|
            0 <= i < x.deposits@.len() ==> same_deposit(#[trigger] x.deposits@[i], y.deposits@[i]),
{
    let a = choose|ordered: Seq<Deposit>|
        #![trigger is_stable_sort_of(ordered, deposits)]
        is_stable_sort_of(ordered, deposits) && answers(ordered, first);
    let b = choose|ordered: Seq<Deposit>|
        #![trigger is_stable_sort_of(ordered, deposits)]
        is_stable_sort_of(ordered, deposits) && answers(ordered, second);
    crate::sorting::lemma_stable_sort_unique(a, b, deposits);
    if first is Ok {
        let x = first->Ok_0;
        let y = second->Ok_0;
        assert forall|i: int| 0 <= i < x.deposits@.len() implies same_deposit(
            #[trigger] x.deposits@[i],
            y.deposits@[i],
        ) by {
            assert(shows_deposit(x.deposits@[i], a[i]));
            assert(shows_deposit(y.deposits@[i], a[i]));
        }
    }
}

/// The answer for the deposits of a window: the deposits by time and then by
/// event key, and their total, added up in that order.
pub fn deposits_response(deposits: Vec<Deposit>) -> (r: Result<DepositsResponse, AppError>)
    ensures
        answers_deposits(deposits@, r),
{
    let mut ordered = deposits;
    sort_ranked(&mut ordered);
    let r = deposits_in_order(&ordered);
    assert(is_stable_sort_of(ordered@, deposits@));
    r
}

} // verus!
