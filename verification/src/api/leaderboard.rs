//! The leaderboard: the configured accounts ranked by volume, realized profit and
//! loss, or return.

use crate::api::count_i64;
use crate::api::pnl::capital;
use crate::api::pnl::contains_id;
use crate::api::pnl::effective_capital;
use crate::api::pnl::is_clean;
use crate::api::pnl::realized_in_mode;
use crate::api::pnl::return_pct;
use crate::api::pnl::return_percent;
use crate::config::PnlMode;
use crate::db::LeaderboardFillEffect;
use crate::domain::decimal::decimal_total;
use crate::domain::decimal::lemma_decimal_order;
use crate::domain::decimal::sum_decimals;
use crate::domain::decimal::Decimal;
use crate::domain::ordering::lemma_text_order_facts;
use crate::domain::primitives::address_fault;
use crate::domain::primitives::Address;
use crate::error::AppError;
use crate::sorting::is_sorted;
use crate::sorting::is_stable_sort_of;
use crate::sorting::sort_ranked;
use crate::sorting::Ranked;
use crate::text::ascii_lower;
use crate::text::kept_parts;
use crate::text::str_equal;
use crate::text::str_less;
use crate::text::text_less;
use crate::text::texts;
use crate::text::to_ascii_lower;
use crate::text::trim;
use crate::text::trim_and_keep;
use crate::text::trimmed;
use std::str::FromStr;
use vstd::prelude::*;

verus! {

/// What the leaderboard ranks by.
#[derive(Debug, Clone, Copy, PartialEq, Eq, Structural)]
pub enum LeaderboardMetric {
    /// The notional traded.
    Volume,
    /// Realized profit and loss.
    Pnl,
    /// Realized profit and loss in percent of the starting capital.
    ReturnPct,
}

/// The metric that a text names, trimmed and in any ASCII case.
pub open spec fn metric_of(text: Seq<char>) -> Option<LeaderboardMetric> {
    let t = ascii_lower(trimmed(text));
    if t == "volume"@ {
        Some(LeaderboardMetric::Volume)
    } else if t == "pnl"@ {
        Some(LeaderboardMetric::Pnl)
    } else if t == "returnpct"@ {
        Some(LeaderboardMetric::ReturnPct)
    } else {
        None
    }
}

impl LeaderboardMetric {
    /// The metric that a text names: `volume`, `pnl` or `returnPct`.
    pub fn parse(s: &str) -> (r: Option<LeaderboardMetric>)
        ensures
            r == metric_of(s@),
    {
        let folded = to_ascii_lower(trim(s));
        let t = folded.as_str();
        if str_equal(t, "volume") {
            Some(LeaderboardMetric::Volume)
        } else if str_equal(t, "pnl") {
            Some(LeaderboardMetric::Pnl)
        } else if str_equal(t, "returnpct") {
            Some(LeaderboardMetric::ReturnPct)
        } else {
            None
        }
    }

    /// The metric of a query: it must be given and be one of the three.
    pub fn of_query(metric: Option<&str>) -> (r: Result<LeaderboardMetric, AppError>)
        ensures
            match metric {
                None => r matches Err(AppError::BadRequest(m)) && m@ == "metric is required"@,
                Some(t) => match metric_of(t@) {
                    Some(found) => r matches Ok(v) && v == found,
                    None => r matches Err(AppError::BadRequest(m)) && m@
                        == "metric must be one of: volume, pnl, returnPct"@,
                },
            },
    {
        match metric {
            None => Err(AppError::bad_request("metric is required")),
            Some(t) => match LeaderboardMetric::parse(t) {
                Some(found) => Ok(found),
                None => Err(AppError::bad_request("metric must be one of: volume, pnl, returnPct")),
            },
        }
    }
}

impl FromStr for LeaderboardMetric {
    type Err = ();

    /// The metric that the text names, as `parse` reads it; an error where it
    /// names none.
    fn from_str(s: &str) -> (r: Result<LeaderboardMetric, ()>)
        ensures
            match metric_of(s@) {
                Some(found) => r == Ok::<LeaderboardMetric, ()>(found),
                None => r is Err,
            },
    {
        match LeaderboardMetric::parse(s) {
            Some(metric) => Ok(metric),
            None => Err(()),
        }
    }
}

/// The query for the leaderboard.
#[derive(Debug)]
pub struct LeaderboardQuery {
    pub coin: Option<String>,
    pub from_ms: Option<i64>,
    pub to_ms: Option<i64>,
    pub metric: Option<String>,
    pub builder_only: Option<bool>,
    pub max_start_capital: Option<String>,
}

/// One line of the leaderboard.
#[derive(Debug, PartialEq, Eq)]
pub struct LeaderboardEntry {
    pub rank: i64,
    pub user: String,
    pub metric_value: String,
    pub trade_count: i64,
    /// Set for builder-only queries: whether effects of the account were left out.
    pub tainted: Option<bool>,
}

/// The metric of one account.
#[derive(Debug)]
pub struct UserMetric {
    pub user: Address,
    pub metric_value: Decimal,
    pub metric_value_str: String,
    pub trade_count: i64,
    pub tainted: bool,
}

impl Ranked for Address {
    open spec fn before(&self, other: &Address) -> bool {
        text_less(self.0@, other.0@)
    }

    fn comes_before(&self, other: &Address) -> (r: bool) {
        str_less(self.as_str(), other.as_str())
    }

    proof fn lemma_irreflexive(a: &Address) {
        lemma_text_order_facts(a.0@, a.0@, a.0@);
    }

    proof fn lemma_transitive(a: &Address, b: &Address, c: &Address) {
        lemma_text_order_facts(a.0@, b.0@, c.0@);
    }

    proof fn lemma_not_before_transitive(a: &Address, b: &Address, c: &Address) {
        lemma_text_order_facts(a.0@, b.0@, c.0@);
    }
}

/// The texts of addresses.
pub open spec fn address_texts(v: Seq<Address>) -> Seq<Seq<char>> {
    Seq::new(v.len(), |i: int| v[i].0@)
}

/// Every text of `a` occurs in `b`.
pub open spec fn texts_covered_by(a: Seq<Seq<char>>, b: Seq<Seq<char>>) -> bool {
    forall|k: int| 0 <= k < a.len() ==> b.contains(#[trigger] a[k])
}

/// Strictly increasing in the order of texts.
pub open spec fn texts_increasing(a: Seq<Seq<char>>) -> bool {
    forall|i: int, j: int| 0 <= i < j < a.len() ==> text_less(a[i], a[j])
}

/// Every text is an address.
pub open spec fn all_addresses(a: Seq<Seq<char>>) -> bool {
    forall|k: int|
        0 <= k < a.len() ==> address_fault(vstd::utf8::encode_utf8(#[trigger] a[k])) is None
}

/// The accounts of the leaderboard: the configured texts trimmed, the empty ones
/// left out, each an address, in increasing order and each once. A text that is
/// not an address is an internal error, for the configuration is at fault.
pub fn parse_leaderboard_users(users: &Vec<String>) -> (r: Result<Vec<Address>, AppError>)
    ensures
        match r {
            Ok(parsed) => {
                &&& all_addresses(kept_parts(texts(users@)))
                &&& texts_increasing(address_texts(parsed@))
                &&& texts_covered_by(address_texts(parsed@), kept_parts(texts(users@)))
                &&& texts_covered_by(kept_parts(texts(users@)), address_texts(parsed@))
            },
            Err(e) => !all_addresses(kept_parts(texts(users@))) && (e matches AppError::Internal(m)
                && m@ == "Invalid leaderboard user address in config"@),
        },
{
    let kept = trim_and_keep(users);
    let ghost wanted = kept_parts(texts(users@));
    let mut parsed: Vec<Address> = Vec::new();
    let mut i: usize = 0;
    while i < kept.len()
        invariant
            i <= kept@.len(),
            wanted == texts(kept@),
            wanted == kept_parts(texts(users@)),
            parsed@.len() == i,
            forall|k: int| 0 <= k < i ==> (#[trigger] parsed@[k]).0@ == kept@[k]@,
            forall|k: int|
                0 <= k < i ==> address_fault(vstd::utf8::encode_utf8(#[trigger] wanted[k]))
                    is None,
        decreases kept@.len() - i,
    {
        assert(wanted[i as int] == kept@[i as int]@);
        match Address::parse(kept[i].as_str()) {
            Ok(address) => {
                parsed.push(address);
            },
            Err(_) => {
                assert(address_fault(vstd::utf8::encode_utf8(wanted[i as int])) is Some);
                assert(!all_addresses(wanted));
                return Err(AppError::internal("Invalid leaderboard user address in config"));
            },
        }
        i += 1;
    }
    let ghost all = parsed@;
    assert(address_texts(all) =~= wanted);
    sort_ranked(&mut parsed);
    proof {
        parsed@.to_multiset_ensures();
        all.to_multiset_ensures();
        assert forall|k: int| 0 <= k < parsed@.len() implies wanted.contains(
            (#[trigger] parsed@[k]).0@,
        ) by {
            assert(parsed@.contains(parsed@[k]));
            assert(parsed@.to_multiset().count(parsed@[k]) > 0);
            assert(all.contains(parsed@[k]));
            let m = choose|m: int| 0 <= m < all.len() && all[m] == parsed@[k];
            assert(wanted[m] == parsed@[k].0@);
        }
        assert forall|k: int| 0 <= k < wanted.len() implies address_texts(parsed@).contains(
            #[trigger] wanted[k],
        ) by {
            assert(all.contains(all[k]));
            assert(all.to_multiset().count(all[k]) > 0);
            assert(parsed@.contains(all[k]));
            let m = choose|m: int| 0 <= m < parsed@.len() && parsed@[m] == all[k];
            assert(address_texts(parsed@)[m] == wanted[k]);
        }
    }
    let mut out: Vec<Address> = Vec::new();
    let mut j: usize = 0;
    while j < parsed.len()
        invariant
            j <= parsed@.len(),
            is_sorted(parsed@),
            texts_increasing(address_texts(out@)),
            forall|k: int|
                0 <= k < out@.len() ==> address_texts(parsed@).contains((#[trigger] out@[k]).0@),
            forall|k: int|
                0 <= k < j ==> address_texts(out@).contains((#[trigger] parsed@[k]).0@),
            out@.len() > 0 ==> j > 0 && out@.last().0@ == parsed@[j - 1].0@,
        decreases parsed@.len() - j,
    {
        let ghost before = out@;
        let fresh = out.len() == 0 || !str_equal(
            out[out.len() - 1].as_str(),
            parsed[j].as_str(),
        );
        if fresh {
            proof {
                if before.len() > 0 {
                    assert(!parsed@[j as int].before(&parsed@[j - 1]));
                    lemma_text_order_facts(
                        parsed@[j - 1].0@,
                        parsed@[j as int].0@,
                        parsed@[j as int].0@,
                    );
                    assert(text_less(before.last().0@, parsed@[j as int].0@));
                    assert forall|a: int| 0 <= a < before.len() implies text_less(
                        before[a].0@,
                        parsed@[j as int].0@,
                    ) by {
                        if a < before.len() - 1 {
                            assert(text_less(
                                address_texts(before)[a],
                                address_texts(before)[before.len() - 1],
                            ));
                            lemma_text_order_facts(
                                before[a].0@,
                                before.last().0@,
                                parsed@[j as int].0@,
                            );
                        }
                    }
                }
            }
            out.push(parsed[j].clone());
            proof {
                assert forall|a: int, b: int| 0 <= a < b < out@.len() implies text_less(
                    address_texts(out@)[a],
                    address_texts(out@)[b],
                ) by {
                    if b < before.len() {
                        assert(text_less(address_texts(before)[a], address_texts(before)[b]));
                    } else {
                        assert(out@[a] == before[a]);
                    }
                }
            }
        }
        proof {
            assert forall|k: int| 0 <= k < out@.len() implies address_texts(parsed@).contains(
                (#[trigger] out@[k]).0@,
            ) by {
                if k < before.len() {
                    assert(out@[k] == before[k]);
                } else {
                    assert(address_texts(parsed@)[j as int] == out@[k].0@);
                }
            }
            assert forall|k: int| 0 <= k < j + 1 implies address_texts(out@).contains(
                (#[trigger] parsed@[k]).0@,
            ) by {
                if k < j {
                    assert(address_texts(before).contains(parsed@[k].0@));
                    let m = choose|m: int|
                        0 <= m < address_texts(before).len() && address_texts(before)[m]
                            == parsed@[k].0@;
                    assert(address_texts(out@)[m] == parsed@[k].0@);
                } else {
                    assert(address_texts(out@)[out@.len() - 1] == parsed@[k].0@);
                }
            }
        }
        j += 1;
    }
    proof {
        assert forall|k: int| 0 <= k < address_texts(out@).len() implies wanted.contains(
            #[trigger] address_texts(out@)[k],
        ) by {
            assert(address_texts(parsed@).contains(out@[k].0@));
            let m = choose|m: int|
                0 <= m < address_texts(parsed@).len() && address_texts(parsed@)[m] == out@[k].0@;
            assert(wanted.contains(parsed@[m].0@));
        }
        assert forall|k: int| 0 <= k < wanted.len() implies address_texts(out@).contains(
            #[trigger] wanted[k],
        ) by {
            assert(address_texts(parsed@).contains(wanted[k]));
            let m = choose|m: int|
                0 <= m < address_texts(parsed@).len() && address_texts(parsed@)[m] == wanted[k];
            assert(address_texts(out@).contains(parsed@[m].0@));
        }
    }
    Ok(out)
}

/// Leaves out the effects of tainted lifecycles and says whether any was left
/// out.
pub fn filter_effects_builder_only(
    effects: Vec<LeaderboardFillEffect>,
    tainted_ids: &Vec<i64>,
) -> (r: (Vec<LeaderboardFillEffect>, bool))
    ensures
        r.0@ == effects@.filter(|e: LeaderboardFillEffect| is_clean(tainted_ids@, e.lifecycle_id)),
        r.1 == exists|i: int|
            0 <= i < effects@.len() && !is_clean(
                tainted_ids@,
                (#[trigger] effects@[i]).lifecycle_id,
            ),
{
    let ghost keep = |e: LeaderboardFillEffect| is_clean(tainted_ids@, e.lifecycle_id);
    let mut kept: Vec<LeaderboardFillEffect> = Vec::new();
    let mut excluded = false;
    let mut i: usize = 0;
    proof {
        reveal(Seq::filter);
        assert(effects@.take(0) =~= Seq::<LeaderboardFillEffect>::empty());
    }
    while i < effects.len()
        invariant
            i <= effects@.len(),
            keep == |e: LeaderboardFillEffect| is_clean(tainted_ids@, e.lifecycle_id),
            kept@ == effects@.take(i as int).filter(keep),
            excluded == exists|k: int|
                0 <= k < i && !is_clean(tainted_ids@, (#[trigger] effects@[k]).lifecycle_id),
        decreases effects@.len() - i,
    {
        proof {
            reveal(Seq::filter);
            assert(effects@.take(i + 1).drop_last() =~= effects@.take(i as int));
            assert(effects@.take(i + 1).last() == effects@[i as int]);
        }
        if contains_id(tainted_ids, effects[i].lifecycle_id) {
            excluded = true;
        } else {
            let e = &effects[i];
            kept.push(
                LeaderboardFillEffect {
                    fill_key: e.fill_key.clone(),
                    lifecycle_id: e.lifecycle_id,
                    notional: e.notional,
                    fee: e.fee,
                    closed_pnl: e.closed_pnl,
                },
            );
        }
        i += 1;
    }
    assert(effects@.take(i as int) =~= effects@);
    (kept, excluded)
}

/// The number of different fill keys among the effects: the effects whose key no
/// earlier effect has.
pub open spec fn distinct_fills(effects: Seq<LeaderboardFillEffect>) -> nat
    decreases effects.len(),
{
    if effects.len() == 0 {
        0
    } else {
        let rest = distinct_fills(effects.drop_last());
        if exists|k: int|
            0 <= k < effects.len() - 1 && (#[trigger] effects[k]).fill_key@
                == effects.last().fill_key@ {
            rest
        } else {
            rest + 1
        }
    }
}

/// The number of different fill keys among the effects.
pub fn count_distinct_fills(effects: &Vec<LeaderboardFillEffect>) -> (r: usize)
    ensures
        r == distinct_fills(effects@),
        r <= effects@.len(),
{
    let mut count: usize = 0;
    let mut i: usize = 0;
    assert(effects@.take(0) =~= Seq::<LeaderboardFillEffect>::empty());
    while i < effects.len()
        invariant
            i <= effects@.len(),
            count == distinct_fills(effects@.take(i as int)),
            count <= i,
        decreases effects@.len() - i,
    {
        let mut seen = false;
        let mut k: usize = 0;
        while k < i
            invariant
                k <= i,
                i < effects@.len(),
                seen == exists|m: int|
                    0 <= m < k && (#[trigger] effects@[m]).fill_key@ == effects@[i as int].fill_key@,
            decreases i - k,
        {
            if str_equal(effects[k].fill_key.as_str(), effects[i].fill_key.as_str()) {
                seen = true;
            }
            k += 1;
        }
        proof {
            let longer = effects@.take(i + 1);
            assert(longer.drop_last() =~= effects@.take(i as int));
            assert(longer.last() == effects@[i as int]);
            if seen {
                let m = choose|m: int|
                    0 <= m < i && (#[trigger] effects@[m]).fill_key@ == effects@[i as int].fill_key@;
                assert(longer[m].fill_key@ == longer.last().fill_key@);
            } else {
                if exists|m: int|
                    0 <= m < longer.len() - 1 && (#[trigger] longer[m]).fill_key@
                        == longer.last().fill_key@ {
                    let m = choose|m: int|
                        0 <= m < longer.len() - 1 && (#[trigger] longer[m]).fill_key@
                            == longer.last().fill_key@;
                    assert(effects@[m].fill_key@ == effects@[i as int].fill_key@);
                }
            }
        }
        if !seen {
            count += 1;
        }
        i += 1;
    }
    assert(effects@.take(i as int) =~= effects@);
    count
}

/// The notional of each effect, in order.
pub open spec fn notionals(effects: Seq<LeaderboardFillEffect>) -> Seq<Decimal> {
    Seq::new(effects.len(), |i: int| effects[i].notional)
}

/// The closed profit and loss of each effect, in order.
pub open spec fn board_pnls(effects: Seq<LeaderboardFillEffect>) -> Seq<Decimal> {
    Seq::new(effects.len(), |i: int| effects[i].closed_pnl)
}

/// The fee of each effect, in order.
pub open spec fn board_fees(effects: Seq<LeaderboardFillEffect>) -> Seq<Decimal> {
    Seq::new(effects.len(), |i: int| effects[i].fee)
}

/// The value of a metric for the effects of an account, `None` where a figure is
/// out of range. Volume is the total notional; profit and loss is the realized
/// figure in the mode; the return is that figure in percent of the effective
/// capital.
pub open spec fn metric_value(
    effects: Seq<LeaderboardFillEffect>,
    metric: LeaderboardMetric,
    mode: PnlMode,
    equity_at_start: Decimal,
    cap: Option<Decimal>,
) -> Option<Decimal> {
    match (
        decimal_total(notionals(effects)),
        decimal_total(board_pnls(effects)),
        decimal_total(board_fees(effects)),
    ) {
        (Some(volume), Some(gross), Some(fees_paid)) => match realized_in_mode(
            gross,
            fees_paid,
            mode,
        ) {
            Some(realized) => match metric {
                LeaderboardMetric::Volume => Some(volume),
                LeaderboardMetric::Pnl => Some(realized),
                LeaderboardMetric::ReturnPct => return_percent(
                    realized,
                    effective_capital(equity_at_start, cap),
                ),
            },
            None => None,
        },
        _ => None,
    }
}

/// The metric of one account from its effects. The trade count is the number of
/// different fills among them. A figure out of range is an internal error.
pub fn compute_user_metric(
    user: Address,
    effects: &Vec<LeaderboardFillEffect>,
    tainted: bool,
    metric: LeaderboardMetric,
    pnl_mode: PnlMode,
    equity_at_start: Decimal,
    max_start_capital: Option<Decimal>,
) -> (r: Result<UserMetric, AppError>)
    ensures
        match metric_value(effects@, metric, pnl_mode, equity_at_start, max_start_capital) {
            Some(value) => r matches Ok(m) && m.user == user && m.metric_value == value
                && m.metric_value_str@ == value.canonical_text() && m.trade_count == (
            if distinct_fills(effects@) <= i64::MAX {
                distinct_fills(effects@) as int
            } else {
                i64::MAX as int
            }) && m.tainted == tainted,
            None => r matches Err(AppError::Internal(_)),
        },
{
    let mut volumes: Vec<Decimal> = Vec::new();
    let mut pnls: Vec<Decimal> = Vec::new();
    let mut fee_list: Vec<Decimal> = Vec::new();
    let mut i: usize = 0;
    while i < effects.len()
        invariant
            i <= effects@.len(),
            volumes@ == notionals(effects@.take(i as int)),
            pnls@ == board_pnls(effects@.take(i as int)),
            fee_list@ == board_fees(effects@.take(i as int)),
        decreases effects@.len() - i,
    {
        volumes.push(effects[i].notional);
        pnls.push(effects[i].closed_pnl);
        fee_list.push(effects[i].fee);
        proof {
            assert(volumes@ =~= notionals(effects@.take(i + 1)));
            assert(pnls@ =~= board_pnls(effects@.take(i + 1)));
            assert(fee_list@ =~= board_fees(effects@.take(i + 1)));
        }
        i += 1;
    }
    assert(effects@.take(i as int) =~= effects@);
    let volume = match sum_decimals(&volumes) {
        Some(v) => v,
        None => {
            return Err(AppError::internal("volume out of range"));
        },
    };
    let gross = match sum_decimals(&pnls) {
        Some(v) => v,
        None => {
            return Err(AppError::internal("realized pnl out of range"));
        },
    };
    let fees_paid = match sum_decimals(&fee_list) {
        Some(v) => v,
        None => {
            return Err(AppError::internal("fees out of range"));
        },
    };
    let realized = match pnl_mode {
        PnlMode::Gross => gross,
        PnlMode::Net => match gross.checked_sub(&fees_paid) {
            Some(v) => v,
            None => {
                return Err(AppError::internal("realized pnl out of range"));
            },
        },
    };
    let value = match metric {
        LeaderboardMetric::Volume => volume,
        LeaderboardMetric::Pnl => realized,
        LeaderboardMetric::ReturnPct => match return_pct(
            realized,
            capital(equity_at_start, max_start_capital),
        ) {
            Some(v) => v,
            None => {
                return Err(AppError::internal("return out of range"));
            },
        },
    };
    let trade_count = count_i64(count_distinct_fills(effects));
    Ok(
        UserMetric {
            user,
            metric_value: value,
            metric_value_str: value.to_canonical_string(),
            trade_count,
            tainted,
        },
    )
}

/// `a` ranks above `b`: by the larger metric, then by the larger trade count,
/// then by the smaller address.
pub open spec fn ranks_above(a: UserMetric, b: UserMetric) -> bool {
    b.metric_value.less_than(&a.metric_value) || (!a.metric_value.less_than(&b.metric_value) && (
    a.trade_count > b.trade_count || (a.trade_count == b.trade_count && text_less(
        a.user.0@,
        b.user.0@,
    ))))
}

impl Ranked for UserMetric {
    open spec fn before(&self, other: &UserMetric) -> bool {
        ranks_above(*self, *other)
    }

    fn comes_before(&self, other: &UserMetric) -> (r: bool) {
        if other.metric_value.lt(&self.metric_value) {
            return true;
        }
        if self.metric_value.lt(&other.metric_value) {
            return false;
        }
        if self.trade_count != other.trade_count {
            return self.trade_count > other.trade_count;
        }
        str_less(self.user.as_str(), other.user.as_str())
    }

    proof fn lemma_irreflexive(a: &UserMetric) {
        lemma_decimal_order(a.metric_value, a.metric_value, a.metric_value);
        lemma_text_order_facts(a.user.0@, a.user.0@, a.user.0@);
    }

    proof fn lemma_transitive(a: &UserMetric, b: &UserMetric, c: &UserMetric) {
        lemma_metric_order(a.metric_value, b.metric_value, c.metric_value);
        lemma_text_order_facts(a.user.0@, b.user.0@, c.user.0@);
    }

    proof fn lemma_not_before_transitive(a: &UserMetric, b: &UserMetric, c: &UserMetric) {
        lemma_metric_order(a.metric_value, b.metric_value, c.metric_value);
        lemma_text_order_facts(a.user.0@, b.user.0@, c.user.0@);
        lemma_text_order_facts(c.user.0@, b.user.0@, a.user.0@);
    }
}

/// The order of three decimals, every way round.
pub proof fn lemma_metric_order(a: Decimal, b: Decimal, c: Decimal)
    ensures
        !(a.less_than(&b) && b.less_than(&a)),
        !(b.less_than(&c) && c.less_than(&b)),
        !(a.less_than(&c) && c.less_than(&a)),
        a.less_than(&b) && b.less_than(&c) ==> a.less_than(&c),
        a.less_than(&c) && c.less_than(&b) ==> a.less_than(&b),
        b.less_than(&a) && a.less_than(&c) ==> b.less_than(&c),
        b.less_than(&c) && c.less_than(&a) ==> b.less_than(&a),
        c.less_than(&a) && a.less_than(&b) ==> c.less_than(&b),
        c.less_than(&b) && b.less_than(&a) ==> c.less_than(&a),
        !a.less_than(&b) && !b.less_than(&c) ==> !a.less_than(&c),
        !a.less_than(&c) && !c.less_than(&b) ==> !a.less_than(&b),
        !b.less_than(&a) && !a.less_than(&c) ==> !b.less_than(&c),
        !b.less_than(&c) && !c.less_than(&a) ==> !b.less_than(&a),
        !c.less_than(&a) && !a.less_than(&b) ==> !c.less_than(&b),
        !c.less_than(&b) && !b.less_than(&a) ==> !c.less_than(&a),
{
    lemma_decimal_order(a, b, c);
    lemma_decimal_order(a, c, b);
    lemma_decimal_order(b, a, c);
    lemma_decimal_order(b, c, a);
    lemma_decimal_order(c, a, b);
    lemma_decimal_order(c, b, a);
}

/// The entry at a place of the ranking.
pub open spec fn entry_at(entry: LeaderboardEntry, place: int, m: UserMetric, builder_only: bool)
    -> bool {
    &&& entry.rank == place + 1
    &&& entry.user@ == m.user.0@
    &&& entry.metric_value@ == m.metric_value_str@
    &&& entry.trade_count == m.trade_count
    &&& entry.tainted == (if builder_only {
        Some(m.tainted)
    } else {
        None
    })
}

/// The entries of a ranking, ranks from one.
pub fn entries_of(ranked: &Vec<UserMetric>, builder_only: bool) -> (r: Vec<LeaderboardEntry>)
    requires
        ranked@.len() < i64::MAX,
    ensures
        r@.len() == ranked@.len(),
        forall|i: int|
            0 <= i < r@.len() ==> entry_at(#[trigger] r@[i], i, ranked@[i], builder_only),
{
    let mut entries: Vec<LeaderboardEntry> = Vec::new();
    let mut i: usize = 0;
    while i < ranked.len()
        invariant
            i <= ranked@.len(),
            ranked@.len() < i64::MAX,
            entries@.len() == i,
            forall|k: int|
                0 <= k < i ==> entry_at(#[trigger] entries@[k], k, ranked@[k], builder_only),
        decreases ranked@.len() - i,
    {
        let m = &ranked[i];
        entries.push(
            LeaderboardEntry {
                rank: (i + 1) as i64,
                user: m.user.to_string(),
                metric_value: m.metric_value_str.clone(),
                trade_count: m.trade_count,
                tainted: if builder_only {
                    Some(m.tainted)
                } else {
                    None
                },
            },
        );
        i += 1;
    }
    entries
}

/// The entries are the ranking in the order given.
pub open spec fn ranks(entries: Seq<LeaderboardEntry>, ranked: Seq<UserMetric>, builder_only: bool)
    -> bool {
    &&& entries.len() == ranked.len()
    &&& forall|i: int|
        0 <= i < entries.len() ==> entry_at(#[trigger] entries[i], i, ranked[i], builder_only)
}

/// The entries are the leaderboard of the metrics: the accounts in the order of
/// `ranks_above`, each with its rank.
pub open spec fn is_leaderboard(
    entries: Seq<LeaderboardEntry>,
    metrics: Seq<UserMetric>,
    builder_only: bool,
) -> bool {
    exists|ranked: Seq<UserMetric>|
        #![trigger is_stable_sort_of(ranked, metrics)]
        is_stable_sort_of(ranked, metrics) && ranks(entries, ranked, builder_only)
}

/// Two entries show the same.
pub open spec fn same_entry(a: LeaderboardEntry, b: LeaderboardEntry) -> bool {
    &&& a.rank == b.rank
    &&& a.user@ == b.user@
    &&& a.metric_value@ == b.metric_value@
    &&& a.trade_count == b.trade_count
    &&& a.tainted == b.tainted
}

/// The same metrics have one leaderboard.
pub proof fn lemma_leaderboard_determined(
    metrics: Seq<UserMetric>,
    builder_only: bool,
    first: Seq<LeaderboardEntry>,
    second: Seq<LeaderboardEntry>,
)
    requires
        is_leaderboard(first, metrics, builder_only),
        is_leaderboard(second, metrics, builder_only),
    ensures
        first.len() == second.len(),
        forall|i: int| 0 <= i < first.len() ==> same_entry(#[trigger] first[i], second[i]),
{
    let a = choose|ranked: Seq<UserMetric>|
        #![trigger is_stable_sort_of(ranked, metrics)]
        is_stable_sort_of(ranked, metrics) && ranks(first, ranked, builder_only);
    let b = choose|ranked: Seq<UserMetric>|
        #![trigger is_stable_sort_of(ranked, metrics)]
        is_stable_sort_of(ranked, metrics) && ranks(second, ranked, builder_only);
    crate::sorting::lemma_stable_sort_unique(a, b, metrics);
    assert forall|i: int| 0 <= i < first.len() implies same_entry(
        #[trigger] first[i],
        second[i],
    ) by {
        assert(entry_at(first[i], i, a[i], builder_only));
        assert(entry_at(second[i], i, a[i], builder_only));
    }
}

/// The leaderboard of the metrics given: the accounts in the order of
/// `ranks_above`, each with its rank.
pub fn rank_users(metrics: Vec<UserMetric>, builder_only: bool) -> (r: Vec<LeaderboardEntry>)
    requires
        metrics@.len() < i64::MAX,
    ensures
        is_leaderboard(r@, metrics@, builder_only),
{
    let mut ranked = metrics;
    sort_ranked(&mut ranked);
    let entries = entries_of(&ranked, builder_only);
    assert(is_stable_sort_of(ranked@, metrics@));
    entries
}

} // verus!
