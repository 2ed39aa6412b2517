//! The trades of an account over a window.

use crate::compile::incremental::row_attribution;
use crate::compile::incremental::AttributionRow;
use crate::compile::incremental::Compiler;
use crate::domain::attribution::Attribution;
use crate::domain::attribution::AttributionMode;
use crate::domain::fill::Fill;
use crate::domain::ordering::canonically_sorted;
use crate::domain::ordering::sort_fills_deterministic;
use crate::sorting::is_stable_sort_of;
use crate::domain::primitives::Side;
use crate::text::str_equal;
use vstd::prelude::*;

verus! {

/// The query for trades.
#[derive(Debug)]
pub struct TradesQuery {
    pub user: String,
    pub coin: Option<String>,
    pub from_ms: Option<i64>,
    pub to_ms: Option<i64>,
    pub builder_only: Option<bool>,
}

/// One trade, every decimal in its canonical text.
#[derive(Debug, PartialEq, Eq)]
pub struct TradeDto {
    pub time_ms: i64,
    pub coin: String,
    pub side: String,
    pub px: String,
    pub sz: String,
    pub fee: String,
    pub closed_pnl: String,
    /// The builder, for a fill that the logs attribute to it.
    pub builder: Option<String>,
}

/// The trades of an account.
#[derive(Debug, PartialEq, Eq)]
pub struct TradesResponse {
    pub trades: Vec<TradeDto>,
    /// Set for builder-only queries: whether fills were left out. It speaks of
    /// fills, not of lifecycles.
    pub tainted: Option<bool>,
}

/// The fill is attributed: the rows hold an attribution for it that says so.
pub open spec fn is_attributed(rows: Seq<AttributionRow>, fill: Fill) -> bool {
    row_attribution(rows, fill.fill_key@) matches Some(a) && a.attributed
}

/// The builder shown for a fill: the one its attribution names, where the fill is
/// attributed by the logs.
pub open spec fn shown_builder(rows: Seq<AttributionRow>, fill: Fill) -> Option<Seq<char>> {
    match row_attribution(rows, fill.fill_key@) {
        Some(a) => if a.attributed && a.mode == AttributionMode::Logs {
            match a.builder {
                Some(b) => Some(b.0@),
                None => None,
            }
        } else {
            None
        },
        None => None,
    }
}

/// The entry shows the fill.
pub open spec fn shows_fill(dto: TradeDto, fill: Fill, rows: Seq<AttributionRow>) -> bool {
    &&& dto.time_ms == fill.time_ms.0
    &&& dto.coin@ == fill.coin.0@
    &&& dto.side@ == (if fill.side == Side::Buy {
        "buy"@
    } else {
        "sell"@
    })
    &&& dto.px@ == fill.px.canonical_text()
    &&& dto.sz@ == fill.sz.canonical_text()
    &&& dto.fee@ == fill.fee.canonical_text()
    &&& dto.closed_pnl@ == fill.closed_pnl.canonical_text()
    &&& (match dto.builder {
        Some(b) => Some(b@),
        None => None,
    }) == shown_builder(rows, fill)
}

/// The fills that a query shows: all of them, or, builder-only, those that are
/// attributed.
pub open spec fn shown_fills(fills: Seq<Fill>, rows: Seq<AttributionRow>, builder_only: bool)
    -> Seq<Fill> {
    if builder_only {
        fills.filter(|fill: Fill| is_attributed(rows, fill))
    } else {
        fills
    }
}

/// The attribution that the rows hold for a fill key: that of the last row for
/// it.
pub fn find_attribution(rows: &Vec<AttributionRow>, fill_key: &str) -> (r: Option<Attribution>)
    ensures
        r == row_attribution(rows@, fill_key@),
{
    let mut i: usize = rows.len();
    assert(rows@.take(i as int) =~= rows@);
    while i > 0
        invariant
            i <= rows@.len(),
            row_attribution(rows@, fill_key@) == row_attribution(rows@.take(i as int), fill_key@),
        decreases i,
    {
        let ghost prefix = rows@.take(i as int);
        assert(prefix.last() == rows@[i - 1]);
        assert(prefix.drop_last() =~= rows@.take(i - 1));
        if str_equal(rows[i - 1].fill_key.as_str(), fill_key) {
            return Some(Compiler::attribution_from_row(&rows[i - 1]));
        }
        i -= 1;
    }
    None
}

/// The answer for fills in the order given. Builder-only, the fills that are not
/// attributed are left out and the answer says whether there were any.
pub fn trades_in_order(fills: &Vec<Fill>, rows: &Vec<AttributionRow>, builder_only: bool) -> (r:
    TradesResponse)
    ensures
        answers_in_order(fills@, rows@, builder_only, r),
{
    let ghost keep = |fill: Fill| is_attributed(rows@, fill);
    let mut trades: Vec<TradeDto> = Vec::new();
    let mut excluded = false;
    let mut i: usize = 0;
    proof {
        reveal(Seq::filter);
        assert(fills@.take(0) =~= Seq::<Fill>::empty());
    }
    while i < fills.len()
        invariant
            i <= fills@.len(),
            keep == |fill: Fill| is_attributed(rows@, fill),
            excluded == exists|k: int| 0 <= k < i && !is_attributed(rows@, #[trigger] fills@[k]),
            trades@.len() == shown_fills(fills@.take(i as int), rows@, builder_only).len(),
            forall|k: int|
                0 <= k < trades@.len() ==> shows_fill(
                    #[trigger] trades@[k],
                    shown_fills(fills@.take(i as int), rows@, builder_only)[k],
                    rows@,
                ),
        decreases fills@.len() - i,
    {
        let fill = &fills[i];
        let ghost shown_before = shown_fills(fills@.take(i as int), rows@, builder_only);
        proof {
            reveal(Seq::filter);
            assert(fills@.take(i + 1).drop_last() =~= fills@.take(i as int));
            assert(fills@.take(i + 1).last() == fills@[i as int]);
            if !builder_only {
                assert(fills@.take(i + 1) =~= shown_before.push(fills@[i as int]));
            }
        }
        let attribution = find_attribution(rows, fill.fill_key());
        let attributed = match &attribution {
            Some(a) => a.attributed,
            None => false,
        };
        if !attributed {
            excluded = true;
        }
        if !builder_only || attributed {
            let builder = match &attribution {
                Some(a) => if a.attributed && a.mode == AttributionMode::Logs {
                    match &a.builder {
                        Some(b) => Some(b.to_string()),
                        None => None,
                    }
                } else {
                    None
                },
                None => None,
            };
            trades.push(
                TradeDto {
                    time_ms: fill.time_ms.as_ms(),
                    coin: fill.coin.to_string(),
                    side: fill.side.to_string(),
                    px: fill.px.to_canonical_string(),
                    sz: fill.sz.to_canonical_string(),
                    fee: fill.fee.to_canonical_string(),
                    closed_pnl: fill.closed_pnl.to_canonical_string(),
                    builder,
                },
            );
            proof {
                let shown_after = shown_fills(fills@.take(i + 1), rows@, builder_only);
                assert(shown_after =~= shown_before.push(fills@[i as int]));
            }
        }
        i += 1;
    }
    assert(fills@.take(i as int) =~= fills@);
    TradesResponse {
        trades,
        tainted: if builder_only {
            Some(excluded)
        } else {
            None
        },
    }
}

/// The answer is that for the fills in the order given.
pub open spec fn answers_in_order(
    fills: Seq<Fill>,
    rows: Seq<AttributionRow>,
    builder_only: bool,
    r: TradesResponse,
) -> bool {
    &&& r.tainted == (if builder_only {
        Some(exists|i: int| 0 <= i < fills.len() && !is_attributed(rows, #[trigger] fills[i]))
    } else {
        None
    })
    &&& r.trades@.len() == shown_fills(fills, rows, builder_only).len()
    &&& forall|i: int|
        0 <= i < r.trades@.len() ==> shows_fill(
            #[trigger] r.trades@[i],
            shown_fills(fills, rows, builder_only)[i],
            rows,
        )
}

/// The answer is that for the fills of a window: for the fills in canonical
/// order.
pub open spec fn answers_trades(
    fills: Seq<Fill>,
    rows: Seq<AttributionRow>,
    builder_only: bool,
    r: TradesResponse,
) -> bool {
    exists|ordered: Seq<Fill>|
        #![trigger is_stable_sort_of(ordered, fills)]
        canonically_sorted(ordered) && is_stable_sort_of(ordered, fills) && answers_in_order(
            ordered,
            rows,
            builder_only,
            r,
        )
}

/// Two entries show the same.
pub open spec fn same_trade(a: TradeDto, b: TradeDto) -> bool {
    &&& a.time_ms == b.time_ms
    &&& a.coin@ == b.coin@
    &&& a.side@ == b.side@
    &&& a.px@ == b.px@
    &&& a.sz@ == b.sz@
    &&& a.fee@ == b.fee@
    &&& a.closed_pnl@ == b.closed_pnl@
    &&& (match (a.builder, b.builder) {
        (Some(x), Some(y)) => x@ == y@,
        (None, None) => true,
        _ => false,
    })
}

/// The same query over the same rows has one answer: two answers for the same
/// fills and attributions show the same trades in the same order, with the same
/// flag.
pub proof fn lemma_trades_answer_determined(
    fills: Seq<Fill>,
    rows: Seq<AttributionRow>,
    builder_only: bool,
    first: TradesResponse,
    second: TradesResponse,
)
    requires
        answers_trades(fills, rows, builder_only, first),
        answers_trades(fills, rows, builder_only, second),
    ensures
        first.tainted == second.tainted,
        first.trades@.len() == second.trades@.len(),
        forall|i: int|
            0 <= i < first.trades@.len() ==> same_trade(
                #[trigger] first.trades@[i],
                second.trades@[i],
            ),
{
    let a = choose|ordered: Seq<Fill>|
        #![trigger is_stable_sort_of(ordered, fills)]
        canonically_sorted(ordered) && is_stable_sort_of(ordered, fills) && answers_in_order(
            ordered,
            rows,
            builder_only,
            first,
        );
    let b = choose|ordered: Seq<Fill>|
        #![trigger is_stable_sort_of(ordered, fills)]
        canonically_sorted(ordered) && is_stable_sort_of(ordered, fills) && answers_in_order(
            ordered,
            rows,
            builder_only,
            second,
        );
    crate::sorting::lemma_stable_sort_unique(a, b, fills);
    assert forall|i: int| 0 <= i < first.trades@.len() implies same_trade(
        #[trigger] first.trades@[i],
        second.trades@[i],
    ) by {
        let fill = shown_fills(a, rows, builder_only)[i];
        assert(shows_fill(first.trades@[i], fill, rows));
        assert(shows_fill(second.trades@[i], fill, rows));
    }
}

/// The answer for the fills of a window: the fills in canonical order.
pub fn trades_response(fills: Vec<Fill>, rows: &Vec<AttributionRow>, builder_only: bool) -> (r:
    TradesResponse)
    ensures
        answers_trades(fills@, rows@, builder_only, r),
{
    let mut ordered = fills;
    sort_fills_deterministic(&mut ordered);
    let r = trades_in_order(&ordered, rows, builder_only);
    assert(canonically_sorted(ordered@) && is_stable_sort_of(ordered@, fills@));
    r
}

} // verus!
