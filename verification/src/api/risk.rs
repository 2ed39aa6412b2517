//! The risk fields of an account as the exchange reports them, passed through.

use crate::domain::decimal::Decimal;
use vstd::prelude::*;

verus! {

/// The query for the risk fields.
#[derive(Debug)]
pub struct RiskQuery {
    pub user: String,
}

/// The risk of one position.
#[derive(Debug)]
pub struct PositionRisk {
    pub coin: String,
    pub size: String,
    pub entry_px: String,
    pub position_value: String,
    pub unrealized_pnl: String,
    pub liquidation_px: Option<String>,
    pub leverage: Option<String>,
    pub margin_used: String,
    pub max_leverage: Option<String>,
}

/// The margin of the account across its positions.
#[derive(Debug)]
pub struct CrossMarginSummary {
    pub account_value: String,
    pub total_margin_used: String,
    pub total_ntl_pos: String,
    pub total_raw_usd: String,
    pub withdrawable: String,
}

/// The risk fields of an account.
#[derive(Debug)]
pub struct RiskResponse {
    pub positions: Vec<PositionRisk>,
    pub cross_margin_summary: CrossMarginSummary,
}

/// The margin summary as the exchange reports it: each field as it was found, if
/// it was.
#[derive(Debug, Default)]
pub struct MarginRecord {
    pub account_value: Option<String>,
    pub total_margin_used: Option<String>,
    pub total_ntl_pos: Option<String>,
    pub total_raw_usd: Option<String>,
    pub withdrawable: Option<String>,
}

/// A position as the exchange reports it: each field as it was found, if it was.
#[derive(Debug, Default)]
pub struct PositionRecord {
    pub coin: Option<String>,
    /// The signed size.
    pub szi: Option<String>,
    pub entry_px: Option<String>,
    pub position_value: Option<String>,
    pub unrealized_pnl: Option<String>,
    pub liquidation_px: Option<String>,
    /// The leverage, whether the exchange gave it plainly or as the value of an
    /// object.
    pub leverage: Option<String>,
    pub margin_used: Option<String>,
    pub max_leverage: Option<String>,
}

/// A text, or the default where it was not found.
pub open spec fn text_or(text: Option<String>, default: Seq<char>) -> Seq<char> {
    match text {
        Some(t) => t@,
        None => default,
    }
}

/// The position counts: its size is a decimal and is not zero. A size that was
/// not found counts as zero.
pub open spec fn holds_position(record: PositionRecord) -> bool {
    match crate::domain::decimal::parsed_decimal(text_or(record.szi, "0"@)) {
        Some(size) => size.mantissa() != 0,
        None => false,
    }
}

/// The entry shows the position; what was not found is shown as `0`, or as an
/// empty coin.
pub open spec fn shows_position(risk: PositionRisk, record: PositionRecord) -> bool {
    &&& risk.coin@ == text_or(record.coin, ""@)
    &&& risk.size@ == text_or(record.szi, "0"@)
    &&& risk.entry_px@ == text_or(record.entry_px, "0"@)
    &&& risk.position_value@ == text_or(record.position_value, "0"@)
    &&& risk.unrealized_pnl@ == text_or(record.unrealized_pnl, "0"@)
    &&& crate::domain::deposit::optional_view(risk.liquidation_px)
        == crate::domain::deposit::optional_view(record.liquidation_px)
    &&& crate::domain::deposit::optional_view(risk.leverage) == crate::domain::deposit::optional_view(
        record.leverage,
    )
    &&& risk.margin_used@ == text_or(record.margin_used, "0"@)
    &&& crate::domain::deposit::optional_view(risk.max_leverage)
        == crate::domain::deposit::optional_view(record.max_leverage)
}

/// Keeps what is listed as a position and counts.
pub open spec fn listed_and_held(record: Option<PositionRecord>) -> bool {
    record matches Some(r) && holds_position(r)
}

fn or_default(text: &Option<String>, default: &str) -> (r: String)
    ensures
        r@ == text_or(*text, default@),
{
    match text {
        Some(t) => t.clone(),
        None => default.to_owned(),
    }
}

fn copy_of(text: &Option<String>) -> (r: Option<String>)
    ensures
        crate::domain::deposit::optional_view(r) == crate::domain::deposit::optional_view(*text),
{
    match text {
        Some(t) => Some(t.clone()),
        None => None,
    }
}

/// The risk fields of an account from what the exchange reports. The margin
/// summary must be there. Of the entries listed, those without a position and
/// those whose size is zero or no decimal are left out; the others are shown in
/// their order.
pub fn risk_response(margin: Option<&MarginRecord>, listed: &Vec<Option<PositionRecord>>) -> (r:
    Result<RiskResponse, String>)
    ensures
        match margin {
            None => r matches Err(m) && m@ == "Missing marginSummary"@,
            Some(found) => r matches Ok(response) && {
                let kept = listed@.filter(|e: Option<PositionRecord>| listed_and_held(e));
                &&& response.cross_margin_summary.account_value@ == text_or(
                    found.account_value,
                    "0"@,
                )
                &&& response.cross_margin_summary.total_margin_used@ == text_or(
                    found.total_margin_used,
                    "0"@,
                )
                &&& response.cross_margin_summary.total_ntl_pos@ == text_or(
                    found.total_ntl_pos,
                    "0"@,
                )
                &&& response.cross_margin_summary.total_raw_usd@ == text_or(
                    found.total_raw_usd,
                    "0"@,
                )
                &&& response.cross_margin_summary.withdrawable@ == text_or(
                    found.withdrawable,
                    "0"@,
                )
                &&& response.positions@.len() == kept.len()
                &&& forall|i: int|
                    0 <= i < kept.len() ==> shows_position(
                        #[trigger] response.positions@[i],
                        kept[i]->Some_0,
                    )
            },
        },
{
    let found = match margin {
        Some(m) => m,
        None => {
            return Err("Missing marginSummary".to_owned());
        },
    };
    let cross_margin_summary = CrossMarginSummary {
        account_value: or_default(&found.account_value, "0"),
        total_margin_used: or_default(&found.total_margin_used, "0"),
        total_ntl_pos: or_default(&found.total_ntl_pos, "0"),
        total_raw_usd: or_default(&found.total_raw_usd, "0"),
        withdrawable: or_default(&found.withdrawable, "0"),
    };
    let ghost keep = |e: Option<PositionRecord>| listed_and_held(e);
    let mut positions: Vec<PositionRisk> = Vec::new();
    let mut i: usize = 0;
    proof {
        reveal(Seq::filter);
        assert(listed@.take(0) =~= Seq::<Option<PositionRecord>>::empty());
    }
    while i < listed.len()
        invariant
            i <= listed@.len(),
            keep == |e: Option<PositionRecord>| listed_and_held(e),
            positions@.len() == listed@.take(i as int).filter(keep).len(),
            forall|k: int|
                0 <= k < positions@.len() ==> shows_position(
                    #[trigger] positions@[k],
                    listed@.take(i as int).filter(keep)[k]->Some_0,
                ),
        decreases listed@.len() - i,
    {
        let ghost kept_before = listed@.take(i as int).filter(keep);
        proof {
            reveal(Seq::filter);
            assert(listed@.take(i + 1).drop_last() =~= listed@.take(i as int));
            assert(listed@.take(i + 1).last() == listed@[i as int]);
        }
        if let Some(record) = &listed[i] {
            let size = or_default(&record.szi, "0");
            let held = match Decimal::from_str_canonical(size.as_str()) {
                Ok(d) => !d.is_zero(),
                Err(_) => false,
            };
            if held {
                positions.push(
                    PositionRisk {
                        coin: or_default(&record.coin, ""),
                        size,
                        entry_px: or_default(&record.entry_px, "0"),
                        position_value: or_default(&record.position_value, "0"),
                        unrealized_pnl: or_default(&record.unrealized_pnl, "0"),
                        liquidation_px: copy_of(&record.liquidation_px),
                        leverage: copy_of(&record.leverage),
                        margin_used: or_default(&record.margin_used, "0"),
                        max_leverage: copy_of(&record.max_leverage),
                    },
                );
                proof {
                    let kept_after = listed@.take(i + 1).filter(keep);
                    assert(kept_after =~= kept_before.push(listed@[i as int]));
                }
            }
        }
        i += 1;
    }
    assert(listed@.take(i as int) =~= listed@);
    Ok(RiskResponse { positions, cross_margin_summary })
}

} // verus!
