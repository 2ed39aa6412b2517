//! The rows that the position tracker emits.

use crate::domain::decimal::Decimal;
use crate::domain::primitives::Address;
use crate::domain::primitives::Coin;
use crate::domain::primitives::TimeMs;
use vstd::prelude::*;

verus! {

/// The interval during which an account held a position in a coin.
#[derive(Debug, PartialEq, Eq)]
pub struct Lifecycle {
    /// Assigned by the tracker, increasing per account and coin.
    pub id: i64,
    /// The account.
    pub user: Address,
    /// The coin.
    pub coin: Coin,
    /// Time of the fill that opened the position.
    pub start_time_ms: TimeMs,
    /// Time of the fill that closed it; `None` while it is open.
    pub end_time_ms: Option<TimeMs>,
}

impl Clone for Lifecycle {
    fn clone(&self) -> (r: Lifecycle)
        ensures
            r == *self,
    {
        Lifecycle {
            id: self.id,
            user: self.user.clone(),
            coin: self.coin.clone(),
            start_time_ms: self.start_time_ms,
            end_time_ms: self.end_time_ms,
        }
    }
}

/// The position after a fill.
#[derive(Debug, Clone, Copy, PartialEq, Eq, Default)]
pub struct Snapshot {
    /// Time of the fill.
    pub time_ms: TimeMs,
    /// Orders the snapshots of one fill: a flip emits `0` then `1`.
    pub seq: i32,
    /// Signed size after the fill.
    pub net_size: Decimal,
    /// Average entry price after the fill.
    pub avg_entry_px: Decimal,
    /// The lifecycle that the snapshot belongs to.
    pub lifecycle_id: i64,
}

/// Whether an effect adds to a position or takes from it.
#[derive(Debug, Clone, Copy, PartialEq, Eq, Default, Structural)]
pub enum EffectType {
    /// The fill increased the position.
    #[default]
    Open,
    /// The fill decreased the position.
    Close,
}

impl EffectType {
    /// `open` or `close`.
    pub fn as_text(&self) -> (r: &'static str)
        ensures
            r@ == (if *self == EffectType::Open {
                "open"@
            } else {
                "close"@
            }),
    {
        match self {
            EffectType::Open => "open",
            EffectType::Close => "close",
        }
    }

    /// The type that `open` or `close` names; nothing else names one.
    pub fn from_text(text: &str) -> (r: Option<EffectType>)
        ensures
            r == (if text@ == "open"@ {
                Some(EffectType::Open)
            } else if text@ == "close"@ {
                Some(EffectType::Close)
            } else {
                None
            }),
    {
        if crate::text::str_equal(text, "open") {
            Some(EffectType::Open)
        } else if crate::text::str_equal(text, "close") {
            Some(EffectType::Close)
        } else {
            None
        }
    }
}

/// What one fill contributed to one lifecycle.
#[derive(Debug, PartialEq, Eq, Default)]
pub struct Effect {
    /// The fill.
    pub fill_key: String,
    /// The lifecycle.
    pub lifecycle_id: i64,
    /// Open or close.
    pub effect_type: EffectType,
    /// Absolute quantity.
    pub qty: Decimal,
    /// Price times quantity.
    pub notional: Decimal,
    /// The part of the fill's fee that falls on this effect.
    pub fee: Decimal,
    /// The closed profit and loss booked on this effect.
    pub closed_pnl: Decimal,
}

impl Clone for Effect {
    fn clone(&self) -> (r: Effect)
        ensures
            r == *self,
    {
        Effect {
            fill_key: self.fill_key.clone(),
            lifecycle_id: self.lifecycle_id,
            effect_type: self.effect_type,
            qty: self.qty,
            notional: self.notional,
            fee: self.fee,
            closed_pnl: self.closed_pnl,
        }
    }
}

} // verus!
