//! A deposit or withdrawal, and the key that identifies it.

use crate::digest::short_digest;
use crate::digest::short_digest_text;
use crate::domain::decimal::Decimal;
use crate::domain::fill::le_i64;
use crate::domain::fill::length_prefixed;
use crate::domain::fill::push_le_i64;
use crate::domain::fill::push_length_prefixed;
use crate::domain::primitives::Address;
use crate::domain::primitives::TimeMs;
use crate::text::lowercased;
use crate::text::to_lower;
use crate::text::trim;
use crate::text::trimmed;
use vstd::prelude::*;
use vstd::string::StringExecFns;

verus! {

/// A ledger event that moves funds in (positive amount) or out (negative).
#[derive(Debug, PartialEq, Eq)]
pub struct Deposit {
    /// The key of the event.
    pub event_key: String,
    /// The account.
    pub user: Address,
    /// Time of the event.
    pub time_ms: TimeMs,
    /// Signed amount.
    pub amount: Decimal,
    /// Transaction hash, normalized, where the exchange gave one.
    pub tx_hash: Option<String>,
}

/// A transaction hash trimmed and in lower case; absent where nothing is left
/// after trimming.
pub open spec fn normal_tx_hash(tx_hash: Option<Seq<char>>) -> Option<Seq<char>> {
    match tx_hash {
        Some(s) => if trimmed(s).len() == 0 {
            None
        } else {
            Some(lowercased(trimmed(s)))
        },
        None => None,
    }
}

/// The bytes that are hashed for a deposit without a transaction hash.
pub open spec fn deposit_preimage(user: Seq<char>, time_ms: i64, amount: Seq<char>) -> Seq<u8> {
    length_prefixed(user) + le_i64(time_ms) + length_prefixed(amount)
}

/// The key of a deposit: its normalized transaction hash where it has one, else
/// `hash:` and the short digest of user, time and canonical amount.
pub open spec fn event_key_text(
    user: Seq<char>,
    time_ms: i64,
    amount: Seq<char>,
    tx_hash: Option<Seq<char>>,
) -> Seq<char> {
    match normal_tx_hash(tx_hash) {
        Some(tx) => tx,
        None => seq!['h', 'a', 's', 'h', ':'] + short_digest_text(
            deposit_preimage(user, time_ms, amount),
        ),
    }
}

/// The view of an optional text.
pub open spec fn optional_view(s: Option<String>) -> Option<Seq<char>> {
    match s {
        Some(t) => Some(t@),
        None => None,
    }
}

/// Trims a transaction hash and puts it in lower case; a hash that is empty after
/// trimming counts as absent.
pub fn normalize_tx_hash(tx_hash: Option<String>) -> (r: Option<String>)
    ensures
        optional_view(r) == normal_tx_hash(optional_view(tx_hash)),
{
    match tx_hash {
        Some(s) => {
            let t = trim(s.as_str());
            if t.is_empty() {
                None
            } else {
                Some(to_lower(t))
            }
        },
        None => None,
    }
}

impl Deposit {
    /// The key agrees with the content.
    pub open spec fn key_is_canonical(&self) -> bool {
        self.event_key@ == event_key_text(
            self.user.0@,
            self.time_ms.0,
            self.amount.canonical_text(),
            optional_view(self.tx_hash),
        )
    }

    /// A deposit with the given content: the transaction hash is normalized and the
    /// key computed from the result.
    pub fn new(user: Address, time_ms: TimeMs, amount: Decimal, tx_hash: Option<String>) -> (r:
        Deposit)
        ensures
            r.user == user,
            r.time_ms == time_ms,
            r.amount == amount,
            optional_view(r.tx_hash) == normal_tx_hash(optional_view(tx_hash)),
            r.event_key@ == event_key_text(
                user.0@,
                time_ms.0,
                amount.canonical_text(),
                optional_view(r.tx_hash),
            ),
    {
        let tx_hash = normalize_tx_hash(tx_hash);
        let event_key = match &tx_hash {
            Some(tx) => Deposit::compute_event_key(&user, time_ms, &amount, Some(tx.as_str())),
            None => Deposit::compute_event_key(&user, time_ms, &amount, None),
        };
        Deposit { event_key, user, time_ms, amount, tx_hash }
    }

    /// The key of a deposit with the given content.
    pub fn compute_event_key(
        user: &Address,
        time_ms: TimeMs,
        amount: &Decimal,
        tx_hash: Option<&str>,
    ) -> (r: String)
        ensures
            r@ == event_key_text(
                user.0@,
                time_ms.0,
                amount.canonical_text(),
                match tx_hash {
                    Some(t) => Some(t@),
                    None => None,
                },
            ),
    {
        if let Some(tx) = tx_hash {
            let t = trim(tx);
            if !t.is_empty() {
                return to_lower(t);
            }
        }
        let mut buf: Vec<u8> = Vec::new();
        push_length_prefixed(&mut buf, user.as_str());
        push_le_i64(&mut buf, time_ms.as_ms());
        push_length_prefixed(&mut buf, amount.to_canonical_string().as_str());
        assert(buf@ =~= deposit_preimage(user.0@, time_ms.0, amount.canonical_text()));
        proof {
            reveal_strlit("hash:");
        }
        let mut key = "hash:".to_owned();
        key.append(short_digest(buf.as_slice()).as_str());
        assert(key@ =~= seq!['h', 'a', 's', 'h', ':'] + short_digest_text(
            deposit_preimage(user.0@, time_ms.0, amount.canonical_text()),
        ));
        key
    }
}

impl Clone for Deposit {
    fn clone(&self) -> (r: Deposit)
        ensures
            r == *self,
    {
        Deposit {
            event_key: self.event_key.clone(),
            user: self.user.clone(),
            time_ms: self.time_ms,
            amount: self.amount,
            tx_hash: match &self.tx_hash {
                Some(t) => Some(t.clone()),
                None => None,
            },
        }
    }
}

} // verus!
