//! A fill, one trade execution, and the key that identifies it.
//!
//! The key is a function of the fill's content alone. With an upstream trade id it
//! is `user:coin:tid:<id>`; without one it is `hash:` and the first sixteen bytes of
//! the SHA-256 digest of a length-prefixed encoding of the other fields.

use crate::digest::short_digest;
use crate::digest::short_digest_text;
use crate::domain::attribution::Attribution;
use crate::domain::decimal::Decimal;
use crate::domain::primitives::Address;
use crate::domain::primitives::Coin;
use crate::domain::primitives::Side;
use crate::domain::primitives::TimeMs;
use crate::text::i64_text;
use crate::text::int_text;
use vstd::bytes::spec_u32_to_le_bytes;
use vstd::bytes::spec_u64_to_le_bytes;
use vstd::bytes::u32_to_le_bytes;
use vstd::bytes::u64_to_le_bytes;
use vstd::prelude::*;
use vstd::string::StrSliceExecFns;
use vstd::string::StringExecFns;
use vstd::string::StringSliceAdditionalSpecFns;
use vstd::utf8::encode_utf8;

verus! {

/// A single trade execution.
#[derive(Debug, PartialEq, Eq)]
pub struct Fill {
    /// The key of the fill, computed once from its content.
    pub fill_key: String,
    /// Time of the fill.
    pub time_ms: TimeMs,
    /// The account.
    pub user: Address,
    /// The coin traded.
    pub coin: Coin,
    /// Buy or sell.
    pub side: Side,
    /// Price per unit.
    pub px: Decimal,
    /// Size traded.
    pub sz: Decimal,
    /// Fee paid.
    pub fee: Decimal,
    /// Closed profit and loss as the exchange reported it.
    pub closed_pnl: Decimal,
    /// Builder fee, where one was charged.
    pub builder_fee: Option<Decimal>,
    /// Upstream trade id.
    pub tid: Option<i64>,
    /// Upstream order id.
    pub oid: Option<i64>,
    /// Attribution, where it has been decided.
    pub attribution: Option<Attribution>,
}

/// The content of a fill as its key sees it: texts, integers and the side, with
/// every decimal in its canonical text.
pub struct FillContent {
    pub user: Seq<char>,
    pub coin: Seq<char>,
    pub time_ms: i64,
    pub side: Side,
    pub px: Seq<char>,
    pub sz: Seq<char>,
    pub fee: Seq<char>,
    pub closed_pnl: Seq<char>,
    pub builder_fee: Option<Seq<char>>,
    pub tid: Option<i64>,
    pub oid: Option<i64>,
}

/// The eight bytes of a 64-bit integer, little end first.
pub open spec fn le_i64(n: i64) -> Seq<u8> {
    spec_u64_to_le_bytes(n as u64)
}

/// A text as the four bytes of its UTF-8 length, little end first, and then its
/// UTF-8 bytes.
pub open spec fn length_prefixed(text: Seq<char>) -> Seq<u8> {
    let bytes = encode_utf8(text);
    spec_u32_to_le_bytes(bytes.len() as u32) + bytes
}

/// An optional text: `0` where absent, else `1` and the length-prefixed text.
pub open spec fn optional_text(text: Option<Seq<char>>) -> Seq<u8> {
    match text {
        Some(t) => seq![1u8] + length_prefixed(t),
        None => seq![0u8],
    }
}

/// An optional integer: `0` where absent, else `1` and its eight bytes.
pub open spec fn optional_i64(n: Option<i64>) -> Seq<u8> {
    match n {
        Some(v) => seq![1u8] + le_i64(v),
        None => seq![0u8],
    }
}

/// The byte of a side: `B` for buy, `S` for sell.
pub open spec fn side_byte(side: Side) -> u8 {
    match side {
        Side::Buy => 0x42u8,
        Side::Sell => 0x53u8,
    }
}

/// The bytes that are hashed for a fill without a trade id.
pub open spec fn fill_preimage(c: FillContent) -> Seq<u8> {
    length_prefixed(c.user) + length_prefixed(c.coin) + le_i64(c.time_ms) + seq![
        side_byte(c.side),
    ] + length_prefixed(c.px) + length_prefixed(c.sz) + length_prefixed(c.fee) + length_prefixed(
        c.closed_pnl,
    ) + optional_text(c.builder_fee) + optional_i64(c.oid)
}

/// The key of a fill with the given content.
pub open spec fn fill_key_text(c: FillContent) -> Seq<char> {
    match c.tid {
        Some(tid) => c.user + seq![':'] + c.coin + seq![':', 't', 'i', 'd', ':'] + int_text(
            tid as int,
        ),
        None => seq!['h', 'a', 's', 'h', ':'] + short_digest_text(fill_preimage(c)),
    }
}

/// Appends a text, length-prefixed, to a buffer.
pub fn push_length_prefixed(buf: &mut Vec<u8>, text: &str)
    ensures
        final(buf)@ == old(buf)@ + length_prefixed(text@),
{
    let mut bytes = text.as_bytes_vec();
    let mut prefix = u32_to_le_bytes(bytes.len() as u32);
    buf.append(&mut prefix);
    buf.append(&mut bytes);
    assert(buf@ =~= old(buf)@ + length_prefixed(text@));
}

/// Appends the eight bytes of an integer, little end first, to a buffer.
pub fn push_le_i64(buf: &mut Vec<u8>, n: i64)
    ensures
        final(buf)@ == old(buf)@ + le_i64(n),
{
    let mut bytes = u64_to_le_bytes(n as u64);
    buf.append(&mut bytes);
}

impl Fill {
    /// The content that the key of this fill is computed from.
    pub open spec fn content(&self) -> FillContent {
        FillContent {
            user: self.user.0@,
            coin: self.coin.0@,
            time_ms: self.time_ms.0,
            side: self.side,
            px: self.px.canonical_text(),
            sz: self.sz.canonical_text(),
            fee: self.fee.canonical_text(),
            closed_pnl: self.closed_pnl.canonical_text(),
            builder_fee: match self.builder_fee {
                Some(fee) => Some(fee.canonical_text()),
                None => None,
            },
            tid: self.tid,
            oid: self.oid,
        }
    }

    /// The key agrees with the content.
    pub open spec fn key_is_canonical(&self) -> bool {
        self.fill_key@ == fill_key_text(self.content())
    }

    /// A fill with the given content; its key is computed here.
    pub fn new(
        time_ms: TimeMs,
        user: Address,
        coin: Coin,
        side: Side,
        px: Decimal,
        sz: Decimal,
        fee: Decimal,
        closed_pnl: Decimal,
        builder_fee: Option<Decimal>,
        tid: Option<i64>,
        oid: Option<i64>,
    ) -> (r: Fill)
        ensures
            r.time_ms == time_ms,
            r.user == user,
            r.coin == coin,
            r.side == side,
            r.px == px,
            r.sz == sz,
            r.fee == fee,
            r.closed_pnl == closed_pnl,
            r.builder_fee == builder_fee,
            r.tid == tid,
            r.oid == oid,
            r.attribution is None,
            r.key_is_canonical(),
    {
        let fill_key = Fill::compute_fill_key(
            &user,
            &coin,
            time_ms,
            side,
            &px,
            &sz,
            &fee,
            &closed_pnl,
            builder_fee.as_ref(),
            tid,
            oid,
        );
        Fill {
            fill_key,
            time_ms,
            user,
            coin,
            side,
            px,
            sz,
            fee,
            closed_pnl,
            builder_fee,
            tid,
            oid,
            attribution: None,
        }
    }

    /// The same fill with an attribution set.
    pub fn with_attribution(self, attribution: Attribution) -> (r: Fill)
        ensures
            r.attribution == Some(attribution),
            r.fill_key == self.fill_key,
            r.time_ms == self.time_ms,
            r.user == self.user,
            r.coin == self.coin,
            r.side == self.side,
            r.px == self.px,
            r.sz == self.sz,
            r.fee == self.fee,
            r.closed_pnl == self.closed_pnl,
            r.builder_fee == self.builder_fee,
            r.tid == self.tid,
            r.oid == self.oid,
    {
        let mut fill = self;
        fill.attribution = Some(attribution);
        fill
    }

    /// The key of a fill with the given content: the trade id form where `tid` is
    /// present, else the hashed form.
    pub fn compute_fill_key(
        user: &Address,
        coin: &Coin,
        time_ms: TimeMs,
        side: Side,
        px: &Decimal,
        sz: &Decimal,
        fee: &Decimal,
        closed_pnl: &Decimal,
        builder_fee: Option<&Decimal>,
        tid: Option<i64>,
        oid: Option<i64>,
    ) -> (r: String)
        ensures
            r@ == fill_key_text(
                FillContent {
                    user: user.0@,
                    coin: coin.0@,
                    time_ms: time_ms.0,
                    side,
                    px: px.canonical_text(),
                    sz: sz.canonical_text(),
                    fee: fee.canonical_text(),
                    closed_pnl: closed_pnl.canonical_text(),
                    builder_fee: match builder_fee {
                        Some(f) => Some(f.canonical_text()),
                        None => None,
                    },
                    tid,
                    oid,
                },
            ),
    {
        proof {
            reveal_strlit(":");
            reveal_strlit(":tid:");
            reveal_strlit("hash:");
        }
        if let Some(id) = tid {
            let mut key = user.as_str().to_owned();
            key.append(":");
            key.append(coin.as_str());
            key.append(":tid:");
            key.append(i64_text(id).as_str());
            assert(key@ =~= user.0@ + seq![':'] + coin.0@ + seq![':', 't', 'i', 'd', ':']
                + int_text(id as int));
            return key;
        }
        let mut buf: Vec<u8> = Vec::new();
        push_length_prefixed(&mut buf, user.as_str());
        push_length_prefixed(&mut buf, coin.as_str());
        push_le_i64(&mut buf, time_ms.as_ms());
        buf.push(
            match side {
                Side::Buy => 0x42u8,
                Side::Sell => 0x53u8,
            },
        );
        push_length_prefixed(&mut buf, px.to_canonical_string().as_str());
        push_length_prefixed(&mut buf, sz.to_canonical_string().as_str());
        push_length_prefixed(&mut buf, fee.to_canonical_string().as_str());
        push_length_prefixed(&mut buf, closed_pnl.to_canonical_string().as_str());
        match builder_fee {
            Some(f) => {
                buf.push(1u8);
                push_length_prefixed(&mut buf, f.to_canonical_string().as_str());
            },
            None => {
                buf.push(0u8);
            },
        }
        match oid {
            Some(o) => {
                buf.push(1u8);
                push_le_i64(&mut buf, o);
            },
            None => {
                buf.push(0u8);
            },
        }
        let ghost content = FillContent {
            user: user.0@,
            coin: coin.0@,
            time_ms: time_ms.0,
            side,
            px: px.canonical_text(),
            sz: sz.canonical_text(),
            fee: fee.canonical_text(),
            closed_pnl: closed_pnl.canonical_text(),
            builder_fee: match builder_fee {
                Some(f) => Some(f.canonical_text()),
                None => None,
            },
            tid,
            oid,
        };
        assert(buf@ =~= fill_preimage(content));
        let mut key = "hash:".to_owned();
        key.append(short_digest(buf.as_slice()).as_str());
        assert(key@ =~= seq!['h', 'a', 's', 'h', ':'] + short_digest_text(fill_preimage(content)));
        key
    }

    /// The key of the fill.
    pub fn fill_key(&self) -> (r: &str)
        ensures
            r@ == self.fill_key@,
    {
        self.fill_key.as_str()
    }
}

impl Clone for Fill {
    fn clone(&self) -> (r: Fill)
        ensures
            r == *self,
    {
        Fill {
            fill_key: self.fill_key.clone(),
            time_ms: self.time_ms,
            user: self.user.clone(),
            coin: self.coin.clone(),
            side: self.side,
            px: self.px,
            sz: self.sz,
            fee: self.fee,
            closed_pnl: self.closed_pnl,
            builder_fee: self.builder_fee,
            tid: self.tid,
            oid: self.oid,
            attribution: match &self.attribution {
                Some(a) => Some(a.clone()),
                None => None,
            },
        }
    }
}

} // verus!
