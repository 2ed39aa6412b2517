//! What the keys of fills and deposits guarantee.
//!
//! The encoding that is hashed is injective: two contents with the same bytes are
//! the same content. So two hashed keys agree only where the contents agree or
//! where SHA-256, cut to sixteen bytes, collides on two different encodings.

use crate::digest::short_digest_text;
use crate::domain::deposit::deposit_preimage;
use crate::domain::deposit::event_key_text;
use crate::domain::deposit::normal_tx_hash;
use crate::domain::fill::fill_key_text;
use crate::domain::fill::fill_preimage;
use crate::domain::fill::le_i64;
use crate::domain::fill::length_prefixed;
use crate::domain::fill::optional_i64;
use crate::domain::fill::optional_text;
use crate::domain::fill::side_byte;
use crate::domain::decimal::lemma_same_text_same_value;
use crate::domain::decimal::lemma_same_value_same_text;
use crate::domain::decimal::Decimal;
use crate::domain::fill::Fill;
use crate::domain::fill::FillContent;
use crate::digest::hex_char;
use crate::digest::hex_text;
use crate::text::digit_char;
use crate::text::digits_value;
use crate::text::int_text;
use crate::text::nat_digits;
use vstd::bytes::lemma_auto_spec_u32_to_from_le_bytes;
use vstd::bytes::lemma_auto_spec_u64_to_from_le_bytes;
use vstd::bytes::spec_u32_to_le_bytes;
use vstd::bytes::spec_u64_to_le_bytes;
use vstd::prelude::*;
use vstd::utf8::encode_utf8;
use vstd::utf8::encode_utf8_decode_utf8;

verus! {

/// The text is short enough for its length to be written in four bytes.
pub open spec fn fits_prefix(text: Seq<char>) -> bool {
    encode_utf8(text).len() <= u32::MAX
}

/// Every text of the content is short enough for its length prefix.
pub open spec fn content_fits(c: FillContent) -> bool {
    &&& fits_prefix(c.user)
    &&& fits_prefix(c.coin)
    &&& fits_prefix(c.px)
    &&& fits_prefix(c.sz)
    &&& fits_prefix(c.fee)
    &&& fits_prefix(c.closed_pnl)
    &&& (c.builder_fee matches Some(fee) ==> fits_prefix(fee))
}

/// Two contents agree in everything that is hashed: all but the trade id.
pub open spec fn same_hashed_content(a: FillContent, b: FillContent) -> bool {
    &&& a.user == b.user
    &&& a.coin == b.coin
    &&& a.time_ms == b.time_ms
    &&& a.side == b.side
    &&& a.px == b.px
    &&& a.sz == b.sz
    &&& a.fee == b.fee
    &&& a.closed_pnl == b.closed_pnl
    &&& a.builder_fee == b.builder_fee
    &&& a.oid == b.oid
}

/// A length-prefixed text can be told from what follows it: where two such texts,
/// each followed by more bytes, give the same bytes, the texts are the same and
/// so is what follows.
pub proof fn lemma_length_prefixed_cancels(
    x: Seq<char>,
    rest_x: Seq<u8>,
    y: Seq<char>,
    rest_y: Seq<u8>,
)
    requires
        fits_prefix(x),
        fits_prefix(y),
        length_prefixed(x) + rest_x == length_prefixed(y) + rest_y,
    ensures
        x == y,
        rest_x == rest_y,
{
    lemma_auto_spec_u32_to_from_le_bytes();
    let ex = encode_utf8(x);
    let ey = encode_utf8(y);
    let px = spec_u32_to_le_bytes(ex.len() as u32);
    let py = spec_u32_to_le_bytes(ey.len() as u32);
    let a = length_prefixed(x) + rest_x;
    let b = length_prefixed(y) + rest_y;
    assert(px.len() == 4 && py.len() == 4);
    assert(a.subrange(0, 4) =~= px);
    assert(b.subrange(0, 4) =~= py);
    assert(vstd::bytes::spec_u32_from_le_bytes(px) == ex.len() as u32);
    assert(vstd::bytes::spec_u32_from_le_bytes(py) == ey.len() as u32);
    assert(ex.len() as u32 == ey.len() as u32);
    assert(ex.len() == ey.len());
    let n = ex.len() as int;
    assert(a.subrange(4, 4 + n) =~= ex);
    assert(b.subrange(4, 4 + n) =~= ey);
    encode_utf8_decode_utf8(x);
    encode_utf8_decode_utf8(y);
    assert(a.subrange(4 + n, a.len() as int) =~= rest_x);
    assert(b.subrange(4 + n, b.len() as int) =~= rest_y);
}

/// The eight bytes of an integer can be told from what follows them.
pub proof fn lemma_le_i64_cancels(x: i64, rest_x: Seq<u8>, y: i64, rest_y: Seq<u8>)
    requires
        le_i64(x) + rest_x == le_i64(y) + rest_y,
    ensures
        x == y,
        rest_x == rest_y,
{
    lemma_auto_spec_u64_to_from_le_bytes();
    let bx = spec_u64_to_le_bytes(x as u64);
    let by = spec_u64_to_le_bytes(y as u64);
    let a = le_i64(x) + rest_x;
    let b = le_i64(y) + rest_y;
    assert(a.subrange(0, 8) =~= bx);
    assert(b.subrange(0, 8) =~= by);
    assert(vstd::bytes::spec_u64_from_le_bytes(bx) == x as u64);
    assert(vstd::bytes::spec_u64_from_le_bytes(by) == y as u64);
    assert(x as u64 == y as u64);
    assert(x == y) by (bit_vector)
        requires
            x as u64 == y as u64,
    ;
    assert(a.subrange(8, a.len() as int) =~= rest_x);
    assert(b.subrange(8, b.len() as int) =~= rest_y);
}

/// One byte can be told from what follows it.
pub proof fn lemma_byte_cancels(x: u8, rest_x: Seq<u8>, y: u8, rest_y: Seq<u8>)
    requires
        seq![x] + rest_x == seq![y] + rest_y,
    ensures
        x == y,
        rest_x == rest_y,
{
    let a = seq![x] + rest_x;
    let b = seq![y] + rest_y;
    assert(a[0] == x);
    assert(b[0] == y);
    assert(a.subrange(1, a.len() as int) =~= rest_x);
    assert(b.subrange(1, b.len() as int) =~= rest_y);
}

/// An optional text can be told from what follows it.
pub proof fn lemma_optional_text_cancels(
    x: Option<Seq<char>>,
    rest_x: Seq<u8>,
    y: Option<Seq<char>>,
    rest_y: Seq<u8>,
)
    requires
        x matches Some(t) ==> fits_prefix(t),
        y matches Some(t) ==> fits_prefix(t),
        optional_text(x) + rest_x == optional_text(y) + rest_y,
    ensures
        x == y,
        rest_x == rest_y,
{
    let mark_x: u8 = if x is Some { 1 } else { 0 };
    let mark_y: u8 = if y is Some { 1 } else { 0 };
    let tail_x = match x {
        Some(t) => length_prefixed(t) + rest_x,
        None => rest_x,
    };
    let tail_y = match y {
        Some(t) => length_prefixed(t) + rest_y,
        None => rest_y,
    };
    assert(optional_text(x) + rest_x =~= seq![mark_x] + tail_x);
    assert(optional_text(y) + rest_y =~= seq![mark_y] + tail_y);
    lemma_byte_cancels(mark_x, tail_x, mark_y, tail_y);
    if x is Some {
        lemma_length_prefixed_cancels(x->Some_0, rest_x, y->Some_0, rest_y);
    }
}

/// An optional integer can be told from what follows it.
pub proof fn lemma_optional_i64_cancels(
    x: Option<i64>,
    rest_x: Seq<u8>,
    y: Option<i64>,
    rest_y: Seq<u8>,
)
    requires
        optional_i64(x) + rest_x == optional_i64(y) + rest_y,
    ensures
        x == y,
        rest_x == rest_y,
{
    let mark_x: u8 = if x is Some { 1 } else { 0 };
    let mark_y: u8 = if y is Some { 1 } else { 0 };
    let tail_x = match x {
        Some(v) => le_i64(v) + rest_x,
        None => rest_x,
    };
    let tail_y = match y {
        Some(v) => le_i64(v) + rest_y,
        None => rest_y,
    };
    assert(optional_i64(x) + rest_x =~= seq![mark_x] + tail_x);
    assert(optional_i64(y) + rest_y =~= seq![mark_y] + tail_y);
    lemma_byte_cancels(mark_x, tail_x, mark_y, tail_y);
    if x is Some {
        lemma_le_i64_cancels(x->Some_0, rest_x, y->Some_0, rest_y);
    }
}

/// The bytes of a content from its price on.
spec fn from_px(c: FillContent) -> Seq<u8> {
    length_prefixed(c.px) + (length_prefixed(c.sz) + (length_prefixed(c.fee) + (length_prefixed(
        c.closed_pnl,
    ) + (optional_text(c.builder_fee) + (optional_i64(c.oid) + Seq::<u8>::empty())))))
}

/// The bytes of a content, grouped from the right.
spec fn regrouped(c: FillContent) -> Seq<u8> {
    length_prefixed(c.user) + (length_prefixed(c.coin) + (le_i64(c.time_ms) + (seq![
        side_byte(c.side),
    ] + from_px(c))))
}

proof fn lemma_regrouped(c: FillContent)
    ensures
        fill_preimage(c) == regrouped(c),
{
    assert(fill_preimage(c) =~= regrouped(c));
}

/// The encoding of fills is injective: two contents with the same encoding agree
/// in everything that is encoded. No boundary between two fields can shift, for
/// every text carries its length.
pub proof fn lemma_fill_preimage_injective(a: FillContent, b: FillContent)
    requires
        content_fits(a),
        content_fits(b),
        fill_preimage(a) == fill_preimage(b),
    ensures
        same_hashed_content(a, b),
{
    lemma_regrouped(a);
    lemma_regrouped(b);
    let end = Seq::<u8>::empty();
    let a9 = optional_i64(a.oid) + end;
    let b9 = optional_i64(b.oid) + end;
    let a8 = optional_text(a.builder_fee) + a9;
    let b8 = optional_text(b.builder_fee) + b9;
    let a7 = length_prefixed(a.closed_pnl) + a8;
    let b7 = length_prefixed(b.closed_pnl) + b8;
    let a6 = length_prefixed(a.fee) + a7;
    let b6 = length_prefixed(b.fee) + b7;
    let a5 = length_prefixed(a.sz) + a6;
    let b5 = length_prefixed(b.sz) + b6;
    let a4 = length_prefixed(a.px) + a5;
    let b4 = length_prefixed(b.px) + b5;
    let a3 = seq![side_byte(a.side)] + a4;
    let b3 = seq![side_byte(b.side)] + b4;
    let a2 = le_i64(a.time_ms) + a3;
    let b2 = le_i64(b.time_ms) + b3;
    let a1 = length_prefixed(a.coin) + a2;
    let b1 = length_prefixed(b.coin) + b2;
    lemma_length_prefixed_cancels(a.user, a1, b.user, b1);
    lemma_length_prefixed_cancels(a.coin, a2, b.coin, b2);
    lemma_le_i64_cancels(a.time_ms, a3, b.time_ms, b3);
    lemma_byte_cancels(side_byte(a.side), a4, side_byte(b.side), b4);
    lemma_length_prefixed_cancels(a.px, a5, b.px, b5);
    lemma_length_prefixed_cancels(a.sz, a6, b.sz, b6);
    lemma_length_prefixed_cancels(a.fee, a7, b.fee, b7);
    lemma_length_prefixed_cancels(a.closed_pnl, a8, b.closed_pnl, b8);
    lemma_optional_text_cancels(a.builder_fee, a9, b.builder_fee, b9);
    lemma_optional_i64_cancels(a.oid, end, b.oid, end);
}

/// Fill keys are canonical. Two fills without a trade id have the same key where
/// they have the same content. Where their contents differ, their keys differ,
/// unless the short digests of their two different encodings collide.
pub proof fn lemma_hashed_fill_keys(a: FillContent, b: FillContent)
    requires
        a.tid is None,
        b.tid is None,
        content_fits(a),
        content_fits(b),
    ensures
        same_hashed_content(a, b) ==> fill_key_text(a) == fill_key_text(b),
        !same_hashed_content(a, b) ==> fill_key_text(a) != fill_key_text(b) || (fill_preimage(a)
            != fill_preimage(b) && short_digest_text(fill_preimage(a)) == short_digest_text(
            fill_preimage(b),
        )),
{
    if same_hashed_content(a, b) {
        assert(fill_preimage(a) =~= fill_preimage(b));
    } else {
        if fill_preimage(a) == fill_preimage(b) {
            lemma_fill_preimage_injective(a, b);
        }
        if fill_key_text(a) == fill_key_text(b) {
            let head = seq!['h', 'a', 's', 'h', ':'];
            let da = short_digest_text(fill_preimage(a));
            let db = short_digest_text(fill_preimage(b));
            assert((head + da).subrange(5, (head + da).len() as int) =~= da);
            assert((head + db).subrange(5, (head + db).len() as int) =~= db);
        }
    }
}

/// Two optional decimals denote the same: both are absent, or both are there and
/// denote the same number.
pub open spec fn same_optional_value(a: Option<Decimal>, b: Option<Decimal>) -> bool {
    match (a, b) {
        (Some(x), Some(y)) => x.same_value(&y),
        (None, None) => true,
        _ => false,
    }
}

/// Two fills agree in everything that is hashed, decimals compared as numbers.
pub open spec fn same_hashed_values(a: Fill, b: Fill) -> bool {
    &&& a.user.0@ == b.user.0@
    &&& a.coin.0@ == b.coin.0@
    &&& a.time_ms == b.time_ms
    &&& a.side == b.side
    &&& a.px.same_value(&b.px)
    &&& a.sz.same_value(&b.sz)
    &&& a.fee.same_value(&b.fee)
    &&& a.closed_pnl.same_value(&b.closed_pnl)
    &&& same_optional_value(a.builder_fee, b.builder_fee)
    &&& a.oid == b.oid
}

/// The decimals of a fill are well formed.
pub open spec fn decimals_well_formed(f: Fill) -> bool {
    &&& f.px.well_formed()
    &&& f.sz.well_formed()
    &&& f.fee.well_formed()
    &&& f.closed_pnl.well_formed()
    &&& (f.builder_fee matches Some(fee) ==> fee.well_formed())
}

/// The decimals of a fill are written short enough for the length prefix.
pub proof fn lemma_fill_content_fits(f: Fill)
    requires
        decimals_well_formed(f),
        fits_prefix(f.user.0@),
        fits_prefix(f.coin.0@),
    ensures
        content_fits(f.content()),
{
    crate::domain::decimal::lemma_canonical_text_is_short(f.px);
    crate::domain::decimal::lemma_canonical_text_is_short(f.sz);
    crate::domain::decimal::lemma_canonical_text_is_short(f.fee);
    crate::domain::decimal::lemma_canonical_text_is_short(f.closed_pnl);
    match f.builder_fee {
        Some(fee) => {
            crate::domain::decimal::lemma_canonical_text_is_short(fee);
        },
        None => {},
    }
}

/// Hashed fill keys go by value. Two fills without a trade id that agree in
/// account, coin, time, side and order id, and whose prices, sizes, fees, closed
/// profit and loss and builder fees denote the same numbers, have the same key,
/// however the decimals are scaled. Two that differ in any of these have
/// different keys, unless the short digests of their two different encodings
/// collide.
pub proof fn lemma_hashed_keys_go_by_value(a: Fill, b: Fill)
    requires
        a.tid is None,
        b.tid is None,
        decimals_well_formed(a),
        decimals_well_formed(b),
        fits_prefix(a.user.0@),
        fits_prefix(a.coin.0@),
        fits_prefix(b.user.0@),
        fits_prefix(b.coin.0@),
    ensures
        same_hashed_values(a, b) ==> fill_key_text(a.content()) == fill_key_text(b.content()),
        !same_hashed_values(a, b) ==> fill_key_text(a.content()) != fill_key_text(b.content()) || (
        fill_preimage(a.content()) != fill_preimage(b.content()) && short_digest_text(
            fill_preimage(a.content()),
        ) == short_digest_text(fill_preimage(b.content()))),
{
    let ca = a.content();
    let cb = b.content();
    lemma_fill_content_fits(a);
    lemma_fill_content_fits(b);
    if a.px.same_value(&b.px) {
        lemma_same_value_same_text(a.px, b.px);
    }
    if a.sz.same_value(&b.sz) {
        lemma_same_value_same_text(a.sz, b.sz);
    }
    if a.fee.same_value(&b.fee) {
        lemma_same_value_same_text(a.fee, b.fee);
    }
    if a.closed_pnl.same_value(&b.closed_pnl) {
        lemma_same_value_same_text(a.closed_pnl, b.closed_pnl);
    }
    if ca.px == cb.px {
        lemma_same_text_same_value(a.px, b.px);
    }
    if ca.sz == cb.sz {
        lemma_same_text_same_value(a.sz, b.sz);
    }
    if ca.fee == cb.fee {
        lemma_same_text_same_value(a.fee, b.fee);
    }
    if ca.closed_pnl == cb.closed_pnl {
        lemma_same_text_same_value(a.closed_pnl, b.closed_pnl);
    }
    match (a.builder_fee, b.builder_fee) {
        (Some(x), Some(y)) => {
            if x.same_value(&y) {
                lemma_same_value_same_text(x, y);
            }
            if x.canonical_text() == y.canonical_text() {
                lemma_same_text_same_value(x, y);
            }
        },
        _ => {},
    }
    assert(same_hashed_values(a, b) <==> same_hashed_content(ca, cb));
    lemma_hashed_fill_keys(ca, cb);
}

/// The digits of a number denote it, and none of them is a minus sign or a
/// colon.
pub proof fn lemma_digits_denote(n: nat)
    ensures
        digits_value(nat_digits(n)) == n,
        nat_digits(n).len() > 0,
        forall|i: int|
            0 <= i < nat_digits(n).len() ==> #[trigger] nat_digits(n)[i] != '-' && nat_digits(
                n,
            )[i] != ':',
    decreases n,
{
    if n < 10 {
        let s = seq![digit_char(n as int)];
        assert(s.drop_last() =~= Seq::<char>::empty());
        assert(digits_value(s.drop_last()) == 0);
    } else {
        lemma_digits_denote(n / 10);
        let s = nat_digits(n / 10).push(digit_char((n % 10) as int));
        assert(s.drop_last() =~= nat_digits(n / 10));
        assert(s.last() == digit_char((n % 10) as int));
    }
}

/// Different integers have different decimal texts.
pub proof fn lemma_int_text_injective(x: int, y: int)
    requires
        int_text(x) == int_text(y),
    ensures
        x == y,
{
    let ax: nat = if x < 0 { (-x) as nat } else { x as nat };
    let ay: nat = if y < 0 { (-y) as nat } else { y as nat };
    lemma_digits_denote(ax);
    lemma_digits_denote(ay);
    if x < 0 {
        assert(int_text(x)[0] == '-');
        if y >= 0 {
            assert(int_text(y)[0] == nat_digits(ay)[0]);
        } else {
            assert((seq!['-'] + nat_digits(ax)).subrange(1, int_text(x).len() as int)
                =~= nat_digits(ax));
            assert((seq!['-'] + nat_digits(ay)).subrange(1, int_text(y).len() as int)
                =~= nat_digits(ay));
        }
    } else {
        if y < 0 {
            assert(int_text(y)[0] == '-');
            assert(int_text(x)[0] == nat_digits(ax)[0]);
        }
    }
}

/// The text holds no colon.
pub open spec fn colon_free(text: Seq<char>) -> bool {
    forall|i: int| 0 <= i < text.len() ==> #[trigger] text[i] != ':'
}

/// A text without a colon can be told from what follows its colon.
pub proof fn lemma_colon_free_cancels(
    x: Seq<char>,
    rest_x: Seq<char>,
    y: Seq<char>,
    rest_y: Seq<char>,
)
    requires
        colon_free(x),
        colon_free(y),
        x + seq![':'] + rest_x == y + seq![':'] + rest_y,
    ensures
        x == y,
        rest_x == rest_y,
{
    let a = x + seq![':'] + rest_x;
    let b = y + seq![':'] + rest_y;
    assert(a[x.len() as int] == ':');
    assert(b[y.len() as int] == ':');
    if x.len() < y.len() {
        assert(b[x.len() as int] == y[x.len() as int]);
    }
    if y.len() < x.len() {
        assert(a[y.len() as int] == x[y.len() as int]);
    }
    assert(a.subrange(0, x.len() as int) =~= x);
    assert(b.subrange(0, y.len() as int) =~= y);
    assert(a.subrange(x.len() as int + 1, a.len() as int) =~= rest_x);
    assert(b.subrange(y.len() as int + 1, b.len() as int) =~= rest_y);
}

/// Keys by trade id are canonical. Where neither account nor coin holds a colon,
/// two fills with a trade id have the same key exactly when they agree in
/// account, coin and trade id. Nothing else of the fill enters the key.
pub proof fn lemma_tid_fill_keys(a: FillContent, b: FillContent)
    requires
        a.tid is Some,
        b.tid is Some,
        colon_free(a.user),
        colon_free(a.coin),
        colon_free(b.user),
        colon_free(b.coin),
    ensures
        fill_key_text(a) == fill_key_text(b) <==> a.user == b.user && a.coin == b.coin && a.tid
            == b.tid,
{
    let ta = a.tid->Some_0;
    let tb = b.tid->Some_0;
    let mark = seq!['t', 'i', 'd', ':'];
    let tail_a = mark + int_text(ta as int);
    let tail_b = mark + int_text(tb as int);
    let rest_a = a.coin + seq![':'] + tail_a;
    let rest_b = b.coin + seq![':'] + tail_b;
    assert(fill_key_text(a) =~= a.user + seq![':'] + rest_a);
    assert(fill_key_text(b) =~= b.user + seq![':'] + rest_b);
    if fill_key_text(a) == fill_key_text(b) {
        lemma_colon_free_cancels(a.user, rest_a, b.user, rest_b);
        lemma_colon_free_cancels(a.coin, tail_a, b.coin, tail_b);
        assert(tail_a.subrange(4, tail_a.len() as int) =~= int_text(ta as int));
        assert(tail_b.subrange(4, tail_b.len() as int) =~= int_text(tb as int));
        lemma_int_text_injective(ta as int, tb as int);
    }
}

/// A key by trade id is never a hashed key: behind `hash:` a hashed key holds
/// hexadecimal digits only, and a key by trade id holds a colon there.
pub proof fn lemma_tid_key_is_no_hashed_key(a: FillContent, b: FillContent)
    requires
        a.tid is Some,
        b.tid is None,
    ensures
        fill_key_text(a) != fill_key_text(b),
{
    let ka = fill_key_text(a);
    let kb = fill_key_text(b);
    let digits = int_text(a.tid->Some_0 as int);
    let at = a.user.len() + 1 + a.coin.len() + 4;
    assert(ka =~= a.user + seq![':'] + a.coin + seq![':', 't', 'i', 'd', ':'] + digits);
    assert(ka[at as int] == ':');
    let abs: nat = if a.tid->Some_0 < 0 {
        (-(a.tid->Some_0 as int)) as nat
    } else {
        a.tid->Some_0 as nat
    };
    lemma_digits_denote(abs);
    assert(digits.len() > 0);
    if ka == kb {
        let hex = short_digest_text(fill_preimage(b));
        assert(kb =~= seq!['h', 'a', 's', 'h', ':'] + hex);
        assert(kb[at as int] == hex[at - 5]);
        let bytes = crate::digest::sha256(fill_preimage(b)).subrange(0, 16);
        assert(hex == hex_text(bytes));
        lemma_hex_char_is_no_colon(bytes[(at - 5) / 2] as int / 16);
        lemma_hex_char_is_no_colon(bytes[(at - 5) / 2] as int % 16);
    }
}

/// No hexadecimal digit is a colon.
pub proof fn lemma_hex_char_is_no_colon(n: int)
    ensures
        hex_char(n) != ':',
{
}

/// The encoding of deposits is injective.
pub proof fn lemma_deposit_preimage_injective(
    user_a: Seq<char>,
    time_a: i64,
    amount_a: Seq<char>,
    user_b: Seq<char>,
    time_b: i64,
    amount_b: Seq<char>,
)
    requires
        fits_prefix(user_a),
        fits_prefix(amount_a),
        fits_prefix(user_b),
        fits_prefix(amount_b),
        deposit_preimage(user_a, time_a, amount_a) == deposit_preimage(user_b, time_b, amount_b),
    ensures
        user_a == user_b,
        time_a == time_b,
        amount_a == amount_b,
{
    let end = Seq::<u8>::empty();
    let a2 = length_prefixed(amount_a) + end;
    let b2 = length_prefixed(amount_b) + end;
    let a1 = le_i64(time_a) + a2;
    let b1 = le_i64(time_b) + b2;
    assert(deposit_preimage(user_a, time_a, amount_a) =~= length_prefixed(user_a) + a1);
    assert(deposit_preimage(user_b, time_b, amount_b) =~= length_prefixed(user_b) + b1);
    lemma_length_prefixed_cancels(user_a, a1, user_b, b1);
    lemma_le_i64_cancels(time_a, a2, time_b, b2);
    lemma_length_prefixed_cancels(amount_a, end, amount_b, end);
}

/// Deposit keys are canonical. A deposit with a transaction hash has it,
/// normalized, for its key. Two deposits without one have the same key where
/// account, time and amount agree; where they do not, the keys differ, unless the
/// short digests of their two different encodings collide.
pub proof fn lemma_deposit_keys(
    user_a: Seq<char>,
    time_a: i64,
    amount_a: Seq<char>,
    user_b: Seq<char>,
    time_b: i64,
    amount_b: Seq<char>,
    tx_hash: Option<Seq<char>>,
)
    requires
        fits_prefix(user_a),
        fits_prefix(amount_a),
        fits_prefix(user_b),
        fits_prefix(amount_b),
    ensures
        normal_tx_hash(tx_hash) matches Some(tx) ==> event_key_text(
            user_a,
            time_a,
            amount_a,
            tx_hash,
        ) == tx,
        (user_a == user_b && time_a == time_b && amount_a == amount_b) ==> event_key_text(
            user_a,
            time_a,
            amount_a,
            None,
        ) == event_key_text(user_b, time_b, amount_b, None),
        !(user_a == user_b && time_a == time_b && amount_a == amount_b) ==> event_key_text(
            user_a,
            time_a,
            amount_a,
            None,
        ) != event_key_text(user_b, time_b, amount_b, None) || (deposit_preimage(
            user_a,
            time_a,
            amount_a,
        ) != deposit_preimage(user_b, time_b, amount_b) && short_digest_text(
            deposit_preimage(user_a, time_a, amount_a),
        ) == short_digest_text(deposit_preimage(user_b, time_b, amount_b))),
{
    let pa = deposit_preimage(user_a, time_a, amount_a);
    let pb = deposit_preimage(user_b, time_b, amount_b);
    if pa == pb {
        lemma_deposit_preimage_injective(user_a, time_a, amount_a, user_b, time_b, amount_b);
    }
    if event_key_text(user_a, time_a, amount_a, None) == event_key_text(
        user_b,
        time_b,
        amount_b,
        None,
    ) {
        let head = seq!['h', 'a', 's', 'h', ':'];
        let da = short_digest_text(pa);
        let db = short_digest_text(pb);
        assert((head + da).subrange(5, (head + da).len() as int) =~= da);
        assert((head + db).subrange(5, (head + db).len() as int) =~= db);
    }
}

} // verus!
