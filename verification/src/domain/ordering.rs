//! The canonical order of fills: by time, then trade id, then order id, then
//! fill key, an absent id before a present one.

use crate::domain::fill::Fill;
use crate::sorting::is_stable_sort_of;
use crate::sorting::sort_ranked;
use crate::sorting::Ranked;
use crate::text::lemma_text_less_irreflexive;
use crate::text::lemma_text_less_total;
use crate::text::lemma_text_less_transitive;
use crate::text::str_less;
use crate::text::text_less;
use vstd::prelude::*;

verus! {

/// The key that fills are ordered by.
#[derive(Debug, PartialEq, Eq, PartialOrd, Ord)]
pub struct FillOrderingKey {
    /// Time in milliseconds: the first criterion.
    pub time_ms: i64,
    /// Trade id: the second.
    pub tid: Option<i64>,
    /// Order id: the third.
    pub oid: Option<i64>,
    /// Fill key: the last.
    pub fill_key: String,
}

/// The order of optional ids: an absent id comes before a present one, present
/// ids by their value.
pub open spec fn option_less(a: Option<i64>, b: Option<i64>) -> bool {
    match (a, b) {
        (None, Some(_)) => true,
        (Some(x), Some(y)) => x < y,
        _ => false,
    }
}

/// The canonical order on the four criteria.
pub open spec fn criteria_less(
    time_a: i64,
    tid_a: Option<i64>,
    oid_a: Option<i64>,
    key_a: Seq<char>,
    time_b: i64,
    tid_b: Option<i64>,
    oid_b: Option<i64>,
    key_b: Seq<char>,
) -> bool {
    time_a < time_b || (time_a == time_b && (option_less(tid_a, tid_b) || (tid_a == tid_b && (
    option_less(oid_a, oid_b) || (oid_a == oid_b && text_less(key_a, key_b))))))
}

/// Fill `a` comes before fill `b` in canonical order.
pub open spec fn canonical_before(a: Fill, b: Fill) -> bool {
    criteria_less(
        a.time_ms.0,
        a.tid,
        a.oid,
        a.fill_key@,
        b.time_ms.0,
        b.tid,
        b.oid,
        b.fill_key@,
    )
}

fn option_comes_before(a: Option<i64>, b: Option<i64>) -> (r: bool)
    ensures
        r == option_less(a, b),
{
    match (a, b) {
        (None, Some(_)) => true,
        (Some(x), Some(y)) => x < y,
        _ => false,
    }
}

impl FillOrderingKey {
    /// `self` orders before `other`.
    pub open spec fn less(&self, other: &FillOrderingKey) -> bool {
        criteria_less(
            self.time_ms,
            self.tid,
            self.oid,
            self.fill_key@,
            other.time_ms,
            other.tid,
            other.oid,
            other.fill_key@,
        )
    }

    /// The ordering key of a fill.
    pub fn from_fill(fill: &Fill) -> (r: FillOrderingKey)
        ensures
            r.time_ms == fill.time_ms.0,
            r.tid == fill.tid,
            r.oid == fill.oid,
            r.fill_key@ == fill.fill_key@,
    {
        FillOrderingKey {
            time_ms: fill.time_ms.as_i64(),
            tid: fill.tid,
            oid: fill.oid,
            fill_key: fill.fill_key().to_owned(),
        }
    }

    /// True if `self` orders before `other`.
    pub fn comes_before(&self, other: &FillOrderingKey) -> (r: bool)
        ensures
            r == self.less(other),
    {
        if self.time_ms != other.time_ms {
            return self.time_ms < other.time_ms;
        }
        if option_comes_before(self.tid, other.tid) {
            return true;
        }
        if option_comes_before(other.tid, self.tid) {
            return false;
        }
        if option_comes_before(self.oid, other.oid) {
            return true;
        }
        if option_comes_before(other.oid, self.oid) {
            return false;
        }
        str_less(self.fill_key.as_str(), other.fill_key.as_str())
    }

    /// True if `fill_a` comes before `fill_b` in canonical order.
    pub fn should_come_before(fill_a: &Fill, fill_b: &Fill) -> (r: bool)
        ensures
            r == canonical_before(*fill_a, *fill_b),
    {
        let key_a = FillOrderingKey::from_fill(fill_a);
        let key_b = FillOrderingKey::from_fill(fill_b);
        key_a.comes_before(&key_b)
    }
}

impl Clone for FillOrderingKey {
    fn clone(&self) -> (r: FillOrderingKey)
        ensures
            r == *self,
    {
        FillOrderingKey {
            time_ms: self.time_ms,
            tid: self.tid,
            oid: self.oid,
            fill_key: self.fill_key.clone(),
        }
    }
}

/// What the order of texts gives for three texts, every way round.
pub proof fn lemma_text_order_facts(a: Seq<char>, b: Seq<char>, c: Seq<char>)
    ensures
        !text_less(a, a),
        !text_less(b, b),
        !text_less(c, c),
        a == b || text_less(a, b) || text_less(b, a),
        b == c || text_less(b, c) || text_less(c, b),
        a == c || text_less(a, c) || text_less(c, a),
        text_less(a, b) && text_less(b, c) ==> text_less(a, c),
        text_less(b, a) && text_less(a, c) ==> text_less(b, c),
        text_less(a, c) && text_less(c, b) ==> text_less(a, b),
        !(text_less(a, b) && text_less(b, a)),
        !(text_less(b, c) && text_less(c, b)),
        !(text_less(a, c) && text_less(c, a)),
{
    lemma_text_less_irreflexive(a);
    lemma_text_less_irreflexive(b);
    lemma_text_less_irreflexive(c);
    lemma_text_less_total(a, b);
    lemma_text_less_total(b, c);
    lemma_text_less_total(a, c);
    if text_less(a, b) && text_less(b, c) {
        lemma_text_less_transitive(a, b, c);
    }
    if text_less(b, a) && text_less(a, c) {
        lemma_text_less_transitive(b, a, c);
    }
    if text_less(a, c) && text_less(c, b) {
        lemma_text_less_transitive(a, c, b);
    }
}

impl Ranked for Fill {
    open spec fn before(&self, other: &Fill) -> bool {
        canonical_before(*self, *other)
    }

    fn comes_before(&self, other: &Fill) -> (r: bool) {
        FillOrderingKey::should_come_before(self, other)
    }

    proof fn lemma_irreflexive(a: &Fill) {
        lemma_text_less_irreflexive(a.fill_key@);
    }

    proof fn lemma_transitive(a: &Fill, b: &Fill, c: &Fill) {
        lemma_text_order_facts(a.fill_key@, b.fill_key@, c.fill_key@);
    }

    proof fn lemma_not_before_transitive(a: &Fill, b: &Fill, c: &Fill) {
        lemma_text_order_facts(a.fill_key@, b.fill_key@, c.fill_key@);
    }
}

/// Fills in canonical order: no fill comes before one that stands earlier.
pub open spec fn canonically_sorted(fills: Seq<Fill>) -> bool {
    forall|i: int, j: int|
        0 <= i < j < fills.len() ==> !canonical_before(#[trigger] fills[j], #[trigger] fills[i])
}

/// Puts fills in canonical order. The result holds the same fills, each as often
/// as before, and fills that the order does not tell apart keep the order they
/// had.
pub fn sort_fills_deterministic(fills: &mut Vec<Fill>)
    ensures
        canonically_sorted(final(fills)@),
        final(fills)@.to_multiset() == old(fills)@.to_multiset(),
        final(fills)@.len() == old(fills)@.len(),
        is_stable_sort_of(final(fills)@, old(fills)@),
{
    sort_ranked(fills);
    assert forall|i: int, j: int| 0 <= i < j < fills@.len() implies !canonical_before(
        #[trigger] fills@[j],
        #[trigger] fills@[i],
    ) by {
        assert(!fills@[j].before(&fills@[i]));
    }
}

} // verus!
