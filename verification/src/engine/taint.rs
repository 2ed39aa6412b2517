//! Taint: a lifecycle is tainted when any fill that touched it is not attributed
//! to the builder, or has no attribution at all.

use crate::domain::attribution::Attribution;
use crate::domain::attribution::AttributionMode;
use crate::engine::records::Effect;
use crate::engine::records::Snapshot;
use crate::text::lemma_text_less_irreflexive;
use crate::text::lemma_text_less_total;
use crate::text::lemma_text_less_transitive;
use crate::text::str_equal;
use crate::text::str_less;
use crate::text::text_less;
use std::collections::HashMap;
use vstd::prelude::*;
use vstd::string::StringExecFns;

verus! {

/// The taint of one lifecycle.
#[derive(Debug, PartialEq, Eq)]
pub struct TaintInfo {
    /// Whether the lifecycle is tainted.
    pub is_tainted: bool,
    /// Names the first offending fill; `None` where the lifecycle is clean.
    pub reason: Option<String>,
}

impl Clone for TaintInfo {
    fn clone(&self) -> (r: TaintInfo)
        ensures
            r == *self,
    {
        TaintInfo {
            is_tainted: self.is_tainted,
            reason: match &self.reason {
                Some(s) => Some(s.clone()),
                None => None,
            },
        }
    }
}

/// The fills of one lifecycle, in increasing order of their keys, each once.
struct LifecycleFills {
    id: i64,
    keys: Vec<String>,
}

/// The attribution recorded for one fill key.
struct AttributionEntry {
    key: String,
    attribution: Attribution,
}

/// Strictly increasing in the order of texts.
spec fn strictly_sorted(keys: Seq<String>) -> bool {
    forall|i: int, j: int| 0 <= i < j < keys.len() ==> text_less(keys[i]@, keys[j]@)
}

/// The keys hold the text.
spec fn holds_key(keys: Seq<String>, key: Seq<char>) -> bool {
    exists|j: int| 0 <= j < keys.len() && (#[trigger] keys[j])@ == key
}

/// The attribution recorded last for a key, if any.
spec fn recorded(entries: Seq<AttributionEntry>, key: Seq<char>) -> Option<Attribution>
    decreases entries.len(),
{
    if entries.len() == 0 {
        None
    } else if entries.last().key@ == key {
        Some(entries.last().attribution)
    } else {
        recorded(entries.drop_last(), key)
    }
}

/// The name of a mode as the reason of a taint spells it.
pub open spec fn mode_name(mode: AttributionMode) -> Seq<char> {
    match mode {
        AttributionMode::Heuristic => "Heuristic"@,
        AttributionMode::Logs => "Logs"@,
    }
}

/// The reason given for a fill that taints a lifecycle.
pub open spec fn taint_reason(key: Seq<char>, attribution: Option<Attribution>) -> Seq<char> {
    match attribution {
        Some(a) => "Fill "@ + key + " not attributed to builder (mode="@ + mode_name(a.mode)
            + ")"@,
        None => "Fill "@ + key + " has no attribution data"@,
    }
}

/// Computes the taint of lifecycles from the fills that touched them and the
/// attribution of each fill.
pub struct TaintComputer {
    lifecycle_fills: Vec<LifecycleFills>,
    fill_attributions: Vec<AttributionEntry>,
}

impl TaintComputer {
    /// No lifecycle is registered twice, and the keys of each are in strictly
    /// increasing order.
    pub closed spec fn wf(&self) -> bool {
        &&& forall|i: int, j: int|
            0 <= i < j < self.lifecycle_fills@.len() ==> self.lifecycle_fills@[i].id
                != self.lifecycle_fills@[j].id
        &&& forall|i: int|
            0 <= i < self.lifecycle_fills@.len() ==> strictly_sorted(
                (#[trigger] self.lifecycle_fills@[i]).keys@,
            )
    }

    /// A lifecycle has had a fill registered.
    pub closed spec fn tracks(&self, lifecycle_id: i64) -> bool {
        exists|i: int|
            0 <= i < self.lifecycle_fills@.len() && (#[trigger] self.lifecycle_fills@[i]).id
                == lifecycle_id
    }

    /// A fill key is registered with a lifecycle.
    pub closed spec fn has_fill(&self, lifecycle_id: i64, key: Seq<char>) -> bool {
        exists|i: int, j: int|
            0 <= i < self.lifecycle_fills@.len() && self.lifecycle_fills@[i].id == lifecycle_id
                && 0 <= j < self.lifecycle_fills@[i].keys@.len() && (
            #[trigger] self.lifecycle_fills@[i].keys@[j])@ == key
    }

    /// The attribution set for a fill key, if any; the last one set counts.
    pub closed spec fn attribution_of(&self, key: Seq<char>) -> Option<Attribution> {
        recorded(self.fill_attributions@, key)
    }

    /// The fill taints the lifecycles it touches: it has no attribution, or one
    /// that says it is not attributed.
    pub open spec fn offends(&self, key: Seq<char>) -> bool {
        match self.attribution_of(key) {
            Some(a) => !a.attributed,
            None => true,
        }
    }

    /// The lifecycle is tainted: one of its fills offends.
    pub open spec fn tainted(&self, lifecycle_id: i64) -> bool {
        exists|key: Seq<char>| #[trigger] self.has_fill(lifecycle_id, key) && self.offends(key)
    }

    /// `key` is the first fill of the lifecycle, in the order of keys, that offends.
    pub open spec fn first_offender(&self, lifecycle_id: i64, key: Seq<char>) -> bool {
        &&& self.has_fill(lifecycle_id, key)
        &&& self.offends(key)
        &&& forall|other: Seq<char>|
            #[trigger] self.has_fill(lifecycle_id, other) && self.offends(other) ==> !text_less(
                other,
                key,
            )
    }

    /// `info` is the taint of the lifecycle: tainted exactly when a fill offends,
    /// and then the reason names the first offender and its mode.
    pub open spec fn is_taint_of(&self, lifecycle_id: i64, info: TaintInfo) -> bool {
        &&& info.is_tainted == self.tainted(lifecycle_id)
        &&& !info.is_tainted ==> info.reason is None
        &&& info.is_tainted ==> exists|key: Seq<char>|
            #[trigger] self.first_offender(lifecycle_id, key) && info.reason is Some
                && info.reason->Some_0@ == taint_reason(key, self.attribution_of(key))
    }

    /// A computer that knows no lifecycle and no attribution.
    pub fn new() -> (r: TaintComputer)
        ensures
            r.wf(),
            forall|id: i64| !r.tracks(id),
            forall|id: i64, key: Seq<char>| !r.has_fill(id, key),
            forall|key: Seq<char>| r.attribution_of(key) is None,
    {
        TaintComputer { lifecycle_fills: Vec::new(), fill_attributions: Vec::new() }
    }

    /// The index at which a lifecycle is registered.
    fn find_lifecycle(&self, lifecycle_id: i64) -> (r: Option<usize>)
        ensures
            match r {
                Some(i) => i < self.lifecycle_fills@.len() && self.lifecycle_fills@[i as int].id
                    == lifecycle_id,
                None => !self.tracks(lifecycle_id),
            },
    {
        let mut i: usize = 0;
        while i < self.lifecycle_fills.len()
            invariant
                i <= self.lifecycle_fills@.len(),
                forall|k: int| 0 <= k < i ==> self.lifecycle_fills@[k].id != lifecycle_id,
            decreases self.lifecycle_fills@.len() - i,
        {
            if self.lifecycle_fills[i].id == lifecycle_id {
                return Some(i);
            }
            i += 1;
        }
        None
    }

    /// Registers a fill as belonging to a lifecycle. Registering a fill never
    /// clears a taint, and registering one that offends taints the lifecycle.
    pub fn add_fill_to_lifecycle(&mut self, lifecycle_id: i64, fill_key: String)
        requires
            old(self).wf(),
        ensures
            final(self).wf(),
            forall|id: i64, key: Seq<char>|
                final(self).has_fill(id, key) <==> old(self).has_fill(id, key) || (id
                    == lifecycle_id && key == fill_key@),
            forall|id: i64| final(self).tracks(id) <==> old(self).tracks(id) || id == lifecycle_id,
            forall|key: Seq<char>| final(self).attribution_of(key) == old(self).attribution_of(key),
            old(self).tainted(lifecycle_id) ==> final(self).tainted(lifecycle_id),
            old(self).offends(fill_key@) ==> final(self).tainted(lifecycle_id),
    {
        let ghost before = self.lifecycle_fills@;
        let ghost new_key = fill_key@;
        match self.find_lifecycle(lifecycle_id) {
            None => {
                let mut keys: Vec<String> = Vec::new();
                keys.push(fill_key);
                self.lifecycle_fills.push(LifecycleFills { id: lifecycle_id, keys });
                proof {
                    let n = before.len() as int;
                    assert(self.lifecycle_fills@[n].keys@[0]@ == new_key);
                    assert forall|id: i64, key: Seq<char>|
                        self.has_fill(id, key) <==> old(self).has_fill(id, key) || (id
                            == lifecycle_id && key == new_key) by {
                        if old(self).has_fill(id, key) {
                            let (i, j) = choose|i: int, j: int|
                                0 <= i < before.len() && before[i].id == id && 0 <= j
                                    < before[i].keys@.len() && (#[trigger] before[i].keys@[j])@
                                    == key;
                            assert(self.lifecycle_fills@[i].keys@[j]@ == key);
                        }
                        if self.has_fill(id, key) {
                            let (i, j) = choose|i: int, j: int|
                                0 <= i < self.lifecycle_fills@.len() && self.lifecycle_fills@[i].id
                                    == id && 0 <= j < self.lifecycle_fills@[i].keys@.len() && (
                                #[trigger] self.lifecycle_fills@[i].keys@[j])@ == key;
                            if i < n {
                                assert(before[i].keys@[j]@ == key);
                            }
                        }
                    }
                    assert forall|id: i64|
                        self.tracks(id) <==> old(self).tracks(id) || id == lifecycle_id by {
                        if old(self).tracks(id) {
                            let i = choose|i: int|
                                0 <= i < before.len() && (#[trigger] before[i]).id == id;
                            assert(self.lifecycle_fills@[i].id == id);
                        }
                        if id == lifecycle_id {
                            assert(self.lifecycle_fills@[n].id == id);
                        }
                    }
                }
            },
            Some(index) => {
                let mut entry = self.lifecycle_fills.remove(index);
                let ghost old_keys = entry.keys@;
                let position = key_position(&entry.keys, fill_key.as_str());
                let present = position < entry.keys.len() && entry.keys[position] == fill_key;
                if !present {
                    entry.keys.insert(position, fill_key);
                    proof {
                        old_keys.insert_ensures(position as int, fill_key);
                        lemma_insert_keeps_sorted(old_keys, position as int, fill_key);
                    }
                }
                let ghost new_keys = entry.keys@;
                self.lifecycle_fills.insert(index, entry);
                proof {
                    let after = self.lifecycle_fills@;
                    assert(after.len() == before.len());
                    assert forall|i: int| 0 <= i < after.len() implies (#[trigger] after[i]).id
                        == before[i].id && (i != index ==> after[i] == before[i]) by {}
                    assert(after[index as int].keys@ == new_keys);
                    if present {
                        assert(old_keys[position as int]@ == new_key);
                        assert(holds_key(old_keys, new_key));
                    } else {
                        lemma_inserted_keys(old_keys, position as int, fill_key);
                    }
                    assert forall|key: Seq<char>| #[trigger]
                        holds_key(new_keys, key) <==> holds_key(old_keys, key) || key
                            == new_key by {}
                    assert forall|id: i64, key: Seq<char>|
                        self.has_fill(id, key) <==> old(self).has_fill(id, key) || (id
                            == lifecycle_id && key == new_key) by {
                        if old(self).has_fill(id, key) {
                            let (i, j) = choose|i: int, j: int|
                                0 <= i < before.len() && before[i].id == id && 0 <= j
                                    < before[i].keys@.len() && (#[trigger] before[i].keys@[j])@
                                    == key;
                            if i != index {
                                assert(after[i].keys@[j]@ == key);
                            } else {
                                assert(old_keys[j]@ == key);
                                assert(holds_key(old_keys, key));
                                assert(holds_key(new_keys, key));
                                let jj = choose|jj: int|
                                    0 <= jj < new_keys.len() && (#[trigger] new_keys[jj])@ == key;
                                assert(after[index as int].keys@[jj]@ == key);
                            }
                        }
                        if id == lifecycle_id && key == new_key {
                            assert(holds_key(new_keys, key));
                            let jj = choose|jj: int|
                                0 <= jj < new_keys.len() && (#[trigger] new_keys[jj])@ == key;
                            assert(after[index as int].keys@[jj]@ == key);
                        }
                        if self.has_fill(id, key) {
                            let (i, j) = choose|i: int, j: int|
                                0 <= i < after.len() && after[i].id == id && 0 <= j
                                    < after[i].keys@.len() && (#[trigger] after[i].keys@[j])@
                                    == key;
                            if i != index {
                                assert(before[i].keys@[j]@ == key);
                            } else {
                                assert(new_keys[j]@ == key);
                                assert(holds_key(new_keys, key));
                                if key != new_key {
                                    assert(holds_key(old_keys, key));
                                    let jj = choose|jj: int|
                                        0 <= jj < old_keys.len() && (#[trigger] old_keys[jj])@
                                            == key;
                                    assert(before[index as int].keys@[jj]@ == key);
                                }
                            }
                        }
                    }
                    assert forall|id: i64|
                        self.tracks(id) <==> old(self).tracks(id) || id == lifecycle_id by {
                        if old(self).tracks(id) {
                            let i = choose|i: int|
                                0 <= i < before.len() && (#[trigger] before[i]).id == id;
                            assert(after[i].id == id);
                        }
                        if self.tracks(id) {
                            let i = choose|i: int|
                                0 <= i < after.len() && (#[trigger] after[i]).id == id;
                            assert(before[i].id == id);
                        }
                        if id == lifecycle_id {
                            assert(after[index as int].id == id);
                        }
                    }
                }
            },
        }
        proof {
            if old(self).tainted(lifecycle_id) {
                let key = choose|key: Seq<char>|
                    #[trigger] old(self).has_fill(lifecycle_id, key) && old(self).offends(key);
                assert(self.has_fill(lifecycle_id, key) && self.offends(key));
            }
            if old(self).offends(new_key) {
                assert(self.has_fill(lifecycle_id, new_key) && self.offends(new_key));
            }
        }
    }

    /// Sets the attribution of a fill; an earlier one for the same key is replaced.
    pub fn set_attribution(&mut self, fill_key: String, attribution: Attribution)
        requires
            old(self).wf(),
        ensures
            final(self).wf(),
            forall|key: Seq<char>|
                final(self).attribution_of(key) == (if key == fill_key@ {
                    Some(attribution)
                } else {
                    old(self).attribution_of(key)
                }),
            forall|id: i64, key: Seq<char>| final(self).has_fill(id, key) == old(self).has_fill(
                id,
                key,
            ),
            forall|id: i64| final(self).tracks(id) == old(self).tracks(id),
    {
        let ghost before = self.fill_attributions@;
        self.fill_attributions.push(AttributionEntry { key: fill_key, attribution });
        assert(self.fill_attributions@.drop_last() =~= before);
        assert(self.lifecycle_fills@ == old(self).lifecycle_fills@);
        assert forall|id: i64, key: Seq<char>| self.has_fill(id, key) == old(self).has_fill(
            id,
            key,
        ) by {}
        assert forall|id: i64| self.tracks(id) == old(self).tracks(id) by {}
    }

    /// The attribution set for a fill key.
    fn lookup_attribution(&self, key: &str) -> (r: Option<&Attribution>)
        ensures
            match r {
                Some(a) => self.attribution_of(key@) == Some(*a),
                None => self.attribution_of(key@) is None,
            },
    {
        let mut i: usize = self.fill_attributions.len();
        assert(self.fill_attributions@.take(i as int) =~= self.fill_attributions@);
        while i > 0
            invariant
                i <= self.fill_attributions@.len(),
                recorded(self.fill_attributions@, key@) == recorded(
                    self.fill_attributions@.take(i as int),
                    key@,
                ),
            decreases i,
        {
            let ghost prefix = self.fill_attributions@.take(i as int);
            assert(prefix.last() == self.fill_attributions@[i - 1]);
            assert(prefix.drop_last() =~= self.fill_attributions@.take(i - 1));
            if str_equal(self.fill_attributions[i - 1].key.as_str(), key) {
                return Some(&self.fill_attributions[i - 1].attribution);
            }
            i -= 1;
        }
        None
    }

    /// The taint of a lifecycle. A lifecycle that is not registered is clean.
    pub fn compute_taint(&self, lifecycle_id: i64) -> (r: TaintInfo)
        requires
            self.wf(),
        ensures
            self.is_taint_of(lifecycle_id, r),
    {
        let index = match self.find_lifecycle(lifecycle_id) {
            Some(i) => i,
            None => {
                return TaintInfo { is_tainted: false, reason: None };
            },
        };
        let entry = &self.lifecycle_fills[index];
        let mut j: usize = 0;
        while j < entry.keys.len()
            invariant
                self.wf(),
                index < self.lifecycle_fills@.len(),
                *entry == self.lifecycle_fills@[index as int],
                entry.id == lifecycle_id,
                j <= entry.keys@.len(),
                forall|k: int| 0 <= k < j ==> !self.offends(#[trigger] entry.keys@[k]@),
            decreases entry.keys@.len() - j,
        {
            let key = &entry.keys[j];
            let found = self.lookup_attribution(key.as_str());
            let offends = match found {
                Some(a) => !a.attributed,
                None => true,
            };
            if offends {
                let reason = match found {
                    Some(a) => not_attributed_reason(key.as_str(), a.mode),
                    None => no_attribution_reason(key.as_str()),
                };
                proof {
                    assert(self.has_fill(lifecycle_id, key@));
                    assert forall|other: Seq<char>|
                        #[trigger] self.has_fill(lifecycle_id, other) && self.offends(
                            other,
                        ) implies !text_less(other, key@) by {
                        let (i, m) = choose|i: int, m: int|
                            0 <= i < self.lifecycle_fills@.len() && self.lifecycle_fills@[i].id
                                == lifecycle_id && 0 <= m < self.lifecycle_fills@[i].keys@.len()
                                && (#[trigger] self.lifecycle_fills@[i].keys@[m])@ == other;
                        assert(i == index);
                        lemma_text_less_irreflexive(key@);
                        lemma_text_less_total(other, key@);
                        if m > j {
                            assert(text_less(entry.keys@[j as int]@, entry.keys@[m]@));
                        }
                    }
                    assert(self.first_offender(lifecycle_id, key@));
                }
                return TaintInfo { is_tainted: true, reason: Some(reason) };
            }
            j += 1;
        }
        proof {
            if self.tainted(lifecycle_id) {
                let key = choose|key: Seq<char>|
                    #[trigger] self.has_fill(lifecycle_id, key) && self.offends(key);
                let (i, m) = choose|i: int, m: int|
                    0 <= i < self.lifecycle_fills@.len() && self.lifecycle_fills@[i].id
                        == lifecycle_id && 0 <= m < self.lifecycle_fills@[i].keys@.len() && (
                    #[trigger] self.lifecycle_fills@[i].keys@[m])@ == key;
                assert(i == index);
                assert(!self.offends(entry.keys@[m]@));
            }
        }
        TaintInfo { is_tainted: false, reason: None }
    }

    /// The taint of every registered lifecycle.
    pub fn compute_all_taints(&self) -> (r: HashMap<i64, TaintInfo>)
        requires
            self.wf(),
        ensures
            forall|id: i64| r@.contains_key(id) <==> self.tracks(id),
            forall|id: i64| #[trigger] r@.contains_key(id) ==> self.is_taint_of(id, r@[id]),
    {
        broadcast use vstd::std_specs::hash::group_hash_axioms;

        let mut taints: HashMap<i64, TaintInfo> = HashMap::new();
        let mut i: usize = 0;
        while i < self.lifecycle_fills.len()
            invariant
                self.wf(),
                i <= self.lifecycle_fills@.len(),
                forall|id: i64|
                    taints@.contains_key(id) <==> exists|k: int|
                        0 <= k < i && (#[trigger] self.lifecycle_fills@[k]).id == id,
                forall|id: i64|
                    #[trigger] taints@.contains_key(id) ==> self.is_taint_of(id, taints@[id]),
            decreases self.lifecycle_fills@.len() - i,
        {
            let id = self.lifecycle_fills[i].id;
            let info = self.compute_taint(id);
            let ghost before = taints@;
            taints.insert(id, info);
            proof {
                assert forall|other: i64|
                    taints@.contains_key(other) <==> exists|k: int|
                        0 <= k < i + 1 && (#[trigger] self.lifecycle_fills@[k]).id == other by {
                    if before.contains_key(other) {
                        let k = choose|k: int|
                            0 <= k < i && (#[trigger] self.lifecycle_fills@[k]).id == other;
                        assert(0 <= k < i + 1);
                    }
                    if other == id {
                        assert(self.lifecycle_fills@[i as int].id == other);
                    }
                }
            }
            i += 1;
        }
        taints
    }
}

/// The number of leading keys that come before `key`.
fn key_position(keys: &Vec<String>, key: &str) -> (p: usize)
    ensures
        p <= keys@.len(),
        forall|k: int| 0 <= k < p ==> text_less(#[trigger] keys@[k]@, key@),
        p < keys@.len() ==> !text_less(keys@[p as int]@, key@),
{
    let mut p: usize = 0;
    while p < keys.len()
        invariant
            p <= keys@.len(),
            forall|k: int| 0 <= k < p ==> text_less(#[trigger] keys@[k]@, key@),
        decreases keys@.len() - p,
    {
        if !str_less(keys[p].as_str(), key) {
            return p;
        }
        p += 1;
    }
    p
}

/// A key put where the keys before it are smaller and the one after it is not,
/// and is not the key itself, leaves the keys strictly increasing.
proof fn lemma_insert_keeps_sorted(keys: Seq<String>, p: int, key: String)
    requires
        strictly_sorted(keys),
        0 <= p <= keys.len(),
        forall|k: int| 0 <= k < p ==> text_less(#[trigger] keys[k]@, key@),
        p < keys.len() ==> !text_less(keys[p]@, key@) && keys[p]@ != key@,
    ensures
        strictly_sorted(keys.insert(p, key)),
{
    let out = keys.insert(p, key);
    keys.insert_ensures(p, key);
    assert forall|i: int, j: int| 0 <= i < j < out.len() implies text_less(out[i]@, out[j]@) by {
        if j == p {
            assert(out[i] == keys[i]);
        } else if i == p {
            assert(out[j] == keys[j - 1]);
            lemma_text_less_total(keys[p]@, key@);
            if j - 1 > p {
                lemma_text_less_transitive(key@, keys[p]@, keys[j - 1]@);
            }
        } else {
            let ii = if i < p { i } else { i - 1 };
            let jj = if j < p { j } else { j - 1 };
            assert(out[i] == keys[ii]);
            assert(out[j] == keys[jj]);
        }
    }
}

/// Inserting a key adds it to what the keys hold, and nothing else.
proof fn lemma_inserted_keys(keys: Seq<String>, p: int, key: String)
    requires
        0 <= p <= keys.len(),
    ensures
        forall|k: Seq<char>| #[trigger]
            holds_key(keys.insert(p, key), k) <==> holds_key(keys, k) || k == key@,
{
    let out = keys.insert(p, key);
    keys.insert_ensures(p, key);
    assert forall|k: Seq<char>| #[trigger]
        holds_key(out, k) <==> holds_key(keys, k) || k == key@ by {
        if holds_key(keys, k) {
            let j = choose|j: int| 0 <= j < keys.len() && (#[trigger] keys[j])@ == k;
            if j < p {
                assert(out[j]@ == k);
            } else {
                assert(out[j + 1]@ == k);
            }
        }
        if k == key@ {
            assert(out[p]@ == k);
        }
        if holds_key(out, k) {
            let j = choose|j: int| 0 <= j < out.len() && (#[trigger] out[j])@ == k;
            if j < p {
                assert(keys[j]@ == k);
            } else if j > p {
                assert(keys[j - 1]@ == k);
            }
        }
    }
}

/// The reason for a fill whose attribution says it is not attributed.
fn not_attributed_reason(key: &str, mode: AttributionMode) -> (r: String)
    ensures
        r@ == "Fill "@ + key@ + " not attributed to builder (mode="@ + mode_name(mode) + ")"@,
{
    let mut reason = "Fill ".to_owned();
    reason.append(key);
    reason.append(" not attributed to builder (mode=");
    match mode {
        AttributionMode::Heuristic => reason.append("Heuristic"),
        AttributionMode::Logs => reason.append("Logs"),
    }
    reason.append(")");
    reason
}

/// The reason for a fill without an attribution.
fn no_attribution_reason(key: &str) -> (r: String)
    ensures
        r@ == "Fill "@ + key@ + " has no attribution data"@,
{
    let mut reason = "Fill ".to_owned();
    reason.append(key);
    reason.append(" has no attribution data");
    reason
}

/// Filters rows for builder-only queries: rows of lifecycles that are tainted, or
/// of which no taint is known, are left out.
pub struct BuilderOnlyFilter<'a> {
    taint_infos: &'a HashMap<i64, TaintInfo>,
}

/// A lifecycle is let through: its taint is known and it is clean.
pub open spec fn lets_through(infos: Map<i64, TaintInfo>, lifecycle_id: i64) -> bool {
    infos.contains_key(lifecycle_id) && !infos[lifecycle_id].is_tainted
}

impl<'a> BuilderOnlyFilter<'a> {
    /// The taints that the filter decides by.
    pub closed spec fn infos(&self) -> Map<i64, TaintInfo> {
        self.taint_infos@
    }

    /// A filter over the taints given.
    pub fn new(taint_infos: &'a HashMap<i64, TaintInfo>) -> (r: BuilderOnlyFilter<'a>)
        ensures
            r.infos() == taint_infos@,
    {
        BuilderOnlyFilter { taint_infos }
    }

    /// True if the rows of a lifecycle belong in builder-only output.
    pub fn include_lifecycle(&self, lifecycle_id: i64) -> (r: bool)
        ensures
            r == lets_through(self.infos(), lifecycle_id),
    {
        broadcast use vstd::std_specs::hash::group_hash_axioms;

        match self.taint_infos.get(&lifecycle_id) {
            Some(info) => !info.is_tainted,
            None => false,
        }
    }

    /// The snapshots that belong in builder-only output, in their order.
    pub fn filter_snapshots(&self, snapshots: &[Snapshot]) -> (r: Vec<Snapshot>)
        ensures
            r@ == snapshots@.filter(|s: Snapshot| lets_through(self.infos(), s.lifecycle_id)),
    {
        let ghost keep = |s: Snapshot| lets_through(self.infos(), s.lifecycle_id);
        let mut out: Vec<Snapshot> = Vec::new();
        let mut i: usize = 0;
        proof {
            reveal(Seq::filter);
            assert(snapshots@.take(0) =~= Seq::<Snapshot>::empty());
        }
        while i < snapshots.len()
            invariant
                i <= snapshots@.len(),
                keep == |s: Snapshot| lets_through(self.infos(), s.lifecycle_id),
                out@ == snapshots@.take(i as int).filter(keep),
            decreases snapshots@.len() - i,
        {
            proof {
                reveal(Seq::filter);
                assert(snapshots@.take(i + 1).drop_last() =~= snapshots@.take(i as int));
                assert(snapshots@.take(i + 1).last() == snapshots@[i as int]);
            }
            if self.include_lifecycle(snapshots[i].lifecycle_id) {
                out.push(snapshots[i]);
            }
            i += 1;
        }
        assert(snapshots@.take(i as int) =~= snapshots@);
        out
    }

    /// The effects that belong in builder-only output, in their order.
    pub fn filter_effects(&self, effects: &[Effect]) -> (r: Vec<Effect>)
        ensures
            r@ == effects@.filter(|e: Effect| lets_through(self.infos(), e.lifecycle_id)),
    {
        let ghost keep = |e: Effect| lets_through(self.infos(), e.lifecycle_id);
        let mut out: Vec<Effect> = Vec::new();
        let mut i: usize = 0;
        proof {
            reveal(Seq::filter);
            assert(effects@.take(0) =~= Seq::<Effect>::empty());
        }
        while i < effects.len()
            invariant
                i <= effects@.len(),
                keep == |e: Effect| lets_through(self.infos(), e.lifecycle_id),
                out@ == effects@.take(i as int).filter(keep),
            decreases effects@.len() - i,
        {
            proof {
                reveal(Seq::filter);
                assert(effects@.take(i + 1).drop_last() =~= effects@.take(i as int));
                assert(effects@.take(i + 1).last() == effects@[i as int]);
            }
            if self.include_lifecycle(effects[i].lifecycle_id) {
                out.push(effects[i].clone());
            }
            i += 1;
        }
        assert(effects@.take(i as int) =~= effects@);
        out
    }

    /// True if a lifecycle among those given is left out.
    pub fn had_exclusions(&self, lifecycle_ids: &[i64]) -> (r: bool)
        ensures
            r == exists|i: int|
                0 <= i < lifecycle_ids@.len() && !lets_through(
                    self.infos(),
                    #[trigger] lifecycle_ids@[i],
                ),
    {
        let mut i: usize = 0;
        while i < lifecycle_ids.len()
            invariant
                i <= lifecycle_ids@.len(),
                forall|k: int|
                    0 <= k < i ==> lets_through(self.infos(), #[trigger] lifecycle_ids@[k]),
            decreases lifecycle_ids@.len() - i,
        {
            if !self.include_lifecycle(lifecycle_ids[i]) {
                return true;
            }
            i += 1;
        }
        false
    }
}

impl Default for TaintComputer {
    fn default() -> (r: TaintComputer)
        ensures
            r.wf(),
    {
        TaintComputer::new()
    }
}

} // verus!
