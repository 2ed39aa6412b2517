//! Sorting by a strict weak order that the element type states and proves.

use vstd::multiset::Multiset;
use vstd::prelude::*;

verus! {

/// A type with a strict weak order: `before` is irreflexive and transitive, and
/// so is "neither comes before the other".
pub trait Ranked: Sized {
    /// `self` comes strictly before `other`.
    spec fn before(&self, other: &Self) -> bool;

    /// Decides `before`.
    fn comes_before(&self, other: &Self) -> (r: bool)
        ensures
            r == self.before(other),
    ;

    /// Nothing comes before itself.
    proof fn lemma_irreflexive(a: &Self)
        ensures
            !a.before(a),
    ;

    /// `before` is transitive.
    proof fn lemma_transitive(a: &Self, b: &Self, c: &Self)
        requires
            a.before(b),
            b.before(c),
        ensures
            a.before(c),
    ;

    /// "Does not come before" is transitive.
    proof fn lemma_not_before_transitive(a: &Self, b: &Self, c: &Self)
        requires
            !a.before(b),
            !b.before(c),
        ensures
            !a.before(c),
    ;
}

/// No element comes before one that stands earlier.
pub open spec fn is_sorted<T: Ranked>(s: Seq<T>) -> bool {
    forall|i: int, j: int| 0 <= i < j < s.len() ==> !(#[trigger] s[j]).before(#[trigger] &s[i])
}

/// Neither comes before the other.
pub open spec fn same_rank<T: Ranked>(a: T, b: T) -> bool {
    !a.before(&b) && !b.before(&a)
}

/// The elements of the rank of `x`.
pub open spec fn rank_class<T: Ranked>(x: T) -> spec_fn(T) -> bool {
    |e: T| same_rank(e, x)
}

/// `sorted` holds the elements of `start` in the order of `before`, those of the
/// same rank in the order they had in `start`.
pub open spec fn is_stable_sort_of<T: Ranked>(sorted: Seq<T>, start: Seq<T>) -> bool {
    &&& is_sorted(sorted)
    &&& sorted.to_multiset() == start.to_multiset()
    &&& forall|x: T| #[trigger] sorted.filter(rank_class(x)) == start.filter(rank_class(x))
}

/// Of a sequence whose elements all come before `y`, none is of the rank of
/// something of the rank of `y`.
proof fn lemma_none_of_rank<T: Ranked>(s: Seq<T>, y: T, x: T)
    requires
        forall|k: int| 0 <= k < s.len() ==> (#[trigger] s[k]).before(&y),
        same_rank(y, x),
    ensures
        s.filter(rank_class(x)) == Seq::<T>::empty(),
    decreases s.len(),
{
    reveal(Seq::filter);
    if s.len() > 0 {
        let rest = s.drop_last();
        assert forall|k: int| 0 <= k < rest.len() implies (#[trigger] rest[k]).before(&y) by {
            assert(rest[k] == s[k]);
        }
        lemma_none_of_rank(rest, y, x);
        let last = s.last();
        assert(last == s[s.len() - 1]);
        if same_rank(last, x) {
            // last ~ x and x ~ y, so last does not come before y
            T::lemma_not_before_transitive(&last, &x, &y);
        }
    }
}

/// The last element of a sorted sequence is the last of its rank, and nothing of
/// the sequence comes after it.
proof fn lemma_last_of_sorted<T: Ranked>(a: Seq<T>)
    requires
        a.len() > 0,
        is_sorted(a),
    ensures
        a.filter(rank_class(a.last())) == a.drop_last().filter(rank_class(a.last())).push(
            a.last(),
        ),
        forall|e: T| a.contains(e) ==> !a.last().before(&e) || e == a.last(),
{
    reveal(Seq::filter);
    T::lemma_irreflexive(&a.last());
    assert forall|e: T| a.contains(e) implies !a.last().before(&e) || e == a.last() by {
        let i = choose|i: int| 0 <= i < a.len() && a[i] == e;
        if i < a.len() - 1 {
            assert(!a[a.len() - 1].before(&a[i]));
        }
    }
}

/// Two sorted sequences that agree rank by rank are the same sequence.
pub proof fn lemma_sorted_by_classes_unique<T: Ranked>(a: Seq<T>, b: Seq<T>)
    requires
        is_sorted(a),
        is_sorted(b),
        a.len() == b.len(),
        forall|x: T| #[trigger] a.filter(rank_class(x)) == b.filter(rank_class(x)),
    ensures
        a == b,
    decreases a.len(),
{
    if a.len() == 0 {
        assert(a =~= b);
    } else {
        let la = a.last();
        let lb = b.last();
        let class_a = rank_class(la);
        let class_b = rank_class(lb);
        lemma_last_of_sorted(a);
        lemma_last_of_sorted(b);
        // the last of `a` occurs in `b`, and the last of `b` in `a`
        assert(a.filter(class_a) == b.filter(class_a));
        assert(b.filter(class_a).last() == la);
        assert(b.filter(class_a).contains(la)) by {
            assert(b.filter(class_a)[b.filter(class_a).len() - 1] == la);
        }
        b.lemma_filter_contains_rev(class_a, la);
        assert(a.filter(class_b) == b.filter(class_b));
        assert(a.filter(class_b).last() == lb);
        assert(a.filter(class_b).contains(lb)) by {
            assert(a.filter(class_b)[a.filter(class_b).len() - 1] == lb);
        }
        a.lemma_filter_contains_rev(class_b, lb);
        // so they are of one rank, and each the last of it
        T::lemma_irreflexive(&la);
        assert(same_rank(lb, la));
        assert(class_a(lb));
        assert(b.filter(class_a) == b.drop_last().filter(class_a).push(lb)) by {
            reveal(Seq::filter);
        }
        assert(la == lb);
        let shorter_a = a.drop_last();
        let shorter_b = b.drop_last();
        assert forall|i: int, j: int| 0 <= i < j < shorter_a.len() implies !(
        #[trigger] shorter_a[j]).before(#[trigger] &shorter_a[i]) by {
            assert(!a[j].before(&a[i]));
        }
        assert forall|i: int, j: int| 0 <= i < j < shorter_b.len() implies !(
        #[trigger] shorter_b[j]).before(#[trigger] &shorter_b[i]) by {
            assert(!b[j].before(&b[i]));
        }
        assert forall|x: T| #[trigger]
            shorter_a.filter(rank_class(x)) == shorter_b.filter(rank_class(x)) by {
            let class = rank_class(x);
            reveal(Seq::filter);
            assert(a.filter(class) == b.filter(class));
            if class(la) {
                assert(shorter_a.filter(class).push(la).drop_last() =~= shorter_a.filter(class));
                assert(shorter_b.filter(class).push(lb).drop_last() =~= shorter_b.filter(class));
            }
        }
        lemma_sorted_by_classes_unique(shorter_a, shorter_b);
        assert(a =~= shorter_a.push(la));
        assert(b =~= shorter_b.push(lb));
    }
}

/// A stable sort is determined: two stable sorts of one sequence are the same.
pub proof fn lemma_stable_sort_unique<T: Ranked>(a: Seq<T>, b: Seq<T>, start: Seq<T>)
    requires
        is_stable_sort_of(a, start),
        is_stable_sort_of(b, start),
    ensures
        a == b,
{
    a.to_multiset_ensures();
    b.to_multiset_ensures();
    assert forall|x: T| #[trigger] a.filter(rank_class(x)) == b.filter(rank_class(x)) by {
        assert(a.filter(rank_class(x)) == start.filter(rank_class(x)));
        assert(b.filter(rank_class(x)) == start.filter(rank_class(x)));
    }
    lemma_sorted_by_classes_unique(a, b);
}

/// The number of leading elements of `v` that come before `x`.
fn insertion_point<T: Ranked>(v: &Vec<T>, x: &T) -> (p: usize)
    ensures
        p <= v@.len(),
        forall|k: int| 0 <= k < p ==> (#[trigger] v@[k]).before(x),
        p < v@.len() ==> !v@[p as int].before(x),
{
    let mut p: usize = 0;
    while p < v.len()
        invariant
            p <= v@.len(),
            forall|k: int| 0 <= k < p ==> (#[trigger] v@[k]).before(x),
        decreases v@.len() - p,
    {
        if !v[p].comes_before(x) {
            return p;
        }
        p += 1;
    }
    p
}

/// Sorts a vector by `before`. The result holds the same elements, each as often
/// as before; no element comes before one that stands earlier; and elements of the
/// same rank keep the order they had. This determines the result.
pub fn sort_ranked<T: Ranked>(v: &mut Vec<T>)
    ensures
        is_sorted(final(v)@),
        final(v)@.to_multiset() == old(v)@.to_multiset(),
        final(v)@.len() == old(v)@.len(),
        is_stable_sort_of(final(v)@, old(v)@),
{
    broadcast use vstd::seq_lib::group_to_multiset_ensures;
    broadcast use vstd::multiset::group_multiset_axioms;

    let mut out: Vec<T> = Vec::new();
    let ghost start = v@;
    assert(out@.to_multiset().add(v@.to_multiset()) =~= start.to_multiset());
    assert forall|x: T| #[trigger]
        v@.filter(rank_class(x)) + out@.filter(rank_class(x)) == start.filter(rank_class(x)) by {
        reveal(Seq::filter);
        assert(out@.filter(rank_class(x)) =~= Seq::<T>::empty());
        assert(v@.filter(rank_class(x)) + out@.filter(rank_class(x)) =~= v@.filter(rank_class(x)));
    }
    while v.len() > 0
        invariant
            is_sorted(out@),
            out@.to_multiset().add(v@.to_multiset()) == start.to_multiset(),
            out@.len() + v@.len() == start.len(),
            forall|x: T| #[trigger]
                v@.filter(rank_class(x)) + out@.filter(rank_class(x)) == start.filter(
                    rank_class(x),
                ),
        decreases v@.len(),
    {
        let ghost before_pop = v@;
        let ghost before_insert = out@;
        let x = v.pop().unwrap();
        assert(before_pop =~= v@.push(x));
        let p = insertion_point(&out, &x);
        out.insert(p, x);
        proof {
            before_insert.insert_ensures(p as int, x);
            assert forall|i: int, j: int| 0 <= i < j < out@.len() implies !(#[trigger] out@[j]).before(
                #[trigger] &out@[i],
            ) by {
                if j == p {
                    T::lemma_irreflexive(&x);
                    if x.before(&out@[i]) {
                        T::lemma_transitive(&x, &out@[i], &x);
                    }
                } else if i == p {
                    let jj = j - 1;
                    assert(out@[j] == before_insert[jj]);
                    if jj > p {
                        T::lemma_not_before_transitive(&before_insert[jj], &before_insert[p as int], &x);
                    }
                } else {
                    let ii = if i < p { i } else { i - 1 };
                    let jj = if j < p { j } else { j - 1 };
                    assert(out@[i] == before_insert[ii]);
                    assert(out@[j] == before_insert[jj]);
                }
            }
            let y = x;
            let head = before_insert.subrange(0, p as int);
            let tail = before_insert.subrange(p as int, before_insert.len() as int);
            assert(before_insert =~= head + tail);
            assert(out@ =~= head.push(y) + tail);
            assert forall|c: T| #[trigger]
                v@.filter(rank_class(c)) + out@.filter(rank_class(c)) == start.filter(
                    rank_class(c),
                ) by {
                let class = rank_class(c);
                v@.lemma_filter_push(y, class);
                head.lemma_filter_push(y, class);
                Seq::filter_distributes_over_add(head, tail, class);
                Seq::filter_distributes_over_add(head.push(y), tail, class);
                assert(before_pop.filter(class) + before_insert.filter(class) == start.filter(
                    class,
                ));
                if class(y) {
                    assert(same_rank(y, c));
                    lemma_none_of_rank(head, y, c);
                    assert(head.filter(class) =~= Seq::<T>::empty());
                    assert(out@.filter(class) =~= seq![y] + tail.filter(class));
                    assert(before_insert.filter(class) =~= tail.filter(class));
                    assert(before_pop.filter(class) =~= v@.filter(class).push(y));
                    assert(v@.filter(class) + out@.filter(class) =~= before_pop.filter(class)
                        + before_insert.filter(class));
                } else {
                    assert(out@.filter(class) =~= before_insert.filter(class));
                    assert(before_pop.filter(class) =~= v@.filter(class));
                }
            }
            vstd::seq_lib::to_multiset_build(v@, x);
            vstd::seq_lib::to_multiset_insert(before_insert, p as int, x);
            assert(before_pop.to_multiset() =~= v@.to_multiset().insert(x));
            assert(out@.to_multiset() =~= before_insert.to_multiset().insert(x));
            assert(out@.to_multiset().add(v@.to_multiset()) =~= before_insert.to_multiset().add(
                before_pop.to_multiset(),
            ));
        }
    }
    assert(v@.to_multiset() =~= Multiset::<T>::empty());
    assert(out@.to_multiset() =~= start.to_multiset());
    assert forall|x: T| #[trigger] out@.filter(rank_class(x)) == start.filter(rank_class(x)) by {
        reveal(Seq::filter);
        assert(v@.filter(rank_class(x)) =~= Seq::<T>::empty());
        assert(v@.filter(rank_class(x)) + out@.filter(rank_class(x)) =~= out@.filter(
            rank_class(x),
        ));
    }
    *v = out;
}

} // verus!
