//! Sorting by a total preorder on the views of the items.

use vstd::prelude::*;
use vstd::multiset::{Multiset, group_multiset_axioms, lemma_multiset_empty_len};
use vstd::relations::total_ordering;
use vstd::seq_lib::{lemma_sorted_unique, to_multiset_build, to_multiset_insert, to_multiset_len};

verus! {

/// A total preorder on the views of items of type `T`, with a way to decide
/// it on the items themselves.
pub trait Arrangement<T: View> {
    /// `a` may stand before `b`.
    spec fn le(a: T::V, b: T::V) -> bool;

    /// Of any two views, one may stand before the other.
    proof fn lemma_total(a: T::V, b: T::V)
        ensures
            Self::le(a, b) || Self::le(b, a),
    ;

    /// What may stand before a view may stand before all that follow it.
    proof fn lemma_transitive(a: T::V, b: T::V, c: T::V)
        requires
            Self::le(a, b),
            Self::le(b, c),
        ensures
            Self::le(a, c),
    ;

    /// Decides `le` on two items.
    fn precedes(a: &T, b: &T) -> (r: bool)
        ensures
            r == Self::le(a@, b@),
    ;
}

/// The views of a sequence of items, in the same order.
pub open spec fn views<T: View>(items: Seq<T>) -> Seq<T::V> {
    items.map_values(|x: T| x@)
}

/// Every view may stand before all that follow it.
pub open spec fn arranged<T: View, O: Arrangement<T>>(s: Seq<T::V>) -> bool {
    forall|i: int, j: int| 0 <= i < j < s.len() ==> #[trigger] O::le(s[i], s[j])
}

/// `out` holds the views of `items`, each as often as `items` does, in an
/// order that `O` accepts.
pub open spec fn is_arrangement<T: View, O: Arrangement<T>>(
    items: Seq<T::V>,
    out: Seq<T::V>,
) -> bool {
    &&& arranged::<T, O>(out)
    &&& out.to_multiset() == items.to_multiset()
}

/// Puts `item` into the arranged vector `out`, behind everything that may
/// stand before it.
fn insert_arranged<T: View, O: Arrangement<T>>(out: &mut Vec<T>, item: T)
    requires
        arranged::<T, O>(views(old(out)@)),
    ensures
        arranged::<T, O>(views(final(out)@)),
        views(final(out)@).to_multiset() == views(old(out)@).to_multiset().insert(item@),
{
    broadcast use to_multiset_insert;

    let ghost before = views(out@);
    let n = out.len();
    let mut p: usize = 0;
    while p < n && O::precedes(&out[p], &item)
        invariant
            n == out@.len(),
            p <= n,
            before == views(out@),
            forall|k: int| 0 <= k < p ==> #[trigger] O::le(before[k], item@),
        decreases n - p,
    {
        p = p + 1;
    }
    proof {
        assert forall|k: int| p <= k < n implies #[trigger] O::le(item@, before[k]) by {
            O::lemma_total(before[p as int], item@);
            if k > p {
                assert(O::le(before[p as int], before[k]));
                O::lemma_transitive(item@, before[p as int], before[k]);
            }
        }
    }
    out.insert(p, item);
    proof {
        let after = views(out@);
        assert(after =~= before.insert(p as int, item@));
        assert forall|i: int, j: int| 0 <= i < j < after.len() implies #[trigger] O::le(
            after[i],
            after[j],
        ) by {
            if j < p {
                assert(O::le(before[i], before[j]));
            } else if j == p {
                assert(O::le(before[i], item@));
            } else if i < p {
                assert(O::le(before[i], before[j - 1]));
            } else if i == p {
                assert(O::le(item@, before[j - 1]));
            } else {
                assert(O::le(before[i - 1], before[j - 1]));
            }
        }
    }
}

/// An empty sequence holds nothing.
proof fn lemma_nothing_in_empty<A>(s: Seq<A>)
    requires
        s.len() == 0,
    ensures
        s.to_multiset() == Multiset::<A>::empty(),
{
    to_multiset_len(s);
    lemma_multiset_empty_len(s.to_multiset());
}

/// Sorts `items` by the preorder `O`.
pub fn arrange<T: View, O: Arrangement<T>>(items: Vec<T>) -> (out: Vec<T>)
    ensures
        is_arrangement::<T, O>(views(items@), views(out@)),
{
    broadcast use group_multiset_axioms;

    let ghost all = views(items@);
    let mut rest = items;
    let mut out: Vec<T> = Vec::new();
    proof {
        lemma_nothing_in_empty(views(out@));
        assert(all.to_multiset().add(Multiset::empty()) =~= all.to_multiset());
    }
    while rest.len() > 0
        invariant
            arranged::<T, O>(views(out@)),
            views(rest@).to_multiset().add(views(out@).to_multiset()) == all.to_multiset(),
        decreases rest@.len(),
    {
        let ghost rest_before = views(rest@);
        let ghost out_before = views(out@);
        let item = rest.pop().unwrap();
        proof {
            assert(rest_before =~= views(rest@).push(item@));
            to_multiset_build(views(rest@), item@);
        }
        insert_arranged::<T, O>(&mut out, item);
        assert(views(rest@).to_multiset().add(views(out@).to_multiset())
            =~= rest_before.to_multiset().add(out_before.to_multiset()));
    }
    proof {
        lemma_nothing_in_empty(views(rest@));
        assert(Multiset::<T::V>::empty().add(views(out@).to_multiset()) =~= views(
            out@,
        ).to_multiset());
    }
    out
}

/// Two views that may each stand before the other are the same view.
pub open spec fn tells_apart<T: View, O: Arrangement<T>>() -> bool {
    forall|a: T::V, b: T::V| #[trigger] O::le(a, b) && #[trigger] O::le(b, a) ==> a == b
}

/// An order that tells all views apart leaves no choice: two arrangements of
/// the same items are the same sequence.
pub proof fn lemma_arrangement_unique<T: View, O: Arrangement<T>>(
    items: Seq<T::V>,
    first: Seq<T::V>,
    second: Seq<T::V>,
)
    requires
        tells_apart::<T, O>(),
        is_arrangement::<T, O>(items, first),
        is_arrangement::<T, O>(items, second),
    ensures
        first == second,
{
    let leq = |a: T::V, b: T::V| O::le(a, b);
    assert(total_ordering(leq)) by {
        assert forall|a: T::V, b: T::V| #[trigger] leq(a, b) || leq(b, a) by {
            O::lemma_total(a, b);
        }
        assert forall|a: T::V, b: T::V| #[trigger] leq(a, b) && #[trigger] leq(b, a) implies a
            == b by {
            assert(O::le(a, b) && O::le(b, a));
        }
        assert forall|a: T::V, b: T::V, c: T::V| #[trigger]
            leq(a, b) && #[trigger] leq(b, c) implies leq(a, c) by {
            O::lemma_transitive(a, b, c);
        }
        assert forall|a: T::V| #[trigger] leq(a, a) by {
            O::lemma_total(a, a);
        }
    }
    assert forall|i: int, j: int| 0 <= i < j < first.len() implies #[trigger] leq(
        first[i],
        first[j],
    ) by {
        assert(O::le(first[i], first[j]));
    }
    assert forall|i: int, j: int| 0 <= i < j < second.len() implies #[trigger] leq(
        second[i],
        second[j],
    ) by {
        assert(O::le(second[i], second[j]));
    }
    lemma_sorted_unique(first, second, leq);
}

} // verus!
