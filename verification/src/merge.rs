//! Merging: the results of parts, one after the other. What a merge holds
//! does not depend on the order of the parts; only the positions do.

use vstd::prelude::*;
use vstd::seq_lib::{lemma_multiset_commutative, to_multiset_remove};

verus! {

/// What `part` gives for each item of `items`, one after the other.
pub open spec fn merged<T, R>(items: Seq<T>, part: spec_fn(T) -> Seq<R>) -> Seq<R>
    decreases items.len(),
{
    if items.len() == 0 {
        Seq::empty()
    } else {
        merged(items.drop_last(), part) + part(items.last())
    }
}

/// Taking one item out takes out what `part` gives for it, and nothing
/// else.
pub proof fn lemma_merged_remove<T, R>(items: Seq<T>, part: spec_fn(T) -> Seq<R>, at: int)
    requires
        0 <= at < items.len(),
    ensures
        merged(items, part).to_multiset() == merged(items.remove(at), part).to_multiset().add(
            part(items[at]).to_multiset(),
        ),
    decreases items.len(),
{
    let rest = items.drop_last();
    lemma_multiset_commutative(merged(rest, part), part(items.last()));
    if at == items.len() - 1 {
        assert(items.remove(at) == rest);
    } else {
        let without = items.remove(at);
        assert(without.drop_last() == rest.remove(at));
        assert(without.last() == items.last());
        lemma_merged_remove(rest, part, at);
        lemma_multiset_commutative(merged(rest.remove(at), part), part(items.last()));
        assert(merged(items, part).to_multiset() =~= merged(without, part).to_multiset().add(
            part(items[at]).to_multiset(),
        ));
    }
}

/// Two sequences of the same items, in whatever order, merge to the same
/// results, in whatever order.
pub proof fn lemma_merged_permutation<T, R>(a: Seq<T>, b: Seq<T>, part: spec_fn(T) -> Seq<R>)
    requires
        a.to_multiset() == b.to_multiset(),
    ensures
        merged(a, part).to_multiset() == merged(b, part).to_multiset(),
    decreases a.len(),
{
    a.to_multiset_ensures();
    b.to_multiset_ensures();
    if a.len() == 0 {
        assert(b.len() == 0);
    } else {
        let x = a.last();
        let shorter = a.drop_last();
        assert(a[a.len() - 1] == x);
        assert(a.contains(x));
        assert(a.to_multiset().count(x) > 0);
        assert(b.to_multiset().count(x) > 0);
        assert(b.contains(x));
        let at = choose|at: int| 0 <= at < b.len() && b[at] == x;
        let without = b.remove(at);
        assert(a.remove(a.len() - 1) == shorter);
        to_multiset_remove(a, a.len() - 1);
        to_multiset_remove(b, at);
        assert(shorter.to_multiset() == without.to_multiset());
        lemma_merged_permutation(shorter, without, part);
        lemma_merged_remove(b, part, at);
        lemma_multiset_commutative(merged(shorter, part), part(x));
    }
}

} // verus!
