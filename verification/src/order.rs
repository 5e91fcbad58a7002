//! Putting things in order by rank: the higher rank first, and of two
//! with the same rank the one that was first before.

use vstd::prelude::*;

verus! {

/// Where a thing of rank `rank` goes into ranks that are in order: before
/// the first rank that is lower, so after all that are as high.
pub open spec fn place_of(sorted: Seq<int>, rank: int) -> int
    decreases sorted.len(),
{
    if sorted.len() == 0 {
        0
    } else if sorted.last() >= rank {
        sorted.len() as int
    } else {
        place_of(sorted.drop_last(), rank)
    }
}

/// The ranks of the first `n` things, in order.
pub open spec fn ordered_ranks_upto(ranks: Seq<int>, n: nat) -> Seq<int>
    decreases n,
{
    if n == 0 || n > ranks.len() {
        Seq::empty()
    } else {
        let before = ordered_ranks_upto(ranks, (n - 1) as nat);
        before.insert(place_of(before, ranks[n - 1]), ranks[n - 1])
    }
}

/// The first `n` things, in the order of their ranks.
pub open spec fn ordered_upto<T>(items: Seq<T>, ranks: Seq<int>, n: nat) -> Seq<T>
    decreases n,
{
    if n == 0 || n > items.len() || n > ranks.len() {
        Seq::empty()
    } else {
        ordered_upto(items, ranks, (n - 1) as nat).insert(
            place_of(ordered_ranks_upto(ranks, (n - 1) as nat), ranks[n - 1]),
            items[n - 1],
        )
    }
}

/// The things in the order of their ranks.
pub open spec fn ordered<T>(items: Seq<T>, ranks: Seq<int>) -> Seq<T> {
    ordered_upto(items, ranks, items.len())
}

/// The ranks as numbers.
pub open spec fn rank_values(ranks: Seq<i128>) -> Seq<int> {
    Seq::new(ranks.len(), |i: int| ranks[i] as int)
}

/// A place is a position in the ranks or their end.
pub proof fn lemma_place_bounds(sorted: Seq<int>, rank: int)
    ensures
        0 <= place_of(sorted, rank) <= sorted.len(),
    decreases sorted.len(),
{
    if sorted.len() > 0 && sorted.last() < rank {
        lemma_place_bounds(sorted.drop_last(), rank);
    }
}

proof fn lemma_place_splits(sorted: Seq<int>, rank: int)
    requires
        forall|i: int, j: int| 0 <= i <= j < sorted.len() ==> sorted[i] >= sorted[j],
    ensures
        forall|i: int| 0 <= i < place_of(sorted, rank) ==> sorted[i] >= rank,
        forall|i: int| place_of(sorted, rank) <= i < sorted.len() ==> sorted[i] < rank,
    decreases sorted.len(),
{
    if sorted.len() > 0 && sorted.last() < rank {
        let shorter = sorted.drop_last();
        lemma_place_splits(shorter, rank);
        lemma_place_bounds(shorter, rank);
        assert forall|i: int| 0 <= i < place_of(sorted, rank) implies sorted[i] >= rank by {
            assert(shorter[i] == sorted[i]);
        }
        assert forall|i: int| place_of(sorted, rank) <= i < sorted.len() implies sorted[i]
            < rank by {
            if i < shorter.len() {
                assert(shorter[i] == sorted[i]);
            }
        }
    }
}

/// Ranks in order are in order: none is higher than one before it.
pub proof fn lemma_ordered_ranks_sorted(ranks: Seq<int>, n: nat)
    requires
        n <= ranks.len(),
    ensures
        ordered_ranks_upto(ranks, n).len() == n,
        forall|i: int, j: int|
            0 <= i <= j < n ==> ordered_ranks_upto(ranks, n)[i] >= ordered_ranks_upto(ranks, n)[j],
    decreases n,
{
    if n > 0 {
        lemma_ordered_ranks_sorted(ranks, (n - 1) as nat);
        let before = ordered_ranks_upto(ranks, (n - 1) as nat);
        lemma_place_bounds(before, ranks[n - 1]);
        lemma_place_splits(before, ranks[n - 1]);
    }
}

/// The things in the order of their ranks, which stand at the places of
/// their things.
pub fn sort_by_rank<T>(items: Vec<T>, ranks: &Vec<i128>) -> (r: Vec<T>)
    requires
        ranks@.len() == items@.len(),
    ensures
        r@ == ordered(items@, rank_values(ranks@)),
{
    let ghost all = items@;
    let ghost values = rank_values(ranks@);
    let mut sorted: Vec<T> = Vec::new();
    let mut sorted_ranks: Vec<i128> = Vec::new();
    for item in it: items
        invariant
            it.seq() == all,
            ranks@.len() == all.len(),
            values == rank_values(ranks@),
            sorted@ == ordered_upto(all, values, it.index() as nat),
            rank_values(sorted_ranks@) == ordered_ranks_upto(values, it.index() as nat),
            sorted@.len() == sorted_ranks@.len(),
            sorted_ranks@.len() == it.index(),
    {
        let ghost taken = it.index();
        assert(taken < all.len());
        assert(item == all[taken]);
        let rank = ranks[sorted_ranks.len()];
        assert(values[taken] == rank);
        let ghost before = rank_values(sorted_ranks@);
        let mut place: usize = sorted_ranks.len();
        assert(before.take(place as int) == before);
        while place > 0 && sorted_ranks[place - 1] < rank
            invariant
                place <= sorted_ranks.len(),
                before == rank_values(sorted_ranks@),
                place_of(before, rank as int) == place_of(before.take(place as int), rank as int),
            decreases place,
        {
            assert(before.take(place as int).drop_last() == before.take(place - 1));
            assert(before.take(place as int).last() == sorted_ranks@[place - 1]);
            place -= 1;
        }
        proof {
            let head = before.take(place as int);
            if place > 0 {
                assert(head.last() == sorted_ranks@[place - 1]);
            }
            assert(place_of(head, rank as int) == place);
        }
        sorted.insert(place, item);
        sorted_ranks.insert(place, rank);
        assert(rank_values(sorted_ranks@) =~= before.insert(place as int, rank as int));
    }
    sorted
}

} // verus!
