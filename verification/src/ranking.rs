//! Ordering by rank: a stable sort that puts the highest rank first.

use vstd::prelude::*;

verus! {

/// Something that has a rank by which it is ordered.
pub trait Ranked {
    /// The rank.
    spec fn rank(&self) -> nat;

    /// The rank, computed.
    fn rank_value(&self) -> (r: u64)
        ensures
            r == self.rank(),
    ;
}

/// Where `item` goes in a sequence that is ordered by falling rank: behind the
/// last element whose rank is not below its own.
pub open spec fn insertion_point<T>(sorted: Seq<T>, rank: spec_fn(T) -> nat, item: T) -> int
    decreases sorted.len(),
{
    if sorted.len() == 0 {
        0
    } else if rank(sorted.last()) >= rank(item) {
        sorted.len() as int
    } else {
        insertion_point(sorted.drop_last(), rank, item)
    }
}

/// The items ordered by falling rank. Items of equal rank keep the order in
/// which they came.
pub open spec fn sorted_by_rank<T>(items: Seq<T>, rank: spec_fn(T) -> nat) -> Seq<T>
    decreases items.len(),
{
    if items.len() == 0 {
        Seq::empty()
    } else {
        let before = sorted_by_rank(items.drop_last(), rank);
        before.insert(insertion_point(before, rank, items.last()), items.last())
    }
}

/// Whether the ranks never rise along the sequence.
pub open spec fn ranks_fall<T>(items: Seq<T>, rank: spec_fn(T) -> nat) -> bool {
    forall|i: int, j: int|
        0 <= i < j < items.len() ==> rank(#[trigger] items[i]) >= rank(#[trigger] items[j])
}

/// The rank of a ranked item, as a function.
pub open spec fn rank_of<T: Ranked>() -> spec_fn(T) -> nat {
    |item: T| item.rank()
}

/// The items ordered by falling rank; items of equal rank keep their order.
pub open spec fn sorted_descending<T: Ranked>(items: Seq<T>) -> Seq<T> {
    sorted_by_rank(items, rank_of::<T>())
}

/// The insertion point lies within the sequence; every element before it ranks
/// at least as high as the item, and, in a sequence of falling ranks, every
/// element from it on ranks below the item.
pub proof fn lemma_insertion_point<T>(sorted: Seq<T>, rank: spec_fn(T) -> nat, item: T)
    ensures
        0 <= insertion_point(sorted, rank, item) <= sorted.len(),
        insertion_point(sorted, rank, item) > 0 ==> rank(
            sorted[insertion_point(sorted, rank, item) - 1],
        ) >= rank(item),
        forall|k: int|
            insertion_point(sorted, rank, item) <= k < sorted.len() ==> rank(#[trigger] sorted[k])
                < rank(item),
        ranks_fall(sorted, rank) ==> forall|k: int|
            0 <= k < insertion_point(sorted, rank, item) ==> rank(#[trigger] sorted[k]) >= rank(
                item,
            ),
    decreases sorted.len(),
{
    if sorted.len() > 0 && rank(sorted.last()) < rank(item) {
        let front = sorted.drop_last();
        lemma_insertion_point(front, rank, item);
        let p = insertion_point(front, rank, item);
        assert forall|k: int| p <= k < sorted.len() implies rank(#[trigger] sorted[k]) < rank(
            item,
        ) by {
            if k < front.len() {
                assert(front[k] == sorted[k]);
            }
        }
        if p > 0 {
            assert(front[p - 1] == sorted[p - 1]);
        }
        if ranks_fall(sorted, rank) {
            assert(ranks_fall(front, rank)) by {
                assert forall|i: int, j: int| 0 <= i < j < front.len() implies rank(
                    #[trigger] front[i],
                ) >= rank(#[trigger] front[j]) by {
                    assert(front[i] == sorted[i] && front[j] == sorted[j]);
                }
            }
            assert forall|k: int| 0 <= k < p implies rank(#[trigger] sorted[k]) >= rank(item) by {
                assert(front[k] == sorted[k]);
            }
        }
    } else if sorted.len() > 0 {
        if ranks_fall(sorted, rank) {
            assert forall|k: int| 0 <= k < sorted.len() implies rank(#[trigger] sorted[k]) >= rank(
                item,
            ) by {
                if k < sorted.len() - 1 {
                    assert(rank(sorted[k]) >= rank(sorted[sorted.len() - 1]));
                }
            }
        }
    }
}

/// The sorted sequence has falling ranks and holds exactly the items it was made
/// from, each as often as it came.
pub proof fn lemma_sorted_by_rank<T>(items: Seq<T>, rank: spec_fn(T) -> nat)
    ensures
        ranks_fall(sorted_by_rank(items, rank), rank),
        sorted_by_rank(items, rank).len() == items.len(),
        sorted_by_rank(items, rank).to_multiset() == items.to_multiset(),
    decreases items.len(),
{
    broadcast use vstd::seq_lib::group_to_multiset_ensures;

    if items.len() == 0 {
        assert(sorted_by_rank(items, rank).to_multiset() =~= items.to_multiset());
    } else {
        let front = items.drop_last();
        let item = items.last();
        lemma_sorted_by_rank(front, rank);
        let before = sorted_by_rank(front, rank);
        lemma_insertion_point(before, rank, item);
        let p = insertion_point(before, rank, item);
        let after = before.insert(p, item);
        assert forall|i: int, j: int| 0 <= i < j < after.len() implies rank(#[trigger] after[i])
            >= rank(#[trigger] after[j]) by {
            if j < p {
                assert(after[i] == before[i] && after[j] == before[j]);
            } else if j == p {
                assert(after[i] == before[i]);
            } else if i < p {
                assert(after[i] == before[i] && after[j] == before[j - 1]);
            } else if i == p {
                assert(after[j] == before[j - 1]);
            } else {
                assert(after[i] == before[i - 1] && after[j] == before[j - 1]);
            }
        }
        assert(items =~= front.push(item));
        vstd::seq_lib::to_multiset_insert(before, p, item);
        assert(after.to_multiset() =~= items.to_multiset());
    }
}

/// An item that outranks every other item comes first after sorting.
pub proof fn lemma_highest_rank_comes_first<T>(items: Seq<T>, rank: spec_fn(T) -> nat, best: int)
    requires
        0 <= best < items.len(),
        forall|k: int| 0 <= k < items.len() && k != best ==> rank(#[trigger] items[k]) < rank(
            items[best],
        ),
    ensures
        sorted_by_rank(items, rank).len() == items.len(),
        sorted_by_rank(items, rank)[0] == items[best],
{
    lemma_sorted_by_rank(items, rank);
    let sorted = sorted_by_rank(items, rank);
    assert(sorted.contains(items[best])) by {
        broadcast use vstd::seq_lib::group_to_multiset_ensures;

        assert(items.contains(items[best]));
        assert(items.to_multiset().contains(items[best]));
    }
    let at = choose|at: int| 0 <= at < sorted.len() && sorted[at] == items[best];
    if at != 0 {
        assert(rank(sorted[0]) >= rank(sorted[at]));
        assert(items.contains(sorted[0])) by {
            broadcast use vstd::seq_lib::group_to_multiset_ensures;

            assert(sorted.contains(sorted[0]));
            assert(sorted.to_multiset().contains(sorted[0]));
        }
        let source = choose|source: int| 0 <= source < items.len() && items[source] == sorted[0];
        if source != best {
            assert(rank(items[source]) < rank(items[best]));
        }
        assert(sorted[0] == items[best]);
    }
}

/// Sorting commutes with a change of representation that keeps the ranks.
pub proof fn lemma_sorted_views<T, U>(
    items: Seq<T>,
    view: spec_fn(T) -> U,
    rank: spec_fn(T) -> nat,
    view_rank: spec_fn(U) -> nat,
)
    requires
        forall|item: T| #[trigger] rank(item) == view_rank(view(item)),
    ensures
        sorted_by_rank(items, rank).map_values(view) == sorted_by_rank(
            items.map_values(view),
            view_rank,
        ),
    decreases items.len(),
{
    if items.len() == 0 {
        assert(sorted_by_rank(items, rank).map_values(view) =~= sorted_by_rank(
            items.map_values(view),
            view_rank,
        ));
    } else {
        let front = items.drop_last();
        lemma_sorted_views(front, view, rank, view_rank);
        assert(items.map_values(view).drop_last() =~= front.map_values(view));
        assert(items.map_values(view).last() == view(items.last()));
        let before = sorted_by_rank(front, rank);
        lemma_insertion_views(before, view, rank, view_rank, items.last());
        lemma_insertion_point(before, rank, items.last());
        let p = insertion_point(before, rank, items.last());
        assert(before.insert(p, items.last()).map_values(view) =~= before.map_values(view).insert(
            p,
            view(items.last()),
        ));
    }
}

proof fn lemma_insertion_views<T, U>(
    sorted: Seq<T>,
    view: spec_fn(T) -> U,
    rank: spec_fn(T) -> nat,
    view_rank: spec_fn(U) -> nat,
    item: T,
)
    requires
        forall|item: T| #[trigger] rank(item) == view_rank(view(item)),
    ensures
        insertion_point(sorted, rank, item) == insertion_point(
            sorted.map_values(view),
            view_rank,
            view(item),
        ),
    decreases sorted.len(),
{
    if sorted.len() > 0 {
        assert(sorted.map_values(view).last() == view(sorted.last()));
        assert(rank(sorted.last()) == view_rank(view(sorted.last())));
        assert(rank(item) == view_rank(view(item)));
        assert(sorted.map_values(view).drop_last() =~= sorted.drop_last().map_values(view));
        lemma_insertion_views(sorted.drop_last(), view, rank, view_rank, item);
    }
}

/// Orders the items by falling rank; items of equal rank keep their order.
pub fn sort_descending<T: Ranked>(items: Vec<T>) -> (r: Vec<T>)
    ensures
        r@ == sorted_descending(items@),
{
    let mut out: Vec<T> = Vec::new();
    let ghost all = items@;
    assert(all.subrange(0, 0) =~= Seq::<T>::empty());
    for item in it: items
        invariant
            it.seq() == all,
            out@ == sorted_by_rank(all.subrange(0, it.index() as int), rank_of::<T>()),
    {
        let ghost done = all.subrange(0, it.index() as int);
        assert(all.subrange(0, it.index() + 1).drop_last() =~= done);
        assert(all.subrange(0, it.index() + 1).last() == item);
        let rank = item.rank_value();
        let mut at: usize = out.len();
        assert(out@.subrange(0, at as int) =~= out@);
        while at > 0 && out[at - 1].rank_value() < rank
            invariant
                at <= out.len(),
                rank == item.rank(),
                insertion_point(out@, rank_of::<T>(), item) == insertion_point(
                    out@.subrange(0, at as int),
                    rank_of::<T>(),
                    item,
                ),
            decreases at,
        {
            assert(out@.subrange(0, at as int).drop_last() =~= out@.subrange(0, at - 1));
            assert(out@.subrange(0, at as int).last() == out@[at - 1]);
            at = at - 1;
        }
        proof {
            let head = out@.subrange(0, at as int);
            if at > 0 {
                assert(head.last() == out@[at - 1]);
            }
            assert(insertion_point(head, rank_of::<T>(), item) == at);
        }
        out.insert(at, item);
    }
    assert(all.subrange(0, all.len() as int) =~= all);
    out
}

} // verus!
