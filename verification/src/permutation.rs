//! Rearrangements of a sequence: a map from each input position to the
//! output position that its item moves to.

use vstd::prelude::*;

verus! {

/// `to` sends the positions of a sequence of its own length to positions of
/// that sequence, no two of them to the same one.
pub open spec fn is_permutation(to: Seq<int>) -> bool {
    &&& forall|i: int| 0 <= i < to.len() ==> 0 <= #[trigger] to[i] < to.len()
    &&& forall|i: int, j: int|
        0 <= i < to.len() && 0 <= j < to.len() && i != j ==> #[trigger] to[i] != #[trigger] to[j]
}

/// `out` holds the items of `items`, the one at position `i` moved to
/// position `to[i]`.
pub open spec fn rearranged<T>(items: Seq<T>, to: Seq<int>, out: Seq<T>) -> bool {
    &&& to.len() == items.len()
    &&& out.len() == items.len()
    &&& forall|i: int| 0 <= i < items.len() ==> out[#[trigger] to[i]] == items[i]
}

/// What is left of a permutation when its last position is taken away and
/// the target of that position is closed up.
spec fn without_last(to: Seq<int>) -> Seq<int> {
    Seq::new(
        (to.len() - 1) as nat,
        |i: int|
            if to[i] < to.last() {
                to[i]
            } else {
                to[i] - 1
            },
    )
}

proof fn lemma_without_last(to: Seq<int>)
    requires
        is_permutation(to),
        to.len() > 0,
    ensures
        is_permutation(without_last(to)),
{
    let rest = without_last(to);
    let last = to.len() - 1;
    assert forall|i: int| 0 <= i < rest.len() implies 0 <= #[trigger] rest[i] < rest.len() by {
        assert(to[i] != to[last]);
    }
    assert forall|i: int, j: int|
        0 <= i < rest.len() && 0 <= j < rest.len() && i != j implies #[trigger] rest[i]
        != #[trigger] rest[j] by {
        assert(to[i] != to[j]);
        assert(to[i] != to[last]);
        assert(to[j] != to[last]);
    }
}

/// A permutation reaches every position: some input position is sent to
/// `target`.
pub proof fn permutation_reaches(to: Seq<int>, target: int) -> (i: int)
    requires
        is_permutation(to),
        0 <= target < to.len(),
    ensures
        0 <= i < to.len(),
        to[i] == target,
    decreases to.len(),
{
    let last = to.len() - 1;
    if to[last] == target {
        last
    } else {
        let rest = without_last(to);
        lemma_without_last(to);
        let closed = if target < to[last] {
            target
        } else {
            target - 1
        };
        let i = permutation_reaches(rest, closed);
        assert(to[i] != to[last]);
        i
    }
}

/// A rearrangement holds the same items as the sequence it was made from,
/// each as often as there.
pub proof fn rearranged_keeps_items<T>(items: Seq<T>, to: Seq<int>, out: Seq<T>)
    requires
        is_permutation(to),
        rearranged(items, to, out),
    ensures
        out.to_multiset() == items.to_multiset(),
    decreases items.len(),
{
    broadcast use vstd::seq_lib::group_to_multiset_ensures;

    if items.len() == 0 {
        assert(items =~= out);
    } else {
        let last = items.len() - 1;
        let hole = to[last];
        let rest_items = items.drop_last();
        let rest_to = without_last(to);
        let rest_out = out.remove(hole);
        lemma_without_last(to);
        assert forall|i: int| 0 <= i < rest_items.len() implies rest_out[#[trigger] rest_to[i]]
            == rest_items[i] by {
            assert(to[i] != to[last]);
            assert(out[to[i]] == items[i]);
        }
        rearranged_keeps_items(rest_items, rest_to, rest_out);
        assert(items =~= rest_items.push(items[last]));
        assert(out[hole] == items[last]);
        assert(out.to_multiset().count(out[hole]) > 0) by {
            assert(out.contains(out[hole]));
        }
        assert(out.to_multiset() =~= rest_out.to_multiset().insert(out[hole]));
    }
}

/// Only one sequence is the rearrangement of `items` by a given permutation.
pub proof fn rearranged_is_unique<T>(items: Seq<T>, to: Seq<int>, out: Seq<T>, other: Seq<T>)
    requires
        is_permutation(to),
        rearranged(items, to, out),
        rearranged(items, to, other),
    ensures
        out == other,
{
    assert forall|p: int| 0 <= p < out.len() implies out[p] == other[p] by {
        let i = permutation_reaches(to, p);
        assert(out[to[i]] == items[i]);
        assert(other[to[i]] == items[i]);
    }
    assert(out =~= other);
}

} // verus!
