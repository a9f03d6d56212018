//! What it means for one sequence to be another in stable ascending order of
//! its keys, and what follows from it.

use crate::permutation::{
    is_permutation, permutation_reaches, rearranged, rearranged_is_unique, rearranged_keeps_items,
};
use crate::rank::{
    ascending, ascending_keys_keep_position, equal_keys_keep_order, rank, rank_in_bounds,
    rank_is_injective, ranks, smaller_rank_has_smaller_key,
};
use vstd::prelude::*;

verus! {

/// `out` is `items` in stable ascending order of `keys`, where `keys[i]` is
/// the key of `items[i]`: every item stands at the position that is its rank.
pub open spec fn stably_sorted<T>(items: Seq<T>, keys: Seq<int>, out: Seq<T>) -> bool {
    &&& keys.len() == items.len()
    &&& out.len() == items.len()
    &&& forall|i: int| 0 <= i < items.len() ==> #[trigger] out[rank(keys, i)] == items[i]
}

/// `out` holds a clone of every item of `items`, in stable ascending order
/// of `keys`: at the rank of each item stands a clone of it.
pub open spec fn stably_sorted_clones<T: Clone>(
    items: Seq<T>,
    keys: Seq<int>,
    out: Seq<T>,
) -> bool {
    &&& keys.len() == items.len()
    &&& out.len() == items.len()
    &&& forall|i: int| 0 <= i < items.len() ==> cloned(items[i], #[trigger] out[rank(keys, i)])
}

/// Whether every clone of a `T` equals the value it was cloned from.
pub open spec fn clones_are_equal<T: Clone>() -> bool {
    forall|a: T, b: T| #[trigger] cloned(a, b) ==> a == b
}

/// The ranks of a sequence of keys send its positions one to one onto
/// themselves.
pub proof fn ranks_are_permutation(keys: Seq<int>)
    ensures
        is_permutation(ranks(keys)),
{
    let to = ranks(keys);
    assert forall|i: int| 0 <= i < to.len() implies 0 <= #[trigger] to[i] < to.len() by {
        rank_in_bounds(keys, i);
    }
    assert forall|i: int, j: int|
        0 <= i < to.len() && 0 <= j < to.len() && i != j implies #[trigger] to[i]
        != #[trigger] to[j] by {
        rank_is_injective(keys, i, j);
    }
}

/// A stably sorted sequence is the rearrangement of the items by their ranks.
pub proof fn sorted_is_rearranged<T>(items: Seq<T>, keys: Seq<int>, out: Seq<T>)
    requires
        stably_sorted(items, keys, out),
    ensures
        is_permutation(ranks(keys)),
        rearranged(items, ranks(keys), out),
{
    ranks_are_permutation(keys);
    let to = ranks(keys);
    assert forall|i: int| 0 <= i < items.len() implies out[#[trigger] to[i]] == items[i] by {
        assert(out[rank(keys, i)] == items[i]);
    }
}

/// Where cloning a `T` gives an equal value, sorted clones are the items
/// themselves.
pub proof fn equal_clones_are_sorted<T: Clone>(items: Seq<T>, keys: Seq<int>, out: Seq<T>)
    requires
        stably_sorted_clones(items, keys, out),
        clones_are_equal::<T>(),
    ensures
        stably_sorted(items, keys, out),
{
    assert forall|i: int| 0 <= i < items.len() implies #[trigger] out[rank(keys, i)]
        == items[i] by {
        assert(cloned(items[i], out[rank(keys, i)]));
    }
}

/// Every output position holds a clone of some item: nothing else can stand
/// in sorted clones.
pub proof fn sorted_clones_come_from_items<T: Clone>(
    items: Seq<T>,
    keys: Seq<int>,
    out: Seq<T>,
    p: int,
) -> (i: int)
    requires
        stably_sorted_clones(items, keys, out),
        0 <= p < out.len(),
    ensures
        0 <= i < items.len(),
        rank(keys, i) == p,
        cloned(items[i], out[p]),
{
    ranks_are_permutation(keys);
    let i = permutation_reaches(ranks(keys), p);
    assert(cloned(items[i], out[rank(keys, i)]));
    i
}

/// Permutation: sorting neither loses an item nor makes one up. The output
/// holds each item as often as the input does.
pub proof fn sorted_keeps_items<T>(items: Seq<T>, keys: Seq<int>, out: Seq<T>)
    requires
        stably_sorted(items, keys, out),
    ensures
        out.to_multiset() == items.to_multiset(),
{
    sorted_is_rearranged(items, keys, out);
    rearranged_keeps_items(items, ranks(keys), out);
}

/// Order: in the output the keys never decrease. `key` gives the key of an
/// item.
pub proof fn sorted_is_ascending<T>(items: Seq<T>, key: spec_fn(T) -> int, out: Seq<T>)
    requires
        stably_sorted(items, items.map_values(key), out),
    ensures
        forall|a: int, b: int| 0 <= a < b < out.len() ==> key(out[a]) <= key(out[b]),
{
    let keys = items.map_values(key);
    ranks_are_permutation(keys);
    assert forall|a: int, b: int| 0 <= a < b < out.len() implies key(out[a]) <= key(out[b]) by {
        let i = permutation_reaches(ranks(keys), a);
        let j = permutation_reaches(ranks(keys), b);
        assert(out[rank(keys, i)] == items[i]);
        assert(out[rank(keys, j)] == items[j]);
        smaller_rank_has_smaller_key(keys, i, j);
    }
}

/// Stability: of two items with the same key, the one that stands first in
/// the input stands first in the output.
pub proof fn sorted_is_stable<T>(items: Seq<T>, keys: Seq<int>, out: Seq<T>, i: int, j: int)
    requires
        stably_sorted(items, keys, out),
        0 <= i < j < items.len(),
        keys[i] == keys[j],
    ensures
        0 <= rank(keys, i) < rank(keys, j) < out.len(),
        out[rank(keys, i)] == items[i],
        out[rank(keys, j)] == items[j],
{
    rank_in_bounds(keys, i);
    rank_in_bounds(keys, j);
    equal_keys_keep_order(keys, i, j);
}

/// Idempotence: items whose keys are in ascending order already come out as
/// they went in.
pub proof fn sorted_input_is_unchanged<T>(items: Seq<T>, keys: Seq<int>, out: Seq<T>)
    requires
        stably_sorted(items, keys, out),
        ascending(keys),
    ensures
        out == items,
{
    assert forall|i: int| 0 <= i < items.len() implies out[i] == items[i] by {
        ascending_keys_keep_position(keys, i);
        assert(out[rank(keys, i)] == items[i]);
    }
    assert(out =~= items);
}

/// The stable ascending order of given items and keys is one sequence only.
pub proof fn sorted_is_unique<T>(items: Seq<T>, keys: Seq<int>, out: Seq<T>, other: Seq<T>)
    requires
        stably_sorted(items, keys, out),
        stably_sorted(items, keys, other),
    ensures
        out == other,
{
    sorted_is_rearranged(items, keys, out);
    sorted_is_rearranged(items, keys, other);
    rearranged_is_unique(items, ranks(keys), out, other);
}

} // verus!
