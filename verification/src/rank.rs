//! The stable ascending order of a sequence of keys, as a rank for each
//! position, and what holds of it.

use vstd::prelude::*;

verus! {

/// Whether the item at position `j` goes before the item at position `i`:
/// its key is smaller, or the keys are equal and `j` is the earlier position.
pub open spec fn sorts_before(keys: Seq<int>, j: int, i: int) -> bool {
    keys[j] < keys[i] || (keys[j] == keys[i] && j < i)
}

/// How many of the first `m` positions go before position `i`.
pub open spec fn count_before(keys: Seq<int>, i: int, m: int) -> nat
    decreases m,
{
    if m <= 0 {
        0
    } else {
        count_before(keys, i, m - 1) + if sorts_before(keys, m - 1, i) {
            1nat
        } else {
            0nat
        }
    }
}

/// The position that the item at `i` takes once the items are in stable
/// ascending order of their keys: the number of items that go before it.
pub open spec fn rank(keys: Seq<int>, i: int) -> int {
    count_before(keys, i, keys.len() as int) as int
}

/// The ranks of all positions, in input order.
pub open spec fn ranks(keys: Seq<int>) -> Seq<int> {
    Seq::new(keys.len(), |i: int| rank(keys, i))
}

/// Keys that never decrease from one position to the next.
pub open spec fn ascending(keys: Seq<int>) -> bool {
    forall|a: int, b: int| 0 <= a < b < keys.len() ==> keys[a] <= keys[b]
}

proof fn lemma_count_before_bound(keys: Seq<int>, i: int, m: int)
    requires
        0 <= i,
        0 <= m,
    ensures
        count_before(keys, i, m) <= m,
        i < m ==> count_before(keys, i, m) < m,
    decreases m,
{
    if m > 0 {
        lemma_count_before_bound(keys, i, m - 1);
    }
}

proof fn lemma_count_before_grows(keys: Seq<int>, a: int, b: int, m: int)
    requires
        sorts_before(keys, a, b),
        0 <= a,
        0 <= m,
    ensures
        count_before(keys, a, m) <= count_before(keys, b, m),
        a < m ==> count_before(keys, a, m) < count_before(keys, b, m),
    decreases m,
{
    if m > 0 {
        lemma_count_before_grows(keys, a, b, m - 1);
    }
}

proof fn lemma_count_before_ascending(keys: Seq<int>, i: int, m: int)
    requires
        ascending(keys),
        0 <= i < keys.len(),
        0 <= m <= keys.len(),
    ensures
        count_before(keys, i, m) == if m <= i { m } else { i },
    decreases m,
{
    if m > 0 {
        lemma_count_before_ascending(keys, i, m - 1);
    }
}

proof fn lemma_count_before_shifted(keys: Seq<int>, shifted: Seq<int>, by: int, i: int, m: int)
    requires
        shifted.len() == keys.len(),
        forall|j: int| 0 <= j < keys.len() ==> shifted[j] == keys[j] - by,
        0 <= i < keys.len(),
        0 <= m <= keys.len(),
    ensures
        count_before(shifted, i, m) == count_before(keys, i, m),
    decreases m,
{
    if m > 0 {
        lemma_count_before_shifted(keys, shifted, by, i, m - 1);
    }
}

/// Every rank is a position of the sequence.
pub proof fn rank_in_bounds(keys: Seq<int>, i: int)
    requires
        0 <= i < keys.len(),
    ensures
        0 <= rank(keys, i) < keys.len(),
{
    lemma_count_before_bound(keys, i, keys.len() as int);
}

/// The ranks follow the order of the keys, and among equal keys the order
/// of the positions: an item that goes before another gets the smaller rank.
pub proof fn rank_keeps_order(keys: Seq<int>, a: int, b: int)
    requires
        0 <= a < keys.len(),
        0 <= b < keys.len(),
        sorts_before(keys, a, b),
    ensures
        rank(keys, a) < rank(keys, b),
{
    lemma_count_before_grows(keys, a, b, keys.len() as int);
}

/// No two positions share a rank.
pub proof fn rank_is_injective(keys: Seq<int>, a: int, b: int)
    requires
        0 <= a < keys.len(),
        0 <= b < keys.len(),
        a != b,
    ensures
        rank(keys, a) != rank(keys, b),
{
    if sorts_before(keys, a, b) {
        rank_keeps_order(keys, a, b);
    } else {
        assert(sorts_before(keys, b, a));
        rank_keeps_order(keys, b, a);
    }
}

/// Of two items, the one with the smaller rank has the smaller or the same
/// key.
pub proof fn smaller_rank_has_smaller_key(keys: Seq<int>, a: int, b: int)
    requires
        0 <= a < keys.len(),
        0 <= b < keys.len(),
        rank(keys, a) < rank(keys, b),
    ensures
        keys[a] <= keys[b],
{
    if keys[b] < keys[a] {
        rank_keeps_order(keys, b, a);
    }
}

/// Stability: two items with the same key keep their relative order.
pub proof fn equal_keys_keep_order(keys: Seq<int>, a: int, b: int)
    requires
        0 <= a < b < keys.len(),
        keys[a] == keys[b],
    ensures
        rank(keys, a) < rank(keys, b),
{
    rank_keeps_order(keys, a, b);
}

/// Where the keys are in ascending order already, every item keeps its
/// position.
pub proof fn ascending_keys_keep_position(keys: Seq<int>, i: int)
    requires
        ascending(keys),
        0 <= i < keys.len(),
    ensures
        rank(keys, i) == i,
{
    lemma_count_before_ascending(keys, i, keys.len() as int);
}

/// Adding the same number to every key changes no rank.
pub proof fn shifted_keys_keep_rank(keys: Seq<int>, shifted: Seq<int>, by: int, i: int)
    requires
        shifted.len() == keys.len(),
        forall|j: int| 0 <= j < keys.len() ==> shifted[j] == keys[j] - by,
        0 <= i < keys.len(),
    ensures
        rank(shifted, i) == rank(keys, i),
{
    lemma_count_before_shifted(keys, shifted, by, i, keys.len() as int);
}

} // verus!
