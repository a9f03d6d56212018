//! Counting sort of items whose bucket offsets are known: histogram, prefix
//! sums, placement.

use crate::rank::{count_before, rank, rank_in_bounds, rank_is_injective};
use crate::stable::stably_sorted_clones;
use vstd::prelude::*;

verus! {

/// The offsets as integers.
pub open spec fn as_ints(offsets: Seq<usize>) -> Seq<int> {
    Seq::new(offsets.len(), |i: int| offsets[i] as int)
}

/// How many of the first `m` offsets lie below `bucket`.
spec fn count_below(offsets: Seq<int>, bucket: int, m: int) -> nat
    decreases m,
{
    if m <= 0 {
        0
    } else {
        count_below(offsets, bucket, m - 1) + if offsets[m - 1] < bucket {
            1nat
        } else {
            0nat
        }
    }
}

/// How many of the first `m` offsets are `bucket`.
spec fn count_equal(offsets: Seq<int>, bucket: int, m: int) -> nat
    decreases m,
{
    if m <= 0 {
        0
    } else {
        count_equal(offsets, bucket, m - 1) + if offsets[m - 1] == bucket {
            1nat
        } else {
            0nat
        }
    }
}

/// What slot `slot` of the histogram holds once the first `m` offsets are
/// counted: the count of an offset stands one slot above it, and slot 0
/// stays empty.
spec fn counted(offsets: Seq<int>, slot: int, m: int) -> nat {
    if slot <= 0 {
        0
    } else {
        count_equal(offsets, slot - 1, m)
    }
}

proof fn lemma_count_equal_bound(offsets: Seq<int>, bucket: int, m: int)
    requires
        0 <= m,
    ensures
        count_equal(offsets, bucket, m) <= m,
    decreases m,
{
    if m > 0 {
        lemma_count_equal_bound(offsets, bucket, m - 1);
    }
}

proof fn lemma_count_below_bound(offsets: Seq<int>, bucket: int, m: int)
    requires
        0 <= m,
    ensures
        count_below(offsets, bucket, m) <= m,
    decreases m,
{
    if m > 0 {
        lemma_count_below_bound(offsets, bucket, m - 1);
    }
}

proof fn lemma_none_below_zero(offsets: Seq<int>, m: int)
    requires
        0 <= m <= offsets.len(),
        forall|j: int| 0 <= j < offsets.len() ==> 0 <= offsets[j],
    ensures
        count_below(offsets, 0, m) == 0,
    decreases m,
{
    if m > 0 {
        lemma_none_below_zero(offsets, m - 1);
    }
}

proof fn lemma_next_bucket(offsets: Seq<int>, bucket: int, m: int)
    requires
        0 <= m,
    ensures
        count_below(offsets, bucket + 1, m) == count_below(offsets, bucket, m) + count_equal(
            offsets,
            bucket,
            m,
        ),
    decreases m,
{
    if m > 0 {
        lemma_next_bucket(offsets, bucket, m - 1);
    }
}

/// The items that go before the one at `i` are those with a smaller offset
/// and those before `i` with the same offset.
proof fn lemma_count_before_split(offsets: Seq<int>, i: int, m: int)
    requires
        0 <= i,
        0 <= m,
    ensures
        count_before(offsets, i, m) == count_below(offsets, offsets[i], m) + count_equal(
            offsets,
            offsets[i],
            if m <= i {
                m
            } else {
                i
            },
        ),
    decreases m,
{
    if m > 0 {
        lemma_count_before_split(offsets, i, m - 1);
    }
}

/// Where the cursor of the bucket of item `i` stands when the items before
/// it are placed is the rank of the item, and the cursor can move on.
proof fn lemma_cursor_is_rank(offsets: Seq<int>, i: int)
    requires
        0 <= i < offsets.len(),
    ensures
        rank(offsets, i) == count_below(offsets, offsets[i], offsets.len() as int) + count_equal(
            offsets,
            offsets[i],
            i,
        ),
        0 <= rank(offsets, i) < offsets.len(),
{
    lemma_count_before_split(offsets, i, offsets.len() as int);
    rank_in_bounds(offsets, i);
}

/// A clone of every item, in input order.
fn clone_all<T: Clone>(items: &[T]) -> (out: Vec<T>)
    ensures
        out@.len() == items@.len(),
        forall|i: int| 0 <= i < items@.len() ==> cloned(items@[i], #[trigger] out@[i]),
{
    let n = items.len();
    let mut out: Vec<T> = Vec::with_capacity(n);
    let mut i: usize = 0;
    while i < n
        invariant
            n == items@.len(),
            i <= n,
            out@.len() == i,
            forall|j: int| 0 <= j < i ==> cloned(items@[j], #[trigger] out@[j]),
        decreases n - i,
    {
        out.push(items[i].clone());
        i += 1;
    }
    out
}

/// Histogram pass: counts each offset, one slot above the offset itself.
fn count_offsets(offsets: &[usize], span: usize) -> (bucket: Vec<usize>)
    requires
        span + 2 <= usize::MAX,
        forall|i: int| 0 <= i < offsets@.len() ==> offsets@[i] <= span,
    ensures
        bucket@.len() == span + 2,
        forall|b: int|
            0 <= b < bucket@.len() ==> #[trigger] bucket@[b] == counted(
                as_ints(offsets@),
                b,
                offsets@.len() as int,
            ),
{
    let ghost offs = as_ints(offsets@);
    let n = offsets.len();
    let mut bucket: Vec<usize> = vec![0usize; span + 2];
    let mut i: usize = 0;
    while i < n
        invariant
            n == offsets@.len(),
            offs == as_ints(offsets@),
            i <= n,
            span + 2 <= usize::MAX,
            bucket@.len() == span + 2,
            forall|j: int| 0 <= j < offsets@.len() ==> offsets@[j] <= span,
            forall|b: int| 0 <= b < bucket@.len() ==> #[trigger] bucket@[b] == counted(offs, b, i as int),
        decreases n - i,
    {
        let slot = offsets[i] + 1;
        proof {
            lemma_count_equal_bound(offs, slot - 1, i as int);
        }
        bucket[slot] = bucket[slot] + 1;
        i += 1;
    }
    bucket
}

/// Prefix-sum pass: turns the counts into the position at which each bucket
/// starts.
fn accumulate(bucket: Vec<usize>, Ghost(offsets): Ghost<Seq<int>>) -> (starts: Vec<usize>)
    requires
        bucket@.len() >= 2,
        offsets.len() <= usize::MAX,
        forall|j: int| 0 <= j < offsets.len() ==> 0 <= offsets[j],
        forall|b: int|
            0 <= b < bucket@.len() ==> #[trigger] bucket@[b] == counted(
                offsets,
                b,
                offsets.len() as int,
            ),
    ensures
        starts@.len() == bucket@.len(),
        forall|b: int|
            0 <= b < starts@.len() ==> #[trigger] starts@[b] == count_below(
                offsets,
                b,
                offsets.len() as int,
            ),
{
    let ghost n = offsets.len() as int;
    let mut starts = bucket;
    let len = starts.len();
    proof {
        lemma_none_below_zero(offsets, n);
        lemma_next_bucket(offsets, 0, n);
    }
    let mut i: usize = 2;
    while i < len
        invariant
            n == offsets.len(),
            n <= usize::MAX,
            len == starts@.len(),
            2 <= i <= len,
            forall|b: int| 0 <= b < i ==> #[trigger] starts@[b] == count_below(offsets, b, n),
            forall|b: int| i <= b < len ==> #[trigger] starts@[b] == counted(offsets, b, n),
        decreases len - i,
    {
        proof {
            lemma_next_bucket(offsets, i - 1, n);
            lemma_count_below_bound(offsets, i as int, n);
        }
        starts[i] = starts[i] + starts[i - 1];
        i += 1;
    }
    starts
}

/// Placement pass: puts a clone of each item, in input order, where the
/// cursor of its bucket stands, and moves that cursor on.
fn place<T: Clone>(items: &[T], offsets: &[usize], starts: Vec<usize>) -> (out: Vec<T>)
    requires
        offsets@.len() == items@.len(),
        forall|i: int| 0 <= i < offsets@.len() ==> offsets@[i] < starts@.len(),
        forall|b: int|
            0 <= b < starts@.len() ==> #[trigger] starts@[b] == count_below(
                as_ints(offsets@),
                b,
                offsets@.len() as int,
            ),
    ensures
        stably_sorted_clones(items@, as_ints(offsets@), out@),
{
    let ghost offs = as_ints(offsets@);
    let n = items.len();
    let mut cursor = starts;
    let mut out = clone_all(items);
    let mut i: usize = 0;
    while i < n
        invariant
            n == items@.len(),
            offsets@.len() == n,
            offs == as_ints(offsets@),
            i <= n,
            out@.len() == n,
            forall|j: int| 0 <= j < offsets@.len() ==> offsets@[j] < cursor@.len(),
            forall|b: int|
                0 <= b < cursor@.len() ==> #[trigger] cursor@[b] == count_below(offs, b, n as int)
                    + count_equal(offs, b, i as int),
            forall|j: int| 0 <= j < i ==> cloned(items@[j], #[trigger] out@[rank(offs, j)]),
        decreases n - i,
    {
        let b = offsets[i];
        let at = cursor[b];
        proof {
            lemma_cursor_is_rank(offs, i as int);
        }
        let ghost placed = out@;
        let item = items[i].clone();
        out[at] = item;
        cursor[b] = at + 1;
        proof {
            assert forall|j: int| 0 <= j <= i implies cloned(
                items@[j],
                #[trigger] out@[rank(offs, j)],
            ) by {
                if j < i {
                    rank_in_bounds(offs, j);
                    rank_is_injective(offs, j, i as int);
                    assert(cloned(items@[j], placed[rank(offs, j)]));
                }
            }
        }
        i += 1;
    }
    out
}

/// Sorts `items` into stable ascending order of `offsets`, of which
/// `offsets[i]` belongs to `items[i]` and none is above `span`.
///
/// The output is new: at the rank of each item stands a clone of it.
pub(crate) fn sort_by_offsets<T: Clone>(items: &[T], offsets: &[usize], span: usize) -> (out: Vec<T>)
    requires
        offsets@.len() == items@.len(),
        forall|i: int| 0 <= i < offsets@.len() ==> offsets@[i] <= span,
        span + 2 <= usize::MAX,
    ensures
        stably_sorted_clones(items@, as_ints(offsets@), out@),
{
    let n = offsets.len();
    let bucket = count_offsets(offsets, span);
    assert(as_ints(offsets@).len() == n);
    let starts = accumulate(bucket, Ghost(as_ints(offsets@)));
    place(items, offsets, starts)
}

} // verus!
