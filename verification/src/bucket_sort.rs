//! Bucket sort of a slice by a key that a caller's function selects from
//! each item.

use crate::counting::{as_ints, sort_by_offsets};
use crate::error::BucketSortError;
use crate::index::to_index;
use crate::key::{key_values, BucketKey, MaxValue, MinValue};
use crate::rank::{rank, rank_in_bounds, shifted_keys_keep_rank};
use crate::stable::{
    clones_are_equal, equal_clones_are_sorted, sorted_is_unique, stably_sorted_clones,
};
use vstd::prelude::*;

verus! {

/// What is wrong with the declared range from `min` to `max`, if anything:
/// it is empty, or its histogram, of two slots more than `max - min`, is
/// longer than a `usize` can say.
pub open spec fn range_error(min: int, max: int) -> Option<BucketSortError> {
    if max < min {
        Some(BucketSortError::InvalidRange)
    } else if max - min + 2 > usize::MAX {
        Some(BucketSortError::CastOverflow)
    } else {
        None
    }
}

/// Whether `key` lies in the range from `min` to `max`, both included.
pub open spec fn within(key: int, min: int, max: int) -> bool {
    min <= key <= max
}

/// Whether `keys` can be what `key_selector` returns for `items`, item by
/// item.
pub open spec fn selected<T, K, F: Fn(&T) -> K>(
    key_selector: F,
    items: Seq<T>,
    keys: Seq<K>,
) -> bool {
    &&& keys.len() == items.len()
    &&& forall|i: int|
        0 <= i < items.len() ==> call_ensures(key_selector, (&items[i],), #[trigger] keys[i])
}

/// Whether `key_selector` can return a key outside the range for the item
/// at `i`.
pub open spec fn selects_outside<T, K: BucketKey, F: Fn(&T) -> K>(
    key_selector: F,
    items: Seq<T>,
    min: int,
    max: int,
    i: int,
    key: K,
) -> bool {
    &&& 0 <= i < items.len()
    &&& call_ensures(key_selector, (&items[i],), key)
    &&& !within(key.key_value(), min, max)
}

/// Whether `r` is a right result of sorting `items` by the keys that
/// `key_selector` selects, within the declared range from `min` to `max`.
///
/// A wrong range is refused before any key is selected. Otherwise the
/// result is either the clones of the items in stable ascending order of
/// keys that were selected for them and lie within the range, or
/// `KeyOutOfRange` for a key selected outside it.
pub open spec fn sorts_by_key<T: Clone, K: BucketKey, F: Fn(&T) -> K>(
    items: Seq<T>,
    key_selector: F,
    min: int,
    max: int,
    r: Result<Vec<T>, BucketSortError>,
) -> bool {
    match range_error(min, max) {
        Some(e) => r == Err::<Vec<T>, BucketSortError>(e),
        None => match r {
            Ok(out) => exists|keys: Seq<K>|
                {
                    &&& #[trigger] selected(key_selector, items, keys)
                    &&& forall|i: int|
                        0 <= i < keys.len() ==> within((#[trigger] keys[i]).key_value(), min, max)
                    &&& stably_sorted_clones(items, key_values(keys), out@)
                },
            Err(e) => {
                &&& e == BucketSortError::KeyOutOfRange
                &&& exists|i: int, key: K|
                    #[trigger] selects_outside(key_selector, items, min, max, i, key)
            },
        },
    }
}

/// Whether `key_selector` can return one key only for each of `items`.
pub open spec fn single_valued<T, K: BucketKey, F: Fn(&T) -> K>(
    key_selector: F,
    items: Seq<T>,
) -> bool {
    forall|i: int, a: K, b: K|
        0 <= i < items.len() && #[trigger] call_ensures(key_selector, (&items[i],), a)
            && #[trigger] call_ensures(key_selector, (&items[i],), b) ==> a.key_value()
            == b.key_value()
}

/// Whether two results are the same error, or outputs of the same items.
pub open spec fn same_result<T>(
    a: Result<Vec<T>, BucketSortError>,
    b: Result<Vec<T>, BucketSortError>,
) -> bool {
    match (a, b) {
        (Ok(x), Ok(y)) => x@ == y@,
        (Err(x), Err(y)) => x == y,
        _ => false,
    }
}

/// Rejection, as a condition on a result `r`: within a right range, where
/// `key_selector` returns one key only for each item, a key outside the range
/// leaves `KeyOutOfRange` as the only result.
pub open spec fn rejects_key_outside<T, K: BucketKey, F: Fn(&T) -> K>(
    items: Seq<T>,
    key_selector: F,
    min: int,
    max: int,
    r: Result<Vec<T>, BucketSortError>,
) -> bool {
    range_error(min, max) is None && single_valued(key_selector, items) ==> forall|i: int, key: K|
        #[trigger] selects_outside(key_selector, items, min, max, i, key) ==> r == Err::<
            Vec<T>,
            BucketSortError,
        >(BucketSortError::KeyOutOfRange)
}

/// The number of buckets of the range from `min` to `max`, less one.
fn range_span<K: BucketKey>(min: &K, max: &K) -> (r: Result<usize, BucketSortError>)
    ensures
        match range_error(min.key_value(), max.key_value()) {
            Some(e) => r == Err::<usize, BucketSortError>(e),
            None => r == Ok::<usize, BucketSortError>(
                (max.key_value() - min.key_value()) as usize,
            ),
        },
{
    match max.distance_from(min) {
        None => Err(BucketSortError::InvalidRange),
        Some(distance) => match to_index(distance) {
            None => Err(BucketSortError::CastOverflow),
            Some(span) => if span > usize::MAX - 2 {
                Err(BucketSortError::CastOverflow)
            } else {
                Ok(span)
            },
        },
    }
}

/// The bucket offset of every item: how far its key lies above `min`.
/// Stops at the first key outside the `span + 1` buckets above `min`.
fn key_offsets<T, K: BucketKey, F: Fn(&T) -> K>(
    items: &[T],
    key_selector: &F,
    min: &K,
    span: usize,
) -> (r: Result<(Vec<usize>, Ghost<Seq<K>>), BucketSortError>)
    requires
        forall|i: int| 0 <= i < items@.len() ==> call_requires(*key_selector, (&#[trigger] items@[i],)),
    ensures
        match r {
            Ok((offsets, keys)) => {
                &&& selected(*key_selector, items@, keys@)
                &&& offsets@.len() == items@.len()
                &&& forall|i: int|
                    0 <= i < items@.len() ==> #[trigger] offsets@[i] == keys@[i].key_value()
                        - min.key_value() && offsets@[i] <= span
            },
            Err(e) => {
                &&& e == BucketSortError::KeyOutOfRange
                &&& exists|i: int, key: K|
                    #[trigger] selects_outside(
                        *key_selector,
                        items@,
                        min.key_value(),
                        min.key_value() + span,
                        i,
                        key,
                    )
            },
        },
{
    let n = items.len();
    let mut offsets: Vec<usize> = Vec::with_capacity(n);
    let ghost mut keys: Seq<K> = Seq::empty();
    let mut i: usize = 0;
    while i < n
        invariant
            n == items@.len(),
            i <= n,
            keys.len() == i,
            offsets@.len() == i,
            forall|j: int|
                0 <= j < items@.len() ==> call_requires(*key_selector, (&#[trigger] items@[j],)),
            forall|j: int|
                0 <= j < i ==> call_ensures(*key_selector, (&items@[j],), #[trigger] keys[j]),
            forall|j: int|
                0 <= j < i ==> #[trigger] offsets@[j] == keys[j].key_value() - min.key_value()
                    && offsets@[j] <= span,
        decreases n - i,
    {
        let key = key_selector(&items[i]);
        let offset = match key.distance_from(min) {
            None => None,
            Some(distance) => match to_index(distance) {
                None => None,
                Some(offset) => if offset > span {
                    None
                } else {
                    Some(offset)
                },
            },
        };
        match offset {
            None => {
                assert(selects_outside(
                    *key_selector,
                    items@,
                    min.key_value(),
                    min.key_value() + span,
                    i as int,
                    key,
                ));
                return Err(BucketSortError::KeyOutOfRange);
            },
            Some(offset) => {
                offsets.push(offset);
                proof {
                    keys = keys.push(key);
                }
            },
        }
        i += 1;
    }
    Ok((offsets, Ghost(keys)))
}

/// Empty input: within a right range, no items sort to no items, without
/// error.
pub proof fn empty_input_gives_empty_output<T: Clone, K: BucketKey, F: Fn(&T) -> K>(
    items: Seq<T>,
    key_selector: F,
    min: int,
    max: int,
    r: Result<Vec<T>, BucketSortError>,
)
    requires
        sorts_by_key::<T, K, F>(items, key_selector, min, max, r),
        range_error(min, max) is None,
        items.len() == 0,
    ensures
        r matches Ok(out) && out@.len() == 0,
{
    if let Err(e) = r {
        let (i, key) = choose|i: int, key: K|
            #[trigger] selects_outside(key_selector, items, min, max, i, key);
        assert(selects_outside(key_selector, items, min, max, i, key));
    }
}

/// Rejection: within a right range, an item for which `key_selector` returns
/// one key only, and that one outside the range, makes the sort fail with
/// `KeyOutOfRange`.
pub proof fn key_outside_is_rejected<T: Clone, K: BucketKey, F: Fn(&T) -> K>(
    items: Seq<T>,
    key_selector: F,
    min: int,
    max: int,
    r: Result<Vec<T>, BucketSortError>,
    i: int,
    key: K,
)
    requires
        sorts_by_key::<T, K, F>(items, key_selector, min, max, r),
        range_error(min, max) is None,
        single_valued(key_selector, items),
        selects_outside(key_selector, items, min, max, i, key),
    ensures
        r == Err::<Vec<T>, BucketSortError>(BucketSortError::KeyOutOfRange),
{
    if let Ok(out) = r {
        let keys = choose|keys: Seq<K>|
            {
                &&& #[trigger] selected(key_selector, items, keys)
                &&& forall|j: int|
                    0 <= j < keys.len() ==> within((#[trigger] keys[j]).key_value(), min, max)
                &&& stably_sorted_clones(items, key_values(keys), out@)
            };
        assert(call_ensures(key_selector, (&items[i],), keys[i]));
        assert(within(keys[i].key_value(), min, max));
    }
}

/// Where `key_selector` returns one key only for each item and clones equal
/// what they were cloned from, the contract leaves one result only: two
/// sorts of the same items within the same range end alike.
pub proof fn sort_is_determined<T: Clone, K: BucketKey, F: Fn(&T) -> K>(
    items: Seq<T>,
    key_selector: F,
    min: int,
    max: int,
    a: Result<Vec<T>, BucketSortError>,
    b: Result<Vec<T>, BucketSortError>,
)
    requires
        sorts_by_key::<T, K, F>(items, key_selector, min, max, a),
        sorts_by_key::<T, K, F>(items, key_selector, min, max, b),
        single_valued(key_selector, items),
        clones_are_equal::<T>(),
    ensures
        same_result(a, b),
{
    if range_error(min, max) is None {
        match (a, b) {
            (Ok(x), Ok(y)) => {
                let kx = choose|keys: Seq<K>|
                    {
                        &&& #[trigger] selected(key_selector, items, keys)
                        &&& forall|j: int|
                            0 <= j < keys.len() ==> within(
                                (#[trigger] keys[j]).key_value(),
                                min,
                                max,
                            )
                        &&& stably_sorted_clones(items, key_values(keys), x@)
                    };
                let ky = choose|keys: Seq<K>|
                    {
                        &&& #[trigger] selected(key_selector, items, keys)
                        &&& forall|j: int|
                            0 <= j < keys.len() ==> within(
                                (#[trigger] keys[j]).key_value(),
                                min,
                                max,
                            )
                        &&& stably_sorted_clones(items, key_values(keys), y@)
                    };
                assert forall|j: int| 0 <= j < items.len() implies key_values(kx)[j] == key_values(
                    ky,
                )[j] by {
                    assert(call_ensures(key_selector, (&items[j],), kx[j]));
                    assert(call_ensures(key_selector, (&items[j],), ky[j]));
                }
                assert(key_values(kx) =~= key_values(ky));
                equal_clones_are_sorted(items, key_values(kx), x@);
                equal_clones_are_sorted(items, key_values(ky), y@);
                sorted_is_unique(items, key_values(kx), x@, y@);
            },
            (Ok(x), Err(e)) => {
                let (i, key) = choose|i: int, key: K|
                    #[trigger] selects_outside(key_selector, items, min, max, i, key);
                key_outside_is_rejected(items, key_selector, min, max, a, i, key);
            },
            (Err(e), Ok(y)) => {
                let (i, key) = choose|i: int, key: K|
                    #[trigger] selects_outside(key_selector, items, min, max, i, key);
                key_outside_is_rejected(items, key_selector, min, max, b, i, key);
            },
            (Err(d), Err(e)) => {},
        }
    }
}

/// Full range: a sort over the whole range of the key type ends as the sort
/// that is given the smallest and the largest value of the type as `min` and
/// `max`. `all` is a result of `bucket_sort_all_by_key`, `bounded` one of
/// `bucket_sort_by_key`.
pub proof fn full_range_is_bounded_by_type<
    T: Clone,
    K: BucketKey + MinValue + MaxValue,
    F: Fn(&T) -> K,
>(
    items: Seq<T>,
    key_selector: F,
    min: K,
    max: K,
    all: Result<Vec<T>, BucketSortError>,
    bounded: Result<Vec<T>, BucketSortError>,
)
    requires
        sorts_by_key::<T, K, F>(
            items,
            key_selector,
            K::spec_min_value().key_value(),
            K::spec_max_value().key_value(),
            all,
        ),
        min == K::spec_min_value(),
        max == K::spec_max_value(),
        sorts_by_key::<T, K, F>(items, key_selector, min.key_value(), max.key_value(), bounded),
        single_valued(key_selector, items),
        clones_are_equal::<T>(),
    ensures
        same_result(all, bounded),
{
    sort_is_determined(items, key_selector, min.key_value(), max.key_value(), all, bounded);
}

/// The three passes behind `bucket_sort_by_key`, on a slice: the range, the
/// offset of every key, the counting sort.
fn sort_slice<T: Clone, K: BucketKey, F: Fn(&T) -> K>(
    items: &[T],
    key_selector: &F,
    min: &K,
    max: &K,
) -> (r: Result<Vec<T>, BucketSortError>)
    requires
        forall|i: int|
            0 <= i < items@.len() ==> call_requires(*key_selector, (&#[trigger] items@[i],)),
    ensures
        sorts_by_key(items@, *key_selector, min.key_value(), max.key_value(), r),
{
    let span = match range_span(min, max) {
        Ok(span) => span,
        Err(e) => {
            return Err(e);
        },
    };
    let (offsets, keys) = match key_offsets(items, key_selector, min, span) {
        Ok(found) => found,
        Err(e) => {
            return Err(e);
        },
    };
    let out = sort_by_offsets(items, offsets.as_slice(), span);
    proof {
        let values = key_values(keys@);
        let offs = as_ints(offsets@);
        assert forall|i: int| 0 <= i < items@.len() implies cloned(
            items@[i],
            #[trigger] out@[rank(values, i)],
        ) by {
            shifted_keys_keep_rank(values, offs, min.key_value(), i);
            rank_in_bounds(offs, i);
            assert(cloned(items@[i], out@[rank(offs, i)]));
        }
        assert(stably_sorted_clones(items@, values, out@));
        assert forall|i: int| 0 <= i < keys@.len() implies within(
            (#[trigger] keys@[i]).key_value(),
            min.key_value(),
            max.key_value(),
        ) by {
            assert(offsets@[i] == keys@[i].key_value() - min.key_value());
        }
        assert(selected(*key_selector, items@, keys@));
    }
    Ok(out)
}

/// Stable bucket sort of a sequence of items by a key of each.
pub trait BucketSort {
    /// What the sequence holds.
    type Item: Clone;

    /// The items of the sequence, in order.
    spec fn items(&self) -> Seq<Self::Item>;

    /// Returns clones of the items in ascending order of the keys that
    /// `key_selector` selects from them, items of equal key in the order in
    /// which they stand in `self`. Every key has to lie between `min` and
    /// `max`, both included.
    ///
    /// Fails with `InvalidRange` where `max` lies below `min`, with
    /// `CastOverflow` where a `usize` cannot index the `max - min + 2` slots
    /// of the histogram, and with `KeyOutOfRange` where a key lies outside
    /// the range.
    fn bucket_sort_by_key<K: BucketKey, F: Fn(&Self::Item) -> K>(
        &self,
        key_selector: F,
        min: K,
        max: K,
    ) -> (r: Result<Vec<Self::Item>, BucketSortError>)
        requires
            forall|i: int|
                0 <= i < self.items().len() ==> call_requires(
                    key_selector,
                    (&#[trigger] self.items()[i],),
                ),
        ensures
            sorts_by_key(self.items(), key_selector, min.key_value(), max.key_value(), r),
            self.items().len() == 0 && range_error(min.key_value(), max.key_value()) is None ==> (r
                matches Ok(out) && out@.len() == 0),
            rejects_key_outside(
                self.items(),
                key_selector,
                min.key_value(),
                max.key_value(),
                r,
            ),
    ;

    /// Sorts as `bucket_sort_by_key` does, with the smallest and the largest
    /// value of the key type as `min` and `max`.
    fn bucket_sort_all_by_key<K: BucketKey + MinValue + MaxValue, F: Fn(&Self::Item) -> K>(
        &self,
        key_selector: F,
    ) -> (r: Result<Vec<Self::Item>, BucketSortError>)
        requires
            forall|i: int|
                0 <= i < self.items().len() ==> call_requires(
                    key_selector,
                    (&#[trigger] self.items()[i],),
                ),
        ensures
            sorts_by_key(
                self.items(),
                key_selector,
                K::spec_min_value().key_value(),
                K::spec_max_value().key_value(),
                r,
            ),
            self.items().len() == 0 && range_error(
                K::spec_min_value().key_value(),
                K::spec_max_value().key_value(),
            ) is None ==> (r matches Ok(out) && out@.len() == 0),
            rejects_key_outside(
                self.items(),
                key_selector,
                K::spec_min_value().key_value(),
                K::spec_max_value().key_value(),
                r,
            ),
    {
        self.bucket_sort_by_key(key_selector, K::min_value(), K::max_value())
    }
}

impl<T: Clone> BucketSort for [T] {
    type Item = T;

    open spec fn items(&self) -> Seq<T> {
        self@
    }

    fn bucket_sort_by_key<K: BucketKey, F: Fn(&T) -> K>(&self, key_selector: F, min: K, max: K) -> (r:
        Result<Vec<T>, BucketSortError>) {
        assert forall|i: int| 0 <= i < self@.len() implies call_requires(
            key_selector,
            (&#[trigger] self@[i],),
        ) by {
            assert(self.items()[i] == self@[i]);
        }
        let r = sort_slice(self, &key_selector, &min, &max);
        proof {
            let (lo, hi) = (min.key_value(), max.key_value());
            if range_error(lo, hi) is None {
                if self@.len() == 0 {
                    empty_input_gives_empty_output(self@, key_selector, lo, hi, r);
                }
                assert forall|i: int, key: K|
                    single_valued(key_selector, self@) && #[trigger] selects_outside(
                        key_selector,
                        self@,
                        lo,
                        hi,
                        i,
                        key,
                    ) implies r == Err::<Vec<T>, BucketSortError>(
                    BucketSortError::KeyOutOfRange,
                ) by {
                    key_outside_is_rejected(self@, key_selector, lo, hi, r, i, key);
                }
            }
        }
        r
    }
}

} // verus!
