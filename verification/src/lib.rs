//! Stable bucket sort of a slice by a bounded integer key.
//!
//! [`BucketSort::bucket_sort_by_key`] sorts clones of the items of a slice
//! into ascending order of a key that a function selects from each item, in
//! time and space linear in the number of items and the width of the declared
//! key range. Items of equal key keep their order.

pub mod bucket_sort;
pub mod counting;
pub mod error;
pub mod index;
pub mod key;
pub mod permutation;
pub mod rank;
pub mod stable;

pub use bucket_sort::BucketSort;
pub use error::BucketSortError;
pub use key::{BucketKey, MaxValue, MinValue};
