//! The ways in which a sort can be refused.

use vstd::prelude::*;

verus! {

/// Why a bucket sort returned no output.
#[derive(Debug, Clone, Copy, PartialEq, Eq, Structural)]
pub enum BucketSortError {
    /// The declared maximum lies below the declared minimum.
    InvalidRange,
    /// An item's key lies outside the declared range.
    KeyOutOfRange,
    /// The declared range has more buckets than a `usize` can index.
    CastOverflow,
}

} // verus!
