//! Keys: the integers that items are sorted by.

use vstd::prelude::*;

verus! {

/// A key that a bucket sort can work with: it stands for an integer, and its
/// distance above another key can be measured.
pub trait BucketKey: Sized {
    /// The integer that this key stands for.
    spec fn key_value(&self) -> int;

    /// How far this key lies above `min`; `None` when it lies below `min`.
    fn distance_from(&self, min: &Self) -> (d: Option<u128>)
        ensures
            match d {
                Some(above) => above == self.key_value() - min.key_value(),
                None => self.key_value() < min.key_value(),
            },
    ;
}

/// A key type with a smallest value.
pub trait MinValue: Sized {
    /// The smallest value of the type.
    spec fn spec_min_value() -> Self;

    /// Returns the smallest value of the type.
    fn min_value() -> (r: Self)
        ensures
            r == Self::spec_min_value(),
    ;
}

/// A key type with a largest value.
pub trait MaxValue: Sized {
    /// The largest value of the type.
    spec fn spec_max_value() -> Self;

    /// Returns the largest value of the type.
    fn max_value() -> (r: Self)
        ensures
            r == Self::spec_max_value(),
    ;
}

/// The integers that a sequence of keys stands for.
pub open spec fn key_values<K: BucketKey>(keys: Seq<K>) -> Seq<int> {
    Seq::new(keys.len(), |i: int| keys[i].key_value())
}

impl BucketKey for u8 {
    open spec fn key_value(&self) -> int {
        *self as int
    }

    fn distance_from(&self, min: &u8) -> (d: Option<u128>) {
        if *self < *min {
            None
        } else {
            Some((*self - *min) as u128)
        }
    }
}

impl MinValue for u8 {
    open spec fn spec_min_value() -> u8 {
        u8::MIN
    }

    fn min_value() -> (r: u8) {
        u8::MIN
    }
}

impl MaxValue for u8 {
    open spec fn spec_max_value() -> u8 {
        u8::MAX
    }

    fn max_value() -> (r: u8) {
        u8::MAX
    }
}

impl BucketKey for u16 {
    open spec fn key_value(&self) -> int {
        *self as int
    }

    fn distance_from(&self, min: &u16) -> (d: Option<u128>) {
        if *self < *min {
            None
        } else {
            Some((*self - *min) as u128)
        }
    }
}

impl MinValue for u16 {
    open spec fn spec_min_value() -> u16 {
        u16::MIN
    }

    fn min_value() -> (r: u16) {
        u16::MIN
    }
}

impl MaxValue for u16 {
    open spec fn spec_max_value() -> u16 {
        u16::MAX
    }

    fn max_value() -> (r: u16) {
        u16::MAX
    }
}

impl BucketKey for u32 {
    open spec fn key_value(&self) -> int {
        *self as int
    }

    fn distance_from(&self, min: &u32) -> (d: Option<u128>) {
        if *self < *min {
            None
        } else {
            Some((*self - *min) as u128)
        }
    }
}

impl MinValue for u32 {
    open spec fn spec_min_value() -> u32 {
        u32::MIN
    }

    fn min_value() -> (r: u32) {
        u32::MIN
    }
}

impl MaxValue for u32 {
    open spec fn spec_max_value() -> u32 {
        u32::MAX
    }

    fn max_value() -> (r: u32) {
        u32::MAX
    }
}

impl BucketKey for u64 {
    open spec fn key_value(&self) -> int {
        *self as int
    }

    fn distance_from(&self, min: &u64) -> (d: Option<u128>) {
        if *self < *min {
            None
        } else {
            Some((*self - *min) as u128)
        }
    }
}

impl MinValue for u64 {
    open spec fn spec_min_value() -> u64 {
        u64::MIN
    }

    fn min_value() -> (r: u64) {
        u64::MIN
    }
}

impl MaxValue for u64 {
    open spec fn spec_max_value() -> u64 {
        u64::MAX
    }

    fn max_value() -> (r: u64) {
        u64::MAX
    }
}

impl BucketKey for usize {
    open spec fn key_value(&self) -> int {
        *self as int
    }

    fn distance_from(&self, min: &usize) -> (d: Option<u128>) {
        if *self < *min {
            None
        } else {
            Some((*self - *min) as u128)
        }
    }
}

impl MinValue for usize {
    open spec fn spec_min_value() -> usize {
        usize::MIN
    }

    fn min_value() -> (r: usize) {
        usize::MIN
    }
}

impl MaxValue for usize {
    open spec fn spec_max_value() -> usize {
        usize::MAX
    }

    fn max_value() -> (r: usize) {
        usize::MAX
    }
}

impl BucketKey for u128 {
    open spec fn key_value(&self) -> int {
        *self as int
    }

    fn distance_from(&self, min: &u128) -> (d: Option<u128>) {
        if *self < *min {
            None
        } else {
            Some(*self - *min)
        }
    }
}

impl MinValue for u128 {
    open spec fn spec_min_value() -> u128 {
        u128::MIN
    }

    fn min_value() -> (r: u128) {
        u128::MIN
    }
}

impl MaxValue for u128 {
    open spec fn spec_max_value() -> u128 {
        u128::MAX
    }

    fn max_value() -> (r: u128) {
        u128::MAX
    }
}

impl BucketKey for i8 {
    open spec fn key_value(&self) -> int {
        *self as int
    }

    fn distance_from(&self, min: &i8) -> (d: Option<u128>) {
        if *self < *min {
            None
        } else {
            Some((*self as i128 - *min as i128) as u128)
        }
    }
}

impl MinValue for i8 {
    open spec fn spec_min_value() -> i8 {
        i8::MIN
    }

    fn min_value() -> (r: i8) {
        i8::MIN
    }
}

impl MaxValue for i8 {
    open spec fn spec_max_value() -> i8 {
        i8::MAX
    }

    fn max_value() -> (r: i8) {
        i8::MAX
    }
}

impl BucketKey for i16 {
    open spec fn key_value(&self) -> int {
        *self as int
    }

    fn distance_from(&self, min: &i16) -> (d: Option<u128>) {
        if *self < *min {
            None
        } else {
            Some((*self as i128 - *min as i128) as u128)
        }
    }
}

impl MinValue for i16 {
    open spec fn spec_min_value() -> i16 {
        i16::MIN
    }

    fn min_value() -> (r: i16) {
        i16::MIN
    }
}

impl MaxValue for i16 {
    open spec fn spec_max_value() -> i16 {
        i16::MAX
    }

    fn max_value() -> (r: i16) {
        i16::MAX
    }
}

impl BucketKey for i32 {
    open spec fn key_value(&self) -> int {
        *self as int
    }

    fn distance_from(&self, min: &i32) -> (d: Option<u128>) {
        if *self < *min {
            None
        } else {
            Some((*self as i128 - *min as i128) as u128)
        }
    }
}

impl MinValue for i32 {
    open spec fn spec_min_value() -> i32 {
        i32::MIN
    }

    fn min_value() -> (r: i32) {
        i32::MIN
    }
}

impl MaxValue for i32 {
    open spec fn spec_max_value() -> i32 {
        i32::MAX
    }

    fn max_value() -> (r: i32) {
        i32::MAX
    }
}

impl BucketKey for i64 {
    open spec fn key_value(&self) -> int {
        *self as int
    }

    fn distance_from(&self, min: &i64) -> (d: Option<u128>) {
        if *self < *min {
            None
        } else {
            Some((*self as i128 - *min as i128) as u128)
        }
    }
}

impl MinValue for i64 {
    open spec fn spec_min_value() -> i64 {
        i64::MIN
    }

    fn min_value() -> (r: i64) {
        i64::MIN
    }
}

impl MaxValue for i64 {
    open spec fn spec_max_value() -> i64 {
        i64::MAX
    }

    fn max_value() -> (r: i64) {
        i64::MAX
    }
}

impl BucketKey for isize {
    open spec fn key_value(&self) -> int {
        *self as int
    }

    fn distance_from(&self, min: &isize) -> (d: Option<u128>) {
        if *self < *min {
            None
        } else {
            Some((*self as i128 - *min as i128) as u128)
        }
    }
}

impl MinValue for isize {
    open spec fn spec_min_value() -> isize {
        isize::MIN
    }

    fn min_value() -> (r: isize) {
        isize::MIN
    }
}

impl MaxValue for isize {
    open spec fn spec_max_value() -> isize {
        isize::MAX
    }

    fn max_value() -> (r: isize) {
        isize::MAX
    }
}

impl BucketKey for i128 {
    open spec fn key_value(&self) -> int {
        *self as int
    }

    fn distance_from(&self, min: &i128) -> (d: Option<u128>) {
        if *self < *min {
            None
        } else if *min >= 0 || *self < 0 {
            Some((*self - *min) as u128)
        } else {
            // `min` is negative and `self` is not: add the two parts on either
            // side of zero, each of which fits.
            Some(*self as u128 + (-(*min + 1)) as u128 + 1)
        }
    }
}

impl MinValue for i128 {
    open spec fn spec_min_value() -> i128 {
        i128::MIN
    }

    fn min_value() -> (r: i128) {
        i128::MIN
    }
}

impl MaxValue for i128 {
    open spec fn spec_max_value() -> i128 {
        i128::MAX
    }

    fn max_value() -> (r: i128) {
        i128::MAX
    }
}

} // verus!
