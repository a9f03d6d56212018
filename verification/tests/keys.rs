use bucket_sort::{BucketKey, MaxValue, MinValue};

#[test]
fn distance_is_counted_from_the_minimum() {
    assert_eq!(7u8.distance_from(&3u8), Some(4));
    assert_eq!(3u8.distance_from(&3u8), Some(0));
    assert_eq!(2u8.distance_from(&3u8), None);
    assert_eq!(65535u16.distance_from(&0u16), Some(65535));
    assert_eq!(10u32.distance_from(&11u32), None);
    assert_eq!(u64::MAX.distance_from(&0u64), Some(u64::MAX as u128));
    assert_eq!(usize::MAX.distance_from(&1usize), Some(usize::MAX as u128 - 1));
    assert_eq!(u128::MAX.distance_from(&0u128), Some(u128::MAX));
}

#[test]
fn distance_between_signed_keys_spans_zero() {
    assert_eq!(127i8.distance_from(&-128i8), Some(255));
    assert_eq!((-128i8).distance_from(&127i8), None);
    assert_eq!((-5i16).distance_from(&-9i16), Some(4));
    assert_eq!(i32::MAX.distance_from(&i32::MIN), Some(u32::MAX as u128));
    assert_eq!(i64::MAX.distance_from(&i64::MIN), Some(u64::MAX as u128));
    assert_eq!(0isize.distance_from(&isize::MIN), Some(isize::MAX as u128 + 1));
    assert_eq!(i128::MAX.distance_from(&i128::MIN), Some(u128::MAX));
    assert_eq!(0i128.distance_from(&i128::MIN), Some(1u128 << 127));
    assert_eq!((-1i128).distance_from(&i128::MIN), Some((1u128 << 127) - 1));
    assert_eq!(i128::MAX.distance_from(&0i128), Some((1u128 << 127) - 1));
    assert_eq!(i128::MIN.distance_from(&0i128), None);
}

#[test]
fn bounds_are_those_of_the_type() {
    assert_eq!(<u8 as MinValue>::min_value(), 0);
    assert_eq!(<u8 as MaxValue>::max_value(), 255);
    assert_eq!(<i8 as MinValue>::min_value(), -128);
    assert_eq!(<i8 as MaxValue>::max_value(), 127);
    assert_eq!(<u16 as MaxValue>::max_value(), 65535);
    assert_eq!(<i16 as MinValue>::min_value(), -32768);
    assert_eq!(<u32 as MaxValue>::max_value(), u32::MAX);
    assert_eq!(<i32 as MinValue>::min_value(), i32::MIN);
    assert_eq!(<u64 as MaxValue>::max_value(), u64::MAX);
    assert_eq!(<i64 as MinValue>::min_value(), i64::MIN);
    assert_eq!(<u128 as MaxValue>::max_value(), u128::MAX);
    assert_eq!(<i128 as MinValue>::min_value(), i128::MIN);
    assert_eq!(<usize as MinValue>::min_value(), 0);
    assert_eq!(<isize as MaxValue>::max_value(), isize::MAX);
}
