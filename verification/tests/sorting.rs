use bucket_sort::{BucketSort, BucketSortError};

#[test]
fn sorts_pairs_by_key_and_keeps_ties_in_order() {
    let input = vec![(3u8, 'a'), (1u8, 'b'), (3u8, 'c'), (1u8, 'd')];
    let sorted = input.bucket_sort_by_key(|x| x.0, 1u8, 3u8);
    assert_eq!(sorted, Ok(vec![(1u8, 'b'), (1u8, 'd'), (3u8, 'a'), (3u8, 'c')]));
}

#[test]
fn leaves_the_input_untouched() {
    let input = vec![(3u8, 'a'), (1u8, 'b'), (3u8, 'c'), (1u8, 'd')];
    let before = input.clone();
    let _ = input.bucket_sort_by_key(|x| x.0, 1u8, 3u8);
    assert_eq!(input, before);
}

#[test]
fn output_is_a_permutation_of_the_input() {
    let input: Vec<u16> = vec![700, 3, 512, 3, 65535, 0, 700, 41, 3];
    let sorted = input.bucket_sort_by_key(|x| *x, 0u16, 65535u16).unwrap();
    assert_eq!(sorted.len(), input.len());
    for item in &input {
        let there = input.iter().filter(|x| *x == item).count();
        let here = sorted.iter().filter(|x| *x == item).count();
        assert_eq!(here, there);
    }
    assert_eq!(sorted, vec![0, 3, 3, 3, 41, 512, 700, 700, 65535]);
}

#[test]
fn output_keys_never_decrease() {
    let input: Vec<(i32, usize)> =
        vec![(5, 0), (-3, 1), (9, 2), (0, 3), (-3, 4), (12, 5), (5, 6), (-7, 7)];
    let sorted = input.bucket_sort_by_key(|x| x.0, -10i32, 20i32).unwrap();
    for pair in sorted.windows(2) {
        assert!(pair[0].0 <= pair[1].0);
    }
    assert_eq!(
        sorted,
        vec![(-7, 7), (-3, 1), (-3, 4), (0, 3), (5, 0), (5, 6), (9, 2), (12, 5)]
    );
}

#[test]
fn equal_keys_keep_their_input_order() {
    let input: Vec<(u8, u32)> = (0..40u32).map(|i| ((i % 4) as u8, i)).collect();
    let sorted = input.bucket_sort_by_key(|x| x.0, 0u8, 3u8).unwrap();
    for pair in sorted.windows(2) {
        if pair[0].0 == pair[1].0 {
            assert!(pair[0].1 < pair[1].1);
        }
    }
    assert_eq!(sorted[0], (0, 0));
    assert_eq!(sorted[9], (0, 36));
    assert_eq!(sorted[10], (1, 1));
    assert_eq!(sorted[39], (3, 39));
}

#[test]
fn sorted_input_comes_back_unchanged() {
    let input = vec![(1u8, 'x'), (1u8, 'a'), (2u8, 'q'), (2u8, 'b'), (7u8, 'z')];
    let sorted = input.bucket_sort_by_key(|x| x.0, 0u8, 9u8).unwrap();
    assert_eq!(sorted, input);
    let again = sorted.bucket_sort_by_key(|x| x.0, 0u8, 9u8).unwrap();
    assert_eq!(again, sorted);
}

#[test]
fn empty_input_gives_empty_output() {
    let input: Vec<(u8, char)> = Vec::new();
    assert_eq!(input.bucket_sort_by_key(|x| x.0, 1u8, 3u8), Ok(Vec::new()));
    assert_eq!(input.bucket_sort_all_by_key(|x| x.0), Ok(Vec::new()));
}

#[test]
fn single_value_range_takes_only_that_key() {
    let input = vec![(4u8, 'a'), (4u8, 'b'), (4u8, 'c')];
    let sorted = input.bucket_sort_by_key(|x| x.0, 4u8, 4u8);
    assert_eq!(sorted, Ok(vec![(4u8, 'a'), (4u8, 'b'), (4u8, 'c')]));
    let other = vec![(4u8, 'a'), (5u8, 'b')];
    assert_eq!(
        other.bucket_sort_by_key(|x| x.0, 4u8, 4u8),
        Err(BucketSortError::KeyOutOfRange)
    );
}

#[test]
fn full_range_sort_equals_sort_with_type_bounds() {
    let input: Vec<(u8, u16)> = (0..600u16).map(|i| ((i.wrapping_mul(37) % 256) as u8, i)).collect();
    let all = input.bucket_sort_all_by_key(|x| x.0);
    let bounded = input.bucket_sort_by_key(|x| x.0, 0u8, 255u8);
    assert!(all.is_ok());
    assert_eq!(all, bounded);
    let sorted = all.unwrap();
    assert_eq!(sorted.first().map(|x| x.0), Some(0));
    assert_eq!(sorted.last().map(|x| x.0), Some(255));
}

#[test]
fn full_range_sort_of_signed_keys() {
    let input: Vec<i8> = vec![127, -128, 0, -1, 1, -128, 127];
    let all = input.bucket_sort_all_by_key(|x| *x);
    assert_eq!(all, Ok(vec![-128, -128, -1, 0, 1, 127, 127]));
    assert_eq!(all, input.bucket_sort_by_key(|x| *x, i8::MIN, i8::MAX));
}

#[test]
fn key_above_the_range_is_rejected() {
    let input = vec![(1u8, 'a'), (4u8, 'b'), (2u8, 'c')];
    assert_eq!(
        input.bucket_sort_by_key(|x| x.0, 1u8, 3u8),
        Err(BucketSortError::KeyOutOfRange)
    );
}

#[test]
fn key_below_the_range_is_rejected() {
    let input = vec![(1u8, 'a'), (0u8, 'b'), (2u8, 'c')];
    assert_eq!(
        input.bucket_sort_by_key(|x| x.0, 1u8, 3u8),
        Err(BucketSortError::KeyOutOfRange)
    );
    let signed = vec![5i64, -6, 3];
    assert_eq!(
        signed.bucket_sort_by_key(|x| *x, -5i64, 5i64),
        Err(BucketSortError::KeyOutOfRange)
    );
}

#[test]
fn key_far_above_the_range_is_rejected() {
    let input: Vec<u128> = vec![3, u128::MAX, 1];
    assert_eq!(
        input.bucket_sort_by_key(|x| *x, 0u128, 10u128),
        Err(BucketSortError::KeyOutOfRange)
    );
}

#[test]
fn reversed_range_is_invalid() {
    let input = vec![(2u8, 'a')];
    assert_eq!(
        input.bucket_sort_by_key(|x| x.0, 3u8, 1u8),
        Err(BucketSortError::InvalidRange)
    );
    let empty: Vec<(u8, char)> = Vec::new();
    assert_eq!(
        empty.bucket_sort_by_key(|x| x.0, 3u8, 1u8),
        Err(BucketSortError::InvalidRange)
    );
}

#[test]
fn range_too_wide_to_index_overflows() {
    let input: Vec<u128> = vec![1, 2, 3];
    assert_eq!(
        input.bucket_sort_by_key(|x| *x, 0u128, u128::MAX),
        Err(BucketSortError::CastOverflow)
    );
    assert_eq!(
        input.bucket_sort_all_by_key(|x| *x),
        Err(BucketSortError::CastOverflow)
    );
    let words: Vec<usize> = vec![1, 2, 3];
    assert_eq!(
        words.bucket_sort_by_key(|x| *x, 0usize, usize::MAX - 1),
        Err(BucketSortError::CastOverflow)
    );
    let wide: Vec<i128> = vec![0];
    assert_eq!(
        wide.bucket_sort_by_key(|x| *x, i128::MIN, i128::MAX),
        Err(BucketSortError::CastOverflow)
    );
}

#[test]
fn offsets_are_taken_from_the_minimum() {
    let input: Vec<u64> = vec![1_000_000_000_007, 1_000_000_000_000, 1_000_000_000_003];
    let sorted = input.bucket_sort_by_key(|x| *x, 1_000_000_000_000u64, 1_000_000_000_010u64);
    assert_eq!(
        sorted,
        Ok(vec![1_000_000_000_000, 1_000_000_000_003, 1_000_000_000_007])
    );
    let signed: Vec<i128> = vec![2, -3, 0, -3];
    assert_eq!(
        signed.bucket_sort_by_key(|x| *x, -4i128, 4i128),
        Ok(vec![-3, -3, 0, 2])
    );
}

#[test]
fn sorts_a_plain_slice_of_strings_by_length() {
    let input = [String::from("ccc"), String::from("a"), String::from("bb"), String::from("d")];
    let sorted = input[..].bucket_sort_by_key(|s| s.len(), 0usize, 8usize).unwrap();
    assert_eq!(sorted, vec!["a", "d", "bb", "ccc"]);
}
