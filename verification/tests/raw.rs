use depthmap::raw::{min_max, normalize_raw, rescale_u16};

#[test]
fn min_max_of_empty_buffer_is_none() {
    let raw: Vec<i64> = vec![];
    assert!(min_max(&raw).is_none());
}

#[test]
fn min_max_scans_whole_buffer() {
    let raw: Vec<i64> = vec![3, -2, 9, 0];
    assert_eq!(min_max(&raw), Some((-2, 9)));
    let one: Vec<i64> = vec![5];
    assert_eq!(min_max(&one), Some((5, 5)));
}

#[test]
fn flat_buffer_normalizes_to_all_zeros() {
    // Degenerate rule: min == max maps everything to 0, no division.
    let raw: Vec<i64> = vec![7, 7, 7, 7];
    let (out, lo, hi) = normalize_raw(&raw);
    assert_eq!(lo, 7);
    assert_eq!(hi, 7);
    assert_eq!(out, vec![0, 0, 0, 0]);
}

#[test]
fn quantized_grid_matches_expected_sixteen_bit_values() {
    // Buffer [10, 20, 30, 40]: min 10, max 40, normalized 0, 1/3, 2/3, 1,
    // quantized 0, 21845, 43690, 65535.
    let raw: Vec<i64> = vec![10, 20, 30, 40];
    let (out, lo, hi) = normalize_raw(&raw);
    assert_eq!((lo, hi), (10, 40));
    assert_eq!(out, vec![0, 21845, 43690, 65535]);
}

#[test]
fn extremes_map_to_zero_and_full_scale() {
    let raw: Vec<i64> = vec![-5, 0, 5];
    let (out, lo, hi) = normalize_raw(&raw);
    assert_eq!((lo, hi), (-5, 5));
    assert_eq!(out[0], 0);
    assert_eq!(out[2], 65535);
    // Midpoint rounds half up: 32767.5 -> 32768.
    assert_eq!(out[1], 32768);
    assert!(out.contains(&0) && out.contains(&65535));
    for q in out {
        assert!(q <= 65535);
    }
}

#[test]
fn rescale_handles_extreme_sample_ranges() {
    let lo = i64::MIN;
    let hi = i64::MAX;
    assert_eq!(rescale_u16(lo, lo, hi), 0);
    assert_eq!(rescale_u16(hi, lo, hi), 65535);
    assert_eq!(rescale_u16(0, lo, hi), 32768);
    assert_eq!(rescale_u16(42, 42, 42), 0);
}
