use depthmap::dims::{resolve_dim, resolve_resolution};

#[test]
fn derived_dims_snap_up_to_next_multiple() {
    // 700/14 = 50, +1 -> 51, *14 = 714; 500/14 = 35, +1 -> 36, *14 = 504.
    assert_eq!(resolve_resolution(700, 500, 0, 0, 14), (714, 504));
}

#[test]
fn derived_dim_exceeds_source_even_on_exact_multiple() {
    // An exact multiple still snaps strictly upward.
    assert_eq!(resolve_dim(714, 0, 14), 728);
    assert_eq!(resolve_dim(1, 0, 14), 14);
}

#[test]
fn requested_dims_align_down() {
    assert_eq!(resolve_resolution(700, 500, 700, 500, 14), (700, 490));
    assert_eq!(resolve_resolution(640, 480, 518, 518, 14), (518, 518));
}

#[test]
fn explicit_request_ignores_source_size() {
    // The source dimensions play no part on the explicit-request path, even
    // when they are as large as u32 allows.
    assert_eq!(resolve_resolution(u32::MAX, u32::MAX, 700, 500, 14), (700, 490));
    assert_eq!(resolve_dim(u32::MAX, 518, 14), 518);
}

#[test]
fn requested_dim_below_alignment_clamps_to_alignment() {
    assert_eq!(resolve_resolution(700, 500, 10, 10, 14), (14, 14));
    assert_eq!(resolve_resolution(700, 500, 13, 600, 14), (14, 588));
}

#[test]
fn one_missing_requested_dim_falls_back_to_alignment() {
    assert_eq!(resolve_resolution(700, 500, 0, 500, 14), (14, 490));
    assert_eq!(resolve_resolution(700, 500, 700, 0, 14), (700, 14));
}

#[test]
fn alignment_one_keeps_requested_dims() {
    assert_eq!(resolve_resolution(100, 100, 33, 77, 1), (33, 77));
    // Derived with alignment 1: the next multiple of 1 above the source.
    assert_eq!(resolve_resolution(100, 50, 0, 0, 1), (101, 51));
}
