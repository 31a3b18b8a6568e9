use depthmap::pipeline::{
    from_raw, from_raw_bytes, prepare_image, resolve_profile_dims, standard_profile,
    ModelProfile, OutputEncoding, ResolutionPolicy, TranscodeError, ALIGNMENT,
};
use depthmap::resize::FilterKind;
use depthmap::tensor::TensorLayout;

#[test]
fn standard_profile_matches_the_depth_model_convention() {
    let p = standard_profile();
    assert_eq!(p.policy, ResolutionPolicy::Derived { align: 14 });
    assert_eq!(p.layout, TensorLayout::ChannelMajor);
    assert_eq!(p.output, OutputEncoding::MinMaxSixteenBit);
    assert_eq!(p.input_filter, FilterKind::Lanczos3);
    assert_eq!(p.output_filter, FilterKind::Lanczos3);
    assert_eq!(ALIGNMENT, 14);
}

#[test]
fn fixed_policy_ignores_source_and_request() {
    let p = ModelProfile {
        policy: ResolutionPolicy::Fixed { w: 518, h: 518 },
        ..standard_profile()
    };
    assert_eq!(resolve_profile_dims(&p, 700, 500, 0, 0), (518, 518));
    assert_eq!(resolve_profile_dims(&p, 64, 64, 400, 400), (518, 518));
}

#[test]
fn derived_policy_snaps_the_source_up() {
    let p = standard_profile();
    assert_eq!(resolve_profile_dims(&p, 700, 500, 0, 0), (714, 504));
}

#[test]
fn prepare_image_resizes_to_the_resolved_resolution() {
    let pixels = vec![128u8; 3 * 20 * 10];
    let (mw, mh, resized) = prepare_image(pixels, 20, 10, 0, 0, 14, FilterKind::Lanczos3);
    assert_eq!((mw, mh), (28, 14));
    assert_eq!(resized.len(), 3 * 28 * 14);
}

#[test]
fn prepare_image_upholds_requested_dims() {
    let pixels = vec![7u8; 3 * 20 * 10];
    let (mw, mh, resized) = prepare_image(pixels, 20, 10, 42, 28, 14, FilterKind::Nearest);
    assert_eq!((mw, mh), (42, 28));
    assert_eq!(resized.len(), 3 * 42 * 28);
}

#[test]
fn end_to_end_resolution_scenario() {
    // A 700x500 source with alignment 14 and no request runs the model at
    // 714x504, and the final image comes back at exactly 700x500.
    let pixels = vec![200u8; 3 * 700 * 500];
    let (mw, mh, resized) = prepare_image(pixels, 700, 500, 0, 0, 14, FilterKind::Lanczos3);
    assert_eq!((mw, mh), (714, 504));
    assert_eq!(resized.len(), 3 * 714 * 504);
    let raw: Vec<i64> = (0..(714i64 * 504)).collect();
    let img = from_raw(&raw, 714, 504, 700, 500, FilterKind::Lanczos3).unwrap();
    assert_eq!(img.len(), 700 * 500);
}

#[test]
fn from_raw_rejects_a_short_buffer() {
    let raw: Vec<i64> = vec![1, 2, 3];
    let err = from_raw(&raw, 2, 2, 5, 5, FilterKind::Lanczos3).unwrap_err();
    assert_eq!(err, TranscodeError::BufferLength { expected: 4, actual: 3 });
}

#[test]
fn from_raw_resamples_the_quantized_grid() {
    // The 2x2 grid [10,20,30,40] quantizes to [0,21845,43690,65535]; kept at
    // its own resolution the resampler copies it through unchanged.
    let raw: Vec<i64> = vec![10, 20, 30, 40];
    let img = from_raw(&raw, 2, 2, 2, 2, FilterKind::Lanczos3).unwrap();
    assert_eq!(img, vec![0, 21845, 43690, 65535]);
}

#[test]
fn from_raw_output_always_has_source_dimensions() {
    let raw: Vec<i64> = vec![10, 20, 30, 40, 50, 60];
    let up = from_raw(&raw, 3, 2, 9, 5, FilterKind::Triangle).unwrap();
    assert_eq!(up.len(), 9 * 5);
    let down = from_raw(&raw, 3, 2, 1, 1, FilterKind::Nearest).unwrap();
    assert_eq!(down.len(), 1);
}

#[test]
fn flat_raw_buffer_comes_out_black() {
    let raw: Vec<i64> = vec![9, 9, 9, 9];
    let img = from_raw(&raw, 2, 2, 2, 2, FilterKind::Lanczos3).unwrap();
    assert_eq!(img, vec![0, 0, 0, 0]);
}

#[test]
fn from_raw_bytes_copies_without_normalization() {
    // The direct-bytes profile: already-quantized samples pass through.
    let raw = vec![10u8, 20, 30, 40];
    let img = from_raw_bytes(raw, 2, 2, 2, 2, FilterKind::Lanczos3).unwrap();
    assert_eq!(img, vec![10, 20, 30, 40]);
}

#[test]
fn from_raw_bytes_checks_length_and_resamples() {
    let err = from_raw_bytes(vec![1u8, 2], 2, 2, 2, 2, FilterKind::Nearest).unwrap_err();
    assert_eq!(err, TranscodeError::BufferLength { expected: 4, actual: 2 });
    let img = from_raw_bytes(vec![1u8, 2, 3, 4], 2, 2, 1, 1, FilterKind::Nearest).unwrap();
    assert_eq!(img.len(), 1);
}
