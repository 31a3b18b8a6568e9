use vstd::prelude::*;
use crate::dims::{lemma_aligned_request_props, lemma_snap_up_is_next_multiple, resolve_resolution, resolved_dims};
use crate::raw::{normalize_raw, rescaled_of};
use crate::resize::{filter_id, luma16_resized, luma8_resized, resize_luma16, resize_luma8, resize_rgb, rgb_resized, FilterKind};
use crate::tensor::TensorLayout;

verus! {

/// The alignment unit: valid model input dimensions are multiples of this,
/// dictated by the model's internal patch size.
pub const ALIGNMENT: u32 = 14;

/// How a profile decides the model resolution: derived from the source
/// dimensions by alignment snapping, or one fixed resolution regardless of
/// source size.
#[derive(Clone, Copy, PartialEq, Eq, Structural, Debug)]
pub enum ResolutionPolicy {
    Derived { align: u32 },
    Fixed { w: u32, h: u32 },
}

/// How the raw inference output is turned into image samples: min-max
/// rescaled to 16-bit samples, or already-quantized bytes copied directly.
#[derive(Clone, Copy, PartialEq, Eq, Structural, Debug)]
pub enum OutputEncoding {
    MinMaxSixteenBit,
    DirectBytes,
}

/// A model profile: the per-model configuration record that selects the
/// resolution policy, tensor layout, output encoding and resampling filters.
#[derive(Clone, Copy, PartialEq, Eq, Structural, Debug)]
pub struct ModelProfile {
    pub policy: ResolutionPolicy,
    pub layout: TensorLayout,
    pub output: OutputEncoding,
    pub input_filter: FilterKind,
    pub output_filter: FilterKind,
}

/// A profile's fields lie in their meaningful ranges.
pub open spec fn profile_wf(p: ModelProfile) -> bool {
    match p.policy {
        ResolutionPolicy::Derived { align } => align >= 1,
        ResolutionPolicy::Fixed { w, h } => w >= 1 && h >= 1,
    }
}

/// The model resolution a profile yields for a source resolution and an
/// optional explicit request.
pub open spec fn profile_dims(p: ModelProfile, sw: int, sh: int, rw: int, rh: int) -> (int, int) {
    match p.policy {
        ResolutionPolicy::Derived { align } => resolved_dims(sw, sh, rw, rh, align as int),
        ResolutionPolicy::Fixed { w, h } => (w as int, h as int),
    }
}

/// The profile of the depth models this pipeline was built around: alignment
/// of 14 derived from the source size, channel-major tensor, min-max 16-bit
/// output, Lanczos3 resampling on both sides.
pub fn standard_profile() -> (p: ModelProfile)
    ensures
        p.policy == (ResolutionPolicy::Derived { align: ALIGNMENT }),
        p.layout == TensorLayout::ChannelMajor,
        p.output == OutputEncoding::MinMaxSixteenBit,
        p.input_filter == FilterKind::Lanczos3,
        p.output_filter == FilterKind::Lanczos3,
        profile_wf(p),
{
    ModelProfile {
        policy: ResolutionPolicy::Derived { align: ALIGNMENT },
        layout: TensorLayout::ChannelMajor,
        output: OutputEncoding::MinMaxSixteenBit,
        input_filter: FilterKind::Lanczos3,
        output_filter: FilterKind::Lanczos3,
    }
}

/// Resolve the model resolution under a profile.
pub fn resolve_profile_dims(
    p: &ModelProfile,
    source_w: u32,
    source_h: u32,
    requested_w: u32,
    requested_h: u32,
) -> (r: (u32, u32))
    requires
        profile_wf(*p),
        requested_w == 0 && requested_h == 0 ==> (p.policy matches ResolutionPolicy::Derived {
            align,
        } ==> source_w + align <= u32::MAX && source_h + align <= u32::MAX),
    ensures
        (r.0 as int, r.1 as int) == profile_dims(
            *p,
            source_w as int,
            source_h as int,
            requested_w as int,
            requested_h as int,
        ),
        r.0 >= 1 && r.1 >= 1,
{
    match p.policy {
        ResolutionPolicy::Derived { align } => resolve_resolution(
            source_w,
            source_h,
            requested_w,
            requested_h,
            align,
        ),
        ResolutionPolicy::Fixed { w, h } => (w, h),
    }
}

/// The inverse transcoder's fail-fast diagnosis: the raw output buffer did
/// not hold exactly one sample per model pixel.
#[derive(Clone, Copy, PartialEq, Eq, Structural, Debug)]
pub enum TranscodeError {
    BufferLength { expected: usize, actual: usize },
}

/// Resize a decoded source image to the model resolution resolved for it:
/// the forward transcoder's resampling step. Returns the model resolution
/// and the resized interleaved RGB buffer.
pub fn prepare_image(
    pixels: Vec<u8>,
    source_w: u32,
    source_h: u32,
    requested_w: u32,
    requested_h: u32,
    align: u32,
    kind: FilterKind,
) -> (r: (u32, u32, Vec<u8>))
    requires
        source_w >= 1,
        source_h >= 1,
        align >= 1,
        pixels.len() == 3 * source_w * source_h,
        requested_w == 0 && requested_h == 0 ==> {
            &&& source_w + align <= u32::MAX
            &&& source_h + align <= u32::MAX
            &&& 3 * (source_w + align) * (source_h + align) <= usize::MAX
            &&& 4 * source_w * (source_h + align) <= usize::MAX
        },
        !(requested_w == 0 && requested_h == 0) ==> {
            &&& 3 * (requested_w + align) * (requested_h + align) <= usize::MAX
            &&& 4 * source_w * (requested_h + align) <= usize::MAX
        },
    ensures
        (r.0 as int, r.1 as int) == resolved_dims(
            source_w as int,
            source_h as int,
            requested_w as int,
            requested_h as int,
            align as int,
        ),
        r.0 >= 1 && r.1 >= 1,
        r.2.len() == 3 * r.0 * r.1,
        r.2@ == rgb_resized(
            pixels@,
            source_w as int,
            source_h as int,
            r.0 as int,
            r.1 as int,
            filter_id(kind),
        ),
{
    let (model_w, model_h) = resolve_resolution(source_w, source_h, requested_w, requested_h, align);
    proof {
        lemma_snap_up_is_next_multiple(source_w as int, align as int);
        lemma_snap_up_is_next_multiple(source_h as int, align as int);
        lemma_aligned_request_props(requested_w as int, align as int);
        lemma_aligned_request_props(requested_h as int, align as int);
        if requested_w == 0 && requested_h == 0 {
            assert(model_w <= source_w + align && model_h <= source_h + align);
            assert(3 * (model_w as int) * (model_h as int) <= 3 * ((source_w + align) as int) * ((
            source_h + align) as int) && 4 * (source_w as int) * (model_h as int) <= 4 * (
            source_w as int) * ((source_h + align) as int)) by (nonlinear_arith)
                requires
                    1 <= model_w <= source_w + align,
                    1 <= model_h <= source_h + align,
                    source_w >= 1,
            ;
        } else {
            assert(model_w <= requested_w + align && model_h <= requested_h + align);
            assert(3 * (model_w as int) * (model_h as int) <= 3 * (requested_w + align as int) * (
            requested_h + align as int) && 4 * (source_w as int) * (model_h as int) <= 4 * (
            source_w as int) * (requested_h + align as int)) by (nonlinear_arith)
                requires
                    1 <= model_w <= requested_w + align,
                    1 <= model_h <= requested_h + align,
                    source_w >= 1,
            ;
        }
    }
    let resized = resize_rgb(pixels, source_w, source_h, model_w, model_h, kind);
    (model_w, model_h, resized)
}

/// The whole inverse transcoding of a raw (fixed-point) inference output:
/// validate the buffer length against the model resolution, min-max rescale
/// into 16-bit samples (a flat buffer becoming uniform black), and resample
/// back to the output resolution. The result has exactly one sample per
/// output pixel; the length check is the only way to fail.
pub fn from_raw(
    raw: &Vec<i64>,
    model_w: u32,
    model_h: u32,
    out_w: u32,
    out_h: u32,
    kind: FilterKind,
) -> (r: Result<Vec<u16>, TranscodeError>)
    requires
        model_w >= 1,
        model_h >= 1,
        out_w >= 1,
        out_h >= 1,
        model_w * model_h <= usize::MAX,
        out_w * out_h <= usize::MAX,
        4 * model_w * out_h <= usize::MAX,
    ensures
        r is Ok <==> raw.len() == model_w * model_h,
        r matches Ok(img) ==> img.len() == out_w * out_h,
        r matches Ok(img) ==> img@ == luma16_resized(
            rescaled_of(raw@),
            model_w as int,
            model_h as int,
            out_w as int,
            out_h as int,
            filter_id(kind),
        ),
        r matches Err(e) ==> e == (TranscodeError::BufferLength {
            expected: (model_w * model_h) as usize,
            actual: raw.len(),
        }),
{
    let expected: usize = (model_w as usize) * (model_h as usize);
    if raw.len() != expected {
        return Err(TranscodeError::BufferLength { expected, actual: raw.len() });
    }
    proof {
        assert(model_w as int * model_h as int >= 1) by (nonlinear_arith)
            requires
                model_w >= 1 && model_h >= 1,
        ;
    }
    let (norm, _lo, _hi) = normalize_raw(raw);
    Ok(resize_luma16(norm, model_w, model_h, out_w, out_h, kind))
}

/// The inverse transcoding of an already-quantized byte output (the
/// direct-bytes profile): validate the buffer length, then resample straight
/// to the output resolution — no normalization.
pub fn from_raw_bytes(
    raw: Vec<u8>,
    model_w: u32,
    model_h: u32,
    out_w: u32,
    out_h: u32,
    kind: FilterKind,
) -> (r: Result<Vec<u8>, TranscodeError>)
    requires
        model_w >= 1,
        model_h >= 1,
        out_w >= 1,
        out_h >= 1,
        model_w * model_h <= usize::MAX,
        out_w * out_h <= usize::MAX,
        4 * model_w * out_h <= usize::MAX,
    ensures
        r is Ok <==> raw.len() == model_w * model_h,
        r matches Ok(img) ==> img.len() == out_w * out_h,
        r matches Ok(img) ==> img@ == luma8_resized(
            raw@,
            model_w as int,
            model_h as int,
            out_w as int,
            out_h as int,
            filter_id(kind),
        ),
        r matches Err(e) ==> e == (TranscodeError::BufferLength {
            expected: (model_w * model_h) as usize,
            actual: raw.len(),
        }),
{
    let actual = raw.len();
    let expected: usize = (model_w as usize) * (model_h as usize);
    if actual != expected {
        return Err(TranscodeError::BufferLength { expected, actual });
    }
    Ok(resize_luma8(raw, model_w, model_h, out_w, out_h, kind))
}

} // verus!
