use vstd::prelude::*;

verus! {

/// The resampling filter handed to the image engine's resize (the default
/// elsewhere in this crate is the windowed-sinc Lanczos3).
#[derive(Clone, Copy, PartialEq, Eq, Structural, Debug)]
pub enum FilterKind {
    Nearest,
    Triangle,
    CatmullRom,
    Gaussian,
    Lanczos3,
}

/// A plain number for each filter kind, so that the names below range over
/// plain values only.
pub open spec fn filter_id(kind: FilterKind) -> int {
    match kind {
        FilterKind::Nearest => 0,
        FilterKind::Triangle => 1,
        FilterKind::CatmullRom => 2,
        FilterKind::Gaussian => 3,
        FilterKind::Lanczos3 => 4,
    }
}

/// What image::imageops::resize yields for an interleaved RGB buffer: it
/// depends on the source samples, both resolutions and the filter alone.
pub uninterp spec fn rgb_resized(pixels: Seq<u8>, w: int, h: int, nw: int, nh: int, filter: int) -> Seq<u8>;

/// What image::imageops::resize yields for a single-channel 16-bit buffer.
pub uninterp spec fn luma16_resized(samples: Seq<u16>, w: int, h: int, nw: int, nh: int, filter: int) -> Seq<u16>;

/// What image::imageops::resize yields for a single-channel 8-bit buffer.
pub uninterp spec fn luma8_resized(samples: Seq<u8>, w: int, h: int, nw: int, nh: int, filter: int) -> Seq<u8>;

/// Relies on image::imageops::resize over an RGB image (rebuilt from the
/// interleaved samples by ImageBuffer::from_raw, handed back by into_raw):
/// the result is a freshly sampled image of exactly the requested
/// dimensions, 3 samples per pixel, determined by the arguments alone (the
/// kernels' float rounding taken as fixed). The resampler's vertical pass
/// allocates a four-channel float intermediate of source width by target
/// height, whose subpixel count must fit a usize.
#[verifier::external_body]
pub(crate) fn resize_rgb(pixels: Vec<u8>, w: u32, h: u32, nw: u32, nh: u32, kind: FilterKind) -> (r:
    Vec<u8>)
    requires
        w >= 1,
        h >= 1,
        nw >= 1,
        nh >= 1,
        pixels.len() == 3 * w * h,
        3 * nw * nh <= usize::MAX,
        4 * w * nh <= usize::MAX,
    ensures
        r.len() == 3 * nw * nh,
        r@ == rgb_resized(pixels@, w as int, h as int, nw as int, nh as int, filter_id(kind)),
{
    let f = match kind {
        FilterKind::Nearest => image::imageops::FilterType::Nearest,
        FilterKind::Triangle => image::imageops::FilterType::Triangle,
        FilterKind::CatmullRom => image::imageops::FilterType::CatmullRom,
        FilterKind::Gaussian => image::imageops::FilterType::Gaussian,
        FilterKind::Lanczos3 => image::imageops::FilterType::Lanczos3,
    };
    let img = image::RgbImage::from_raw(w, h, pixels).unwrap();
    image::imageops::resize(&img, nw, nh, f).into_raw()
}

/// Relies on image::imageops::resize over a single-channel 16-bit image
/// (rebuilt by ImageBuffer::from_raw, handed back by into_raw): the result
/// has exactly the requested dimensions, one sample per pixel, determined by
/// the arguments alone (the kernels' float rounding taken as fixed). The
/// vertical pass allocates a four-channel float intermediate of source width
/// by target height, whose subpixel count must fit a usize.
#[verifier::external_body]
pub(crate) fn resize_luma16(
    samples: Vec<u16>,
    w: u32,
    h: u32,
    nw: u32,
    nh: u32,
    kind: FilterKind,
) -> (r: Vec<u16>)
    requires
        w >= 1,
        h >= 1,
        nw >= 1,
        nh >= 1,
        samples.len() == w * h,
        nw * nh <= usize::MAX,
        4 * w * nh <= usize::MAX,
    ensures
        r.len() == nw * nh,
        r@ == luma16_resized(samples@, w as int, h as int, nw as int, nh as int, filter_id(kind)),
{
    let f = match kind {
        FilterKind::Nearest => image::imageops::FilterType::Nearest,
        FilterKind::Triangle => image::imageops::FilterType::Triangle,
        FilterKind::CatmullRom => image::imageops::FilterType::CatmullRom,
        FilterKind::Gaussian => image::imageops::FilterType::Gaussian,
        FilterKind::Lanczos3 => image::imageops::FilterType::Lanczos3,
    };
    let img = image::ImageBuffer::<image::Luma<u16>, Vec<u16>>::from_raw(w, h, samples).unwrap();
    image::imageops::resize(&img, nw, nh, f).into_raw()
}

/// Relies on image::imageops::resize over a single-channel 8-bit image
/// (rebuilt by ImageBuffer::from_raw, handed back by into_raw): the result
/// has exactly the requested dimensions, one sample per pixel, determined by
/// the arguments alone (the kernels' float rounding taken as fixed). The
/// vertical pass allocates a four-channel float intermediate of source width
/// by target height, whose subpixel count must fit a usize.
#[verifier::external_body]
pub(crate) fn resize_luma8(
    samples: Vec<u8>,
    w: u32,
    h: u32,
    nw: u32,
    nh: u32,
    kind: FilterKind,
) -> (r: Vec<u8>)
    requires
        w >= 1,
        h >= 1,
        nw >= 1,
        nh >= 1,
        samples.len() == w * h,
        nw * nh <= usize::MAX,
        4 * w * nh <= usize::MAX,
    ensures
        r.len() == nw * nh,
        r@ == luma8_resized(samples@, w as int, h as int, nw as int, nh as int, filter_id(kind)),
{
    let f = match kind {
        FilterKind::Nearest => image::imageops::FilterType::Nearest,
        FilterKind::Triangle => image::imageops::FilterType::Triangle,
        FilterKind::CatmullRom => image::imageops::FilterType::CatmullRom,
        FilterKind::Gaussian => image::imageops::FilterType::Gaussian,
        FilterKind::Lanczos3 => image::imageops::FilterType::Lanczos3,
    };
    let img = image::GrayImage::from_raw(w, h, samples).unwrap();
    image::imageops::resize(&img, nw, nh, f).into_raw()
}

} // verus!
