use vstd::prelude::*;
use vstd::arithmetic::div_mod::lemma_fundamental_div_mod_converse;

verus! {

/// Where the colour channel axis sits in the flattened 4-D tensor: second
/// axis (batch, channel, height, width) or last axis (batch, height, width,
/// channel). Which one applies is a property of the model profile.
#[derive(Clone, Copy, PartialEq, Eq, Structural, Debug)]
pub enum TensorLayout {
    ChannelMajor,
    ChannelLast,
}

/// Per-channel normalization mean, in thousandths (channel 0 = red,
/// 1 = green, 2 = blue): the standard natural-image statistics
/// 0.485 / 0.456 / 0.406.
pub open spec fn mean_milli(c: int) -> int {
    if c == 0 {
        485
    } else if c == 1 {
        456
    } else {
        406
    }
}

/// Per-channel normalization standard deviation, in thousandths:
/// 0.229 / 0.224 / 0.225.
pub open spec fn std_milli(c: int) -> int {
    if c == 0 {
        229
    } else if c == 1 {
        224
    } else {
        225
    }
}

/// Numerator of the exact normalized value of byte `v` on channel `c`.
/// The normalized value (v/255 - mean_c) / std_c equals, as an exact
/// rational, `norm_numer(c, v) / norm_denom(c)`.
pub open spec fn norm_numer(c: int, v: int) -> int {
    1000 * v - 255 * mean_milli(c)
}

/// Denominator of the exact normalized value on channel `c`: 255 * std_c
/// scaled to thousandths.
pub open spec fn norm_denom(c: int) -> int {
    255 * std_milli(c)
}

/// Flat position of tensor element (batch 0, channel `c`, row `y`, column
/// `x`) for a `w` by `h` single-image tensor in the given layout.
pub open spec fn tensor_index(layout: TensorLayout, c: int, y: int, x: int, w: int, h: int) -> int {
    match layout {
        TensorLayout::ChannelMajor => c * (h * w) + y * w + x,
        TensorLayout::ChannelLast => (y * w + x) * 3 + c,
    }
}

/// Element (c, y, x) of `t` holds the normalized numerator of its pixel's
/// channel byte from the interleaved buffer `pixels`.
pub open spec fn elem_ok(
    pixels: Seq<u8>,
    t: Seq<i32>,
    layout: TensorLayout,
    w: int,
    h: int,
    channels: int,
    c: int,
    y: int,
    x: int,
) -> bool {
    t[tensor_index(layout, c, y, x, w, h)] == norm_numer(
        c,
        pixels[(y * w + x) * channels + c] as int,
    )
}

/// True when `t` is the forward transcoding of the interleaved pixel buffer
/// `pixels` (`channels` bytes per pixel, row-major): every tensor element
/// holds the normalized numerator of its pixel's channel byte.
pub open spec fn is_transcoding(
    pixels: Seq<u8>,
    t: Seq<i32>,
    layout: TensorLayout,
    w: int,
    h: int,
    channels: int,
) -> bool {
    forall|c: int, y: int, x: int|
        0 <= c < 3 && 0 <= y < h && 0 <= x < w ==> #[trigger] elem_ok(
            pixels,
            t,
            layout,
            w,
            h,
            channels,
            c,
            y,
            x,
        )
}

/// Exact numerator of the normalized value of byte `v` on channel `c`.
pub fn normalized_numerator(c: usize, v: u8) -> (r: i32)
    requires
        c < 3,
    ensures
        r == norm_numer(c as int, v as int),
{
    let mean: i32 = if c == 0 {
        485
    } else if c == 1 {
        456
    } else {
        406
    };
    1000 * (v as i32) - 255 * mean
}

/// Denominator shared by every normalized value of channel `c`; the real
/// tensor element is `normalized_numerator(c, v) / normalized_denominator(c)`.
pub fn normalized_denominator(c: usize) -> (r: u32)
    requires
        c < 3,
    ensures
        r == norm_denom(c as int),
{
    let sd: u32 = if c == 0 {
        229
    } else if c == 1 {
        224
    } else {
        225
    };
    255 * sd
}

/// The interleaved byte of pixel (x, y), channel c, lies inside the buffer.
proof fn lemma_pixel_base_in_bounds(w: int, h: int, channels: int, y: int, x: int)
    requires
        w >= 1,
        h >= 1,
        channels >= 3,
        0 <= y < h,
        0 <= x < w,
    ensures
        0 <= (y * w + x) * channels,
        (y * w + x) * channels + channels <= channels * w * h,
        y * w + x < h * w,
{
    assert(y * w + x < h * w) by (nonlinear_arith)
        requires
            w >= 1 && h >= 1 && 0 <= y < h && 0 <= x < w,
    ;
    assert((y * w + x) * channels + channels <= channels * w * h) by (nonlinear_arith)
        requires
            channels >= 3 && y * w + x < h * w && 0 <= y * w + x,
    ;
    assert(0 <= (y * w + x) * channels) by (nonlinear_arith)
        requires
            0 <= y * w + x && channels >= 3,
    ;
}

/// Two distinct channel-major coordinates have distinct flat positions:
/// the flat position determines (c, y, x).
proof fn lemma_cm_index_unique(w: int, h: int, c1: int, y1: int, x1: int, c2: int, y2: int, x2: int)
    requires
        w >= 1,
        h >= 1,
        0 <= c1 < 3,
        0 <= y1 < h,
        0 <= x1 < w,
        0 <= c2 < 3,
        0 <= y2 < h,
        0 <= x2 < w,
        c1 * (h * w) + y1 * w + x1 == c2 * (h * w) + y2 * w + x2,
    ensures
        c1 == c2 && y1 == y2 && x1 == x2,
{
    let i = c1 * (h * w) + y1 * w + x1;
    assert(0 <= y1 * w + x1 < h * w && 0 <= y2 * w + x2 < h * w) by (nonlinear_arith)
        requires
            w >= 1 && h >= 1 && 0 <= y1 < h && 0 <= x1 < w && 0 <= y2 < h && 0 <= x2 < w,
    ;
    lemma_fundamental_div_mod_converse(i, h * w, c1, y1 * w + x1);
    lemma_fundamental_div_mod_converse(i, h * w, c2, y2 * w + x2);
    assert(c1 == c2 && y1 * w + x1 == y2 * w + x2);
    lemma_fundamental_div_mod_converse(y1 * w + x1, w, y1, x1);
    lemma_fundamental_div_mod_converse(y1 * w + x1, w, y2, x2);
}

/// Two distinct channel-last coordinates have distinct flat positions.
proof fn lemma_cl_index_unique(w: int, h: int, c1: int, y1: int, x1: int, c2: int, y2: int, x2: int)
    requires
        w >= 1,
        h >= 1,
        0 <= c1 < 3,
        0 <= y1 < h,
        0 <= x1 < w,
        0 <= c2 < 3,
        0 <= y2 < h,
        0 <= x2 < w,
        (y1 * w + x1) * 3 + c1 == (y2 * w + x2) * 3 + c2,
    ensures
        c1 == c2 && y1 == y2 && x1 == x2,
{
    let i = (y1 * w + x1) * 3 + c1;
    lemma_fundamental_div_mod_converse(i, 3, y1 * w + x1, c1);
    lemma_fundamental_div_mod_converse(i, 3, y2 * w + x2, c2);
    assert(c1 == c2 && y1 * w + x1 == y2 * w + x2);
    lemma_fundamental_div_mod_converse(y1 * w + x1, w, y1, x1);
    lemma_fundamental_div_mod_converse(y1 * w + x1, w, y2, x2);
}

/// Every element of `t` written so far (a prefix of the layout's order) is
/// correct: coordinates whose flat position lies below `t.len()`.
pub open spec fn prefix_ok(
    pixels: Seq<u8>,
    t: Seq<i32>,
    layout: TensorLayout,
    w: int,
    h: int,
    channels: int,
) -> bool {
    forall|c: int, y: int, x: int|
        0 <= c < 3 && 0 <= y < h && 0 <= x < w && tensor_index(layout, c, y, x, w, h) < t.len()
            ==> #[trigger] elem_ok(pixels, t, layout, w, h, channels, c, y, x)
}

/// Pushing the correct element at the next channel-major position keeps the
/// written prefix correct.
proof fn lemma_cm_push(
    pixels: Seq<u8>,
    t: Seq<i32>,
    e: i32,
    w: int,
    h: int,
    channels: int,
    c: int,
    y: int,
    x: int,
)
    requires
        w >= 1,
        h >= 1,
        channels >= 3,
        0 <= c < 3,
        0 <= y < h,
        0 <= x < w,
        t.len() == c * (h * w) + y * w + x,
        prefix_ok(pixels, t, TensorLayout::ChannelMajor, w, h, channels),
        e == norm_numer(c, pixels[(y * w + x) * channels + c] as int),
    ensures
        prefix_ok(pixels, t.push(e), TensorLayout::ChannelMajor, w, h, channels),
{
    let t2 = t.push(e);
    assert forall|cc: int, yy: int, xx: int|
        0 <= cc < 3 && 0 <= yy < h && 0 <= xx < w && tensor_index(
            TensorLayout::ChannelMajor,
            cc,
            yy,
            xx,
            w,
            h,
        ) < t2.len() implies #[trigger] elem_ok(
        pixels,
        t2,
        TensorLayout::ChannelMajor,
        w,
        h,
        channels,
        cc,
        yy,
        xx,
    ) by {
        let i = tensor_index(TensorLayout::ChannelMajor, cc, yy, xx, w, h);
        assert(0 <= yy * w + xx) by (nonlinear_arith)
            requires
                0 <= yy && 0 <= xx && w >= 1,
        ;
        assert(0 <= cc * (h * w)) by (nonlinear_arith)
            requires
                0 <= cc && h >= 1 && w >= 1,
        ;
        if i < t.len() {
            assert(elem_ok(pixels, t, TensorLayout::ChannelMajor, w, h, channels, cc, yy, xx));
            assert(t2[i] == t[i]);
        } else {
            lemma_cm_index_unique(w, h, cc, yy, xx, c, y, x);
            assert(t2[i] == e);
        }
    }
}

/// Pushing the correct element at the next channel-last position keeps the
/// written prefix correct.
proof fn lemma_cl_push(
    pixels: Seq<u8>,
    t: Seq<i32>,
    e: i32,
    w: int,
    h: int,
    channels: int,
    c: int,
    y: int,
    x: int,
)
    requires
        w >= 1,
        h >= 1,
        channels >= 3,
        0 <= c < 3,
        0 <= y < h,
        0 <= x < w,
        t.len() == (y * w + x) * 3 + c,
        prefix_ok(pixels, t, TensorLayout::ChannelLast, w, h, channels),
        e == norm_numer(c, pixels[(y * w + x) * channels + c] as int),
    ensures
        prefix_ok(pixels, t.push(e), TensorLayout::ChannelLast, w, h, channels),
{
    let t2 = t.push(e);
    assert forall|cc: int, yy: int, xx: int|
        0 <= cc < 3 && 0 <= yy < h && 0 <= xx < w && tensor_index(
            TensorLayout::ChannelLast,
            cc,
            yy,
            xx,
            w,
            h,
        ) < t2.len() implies #[trigger] elem_ok(
        pixels,
        t2,
        TensorLayout::ChannelLast,
        w,
        h,
        channels,
        cc,
        yy,
        xx,
    ) by {
        let i = tensor_index(TensorLayout::ChannelLast, cc, yy, xx, w, h);
        assert(0 <= yy * w + xx) by (nonlinear_arith)
            requires
                0 <= yy && 0 <= xx && w >= 1,
        ;
        assert(0 <= (yy * w + xx) * 3) by (nonlinear_arith)
            requires
                0 <= yy * w + xx,
        ;
        if i < t.len() {
            assert(elem_ok(pixels, t, TensorLayout::ChannelLast, w, h, channels, cc, yy, xx));
            assert(t2[i] == t[i]);
        } else {
            lemma_cl_index_unique(w, h, cc, yy, xx, c, y, x);
            assert(t2[i] == e);
        }
    }
}

/// Build the normalized input tensor from an interleaved RGB or RGBA pixel
/// buffer (`channels` = 3 or 4; a fourth, alpha, byte per pixel is
/// discarded). Every element of the result is written exactly once, at the
/// position the layout dictates, and holds the exact normalized numerator of
/// the corresponding channel byte.
pub fn to_tensor(
    pixels: &Vec<u8>,
    width: u32,
    height: u32,
    channels: usize,
    layout: TensorLayout,
) -> (t: Vec<i32>)
    requires
        channels == 3 || channels == 4,
        width >= 1,
        height >= 1,
        pixels.len() == channels * width * height,
    ensures
        t.len() == 3 * width * height,
        is_transcoding(pixels@, t@, layout, width as int, height as int, channels as int),
{
    let w = width as usize;
    let h = height as usize;
    let ghost wi = w as int;
    let ghost hi = h as int;
    let ghost chi = channels as int;
    proof {
        assert(chi * wi * hi == chi * (wi * hi) && 3 * (hi * wi) <= chi * (wi * hi) && 3 * wi * hi
            == 3 * (hi * wi)) by (nonlinear_arith)
            requires
                chi == 3 || chi == 4,
                wi >= 1,
                hi >= 1,
        ;
    }
    let mut t: Vec<i32> = Vec::new();
    match layout {
        TensorLayout::ChannelMajor => {
            let mut c: usize = 0;
            while c < 3
                invariant
                    c <= 3,
                    w == width && h == height && wi == w && hi == h && chi == channels,
                    width >= 1 && height >= 1,
                    channels == 3 || channels == 4,
                    pixels.len() == channels * width * height,
                    pixels.len() == chi * (wi * hi),
                    3 * (hi * wi) <= pixels.len(),
                    t.len() == c * (hi * wi),
                    prefix_ok(pixels@, t@, TensorLayout::ChannelMajor, wi, hi, chi),
                decreases 3 - c,
            {
                let mut y: usize = 0;
                proof {
                    assert(c * (hi * wi) + 0 * wi + 0 == c * (hi * wi)) by (nonlinear_arith);
                }
                while y < h
                    invariant
                        c < 3,
                        y <= h,
                        w == width && h == height && wi == w && hi == h && chi == channels,
                        width >= 1 && height >= 1,
                        channels == 3 || channels == 4,
                        pixels.len() == channels * width * height,
                        pixels.len() == chi * (wi * hi),
                        3 * (hi * wi) <= pixels.len(),
                        t.len() == c * (hi * wi) + y * wi,
                        prefix_ok(pixels@, t@, TensorLayout::ChannelMajor, wi, hi, chi),
                    decreases h - y,
                {
                    let mut x: usize = 0;
                    while x < w
                        invariant
                            c < 3,
                            y < h,
                            x <= w,
                            w == width && h == height && wi == w && hi == h && chi == channels,
                            width >= 1 && height >= 1,
                            channels == 3 || channels == 4,
                            pixels.len() == channels * width * height,
                            pixels.len() == chi * (wi * hi),
                            3 * (hi * wi) <= pixels.len(),
                            t.len() == c * (hi * wi) + y * wi + x,
                            prefix_ok(pixels@, t@, TensorLayout::ChannelMajor, wi, hi, chi),
                        decreases w - x,
                    {
                        proof {
                            lemma_pixel_base_in_bounds(wi, hi, chi, y as int, x as int);
                            assert((y * wi + x) * chi + chi <= chi * (wi * hi)) by (nonlinear_arith)
                                requires
                                    y as int * wi + x < hi * wi,
                                    0 <= y as int * wi + x,
                                    chi >= 3,
                            ;
                            assert(c * (hi * wi) + y * wi + x < 3 * (hi * wi)) by (nonlinear_arith)
                                requires
                                    0 <= c < 3 && 0 <= y < hi && 0 <= x < wi && wi >= 1 && hi >= 1,
                            ;
                        }
                        let base: usize = (y * w + x) * channels;
                        let e = normalized_numerator(c, pixels[base + c]);
                        proof {
                            lemma_cm_push(
                                pixels@,
                                t@,
                                e,
                                wi,
                                hi,
                                chi,
                                c as int,
                                y as int,
                                x as int,
                            );
                        }
                        t.push(e);
                        x += 1;
                    }
                    y += 1;
                    proof {
                        assert(c * (hi * wi) + (y - 1) * wi + wi == c * (hi * wi) + y * wi)
                            by (nonlinear_arith);
                    }
                }
                c += 1;
                proof {
                    assert((c - 1) * (hi * wi) + hi * wi == c * (hi * wi)) by (nonlinear_arith);
                }
            }
            proof {
                assert(t.len() == 3 * (hi * wi));
                lemma_full_prefix_is_transcoding(
                    pixels@,
                    t@,
                    TensorLayout::ChannelMajor,
                    wi,
                    hi,
                    chi,
                );
            }
            t
        },
        TensorLayout::ChannelLast => {
            let mut y: usize = 0;
            while y < h
                invariant
                    y <= h,
                    w == width && h == height && wi == w && hi == h && chi == channels,
                    width >= 1 && height >= 1,
                    channels == 3 || channels == 4,
                    pixels.len() == channels * width * height,
                    pixels.len() == chi * (wi * hi),
                    3 * (hi * wi) <= pixels.len(),
                    t.len() == (y * wi) * 3,
                    prefix_ok(pixels@, t@, TensorLayout::ChannelLast, wi, hi, chi),
                decreases h - y,
            {
                let mut x: usize = 0;
                proof {
                    assert((y * wi) * 3 == (y * wi + 0) * 3) by (nonlinear_arith);
                }
                while x < w
                    invariant
                        y < h,
                        x <= w,
                        w == width && h == height && wi == w && hi == h && chi == channels,
                        width >= 1 && height >= 1,
                        channels == 3 || channels == 4,
                        pixels.len() == channels * width * height,
                        pixels.len() == chi * (wi * hi),
                        3 * (hi * wi) <= pixels.len(),
                        t.len() == (y * wi + x) * 3,
                        prefix_ok(pixels@, t@, TensorLayout::ChannelLast, wi, hi, chi),
                    decreases w - x,
                {
                    proof {
                        lemma_pixel_base_in_bounds(wi, hi, chi, y as int, x as int);
                        assert((y * wi + x) * chi + chi <= chi * (wi * hi) && (y * wi + x) * 3 + 3
                            <= 3 * (hi * wi) && (y * wi + x + 1) * 3 == (y * wi + x) * 3 + 3)
                            by (nonlinear_arith)
                            requires
                                y as int * wi + x < hi * wi,
                                0 <= y as int * wi + x,
                                chi >= 3,
                        ;
                    }
                    let base: usize = (y * w + x) * channels;
                    let e0 = normalized_numerator(0, pixels[base]);
                    let e1 = normalized_numerator(1, pixels[base + 1]);
                    let e2 = normalized_numerator(2, pixels[base + 2]);
                    proof {
                        lemma_cl_push(pixels@, t@, e0, wi, hi, chi, 0, y as int, x as int);
                        lemma_cl_push(
                            pixels@,
                            t@.push(e0),
                            e1,
                            wi,
                            hi,
                            chi,
                            1,
                            y as int,
                            x as int,
                        );
                    }
                    t.push(e0);
                    t.push(e1);
                    proof {
                        lemma_cl_push(pixels@, t@, e2, wi, hi, chi, 2, y as int, x as int);
                    }
                    t.push(e2);
                    x += 1;
                }
                y += 1;
                proof {
                    assert(((y - 1) * wi + wi) * 3 == (y * wi) * 3) by (nonlinear_arith);
                }
            }
            proof {
                assert(t.len() == (hi * wi) * 3);
                assert((hi * wi) * 3 == 3 * (hi * wi)) by (nonlinear_arith);
                lemma_full_prefix_is_transcoding(
                    pixels@,
                    t@,
                    TensorLayout::ChannelLast,
                    wi,
                    hi,
                    chi,
                );
            }
            t
        },
    }
}

/// A fully written tensor — one whose length covers every flat position —
/// with a correct prefix is a correct transcoding.
proof fn lemma_full_prefix_is_transcoding(
    pixels: Seq<u8>,
    t: Seq<i32>,
    layout: TensorLayout,
    w: int,
    h: int,
    channels: int,
)
    requires
        w >= 1,
        h >= 1,
        channels >= 3,
        t.len() == 3 * (h * w),
        prefix_ok(pixels, t, layout, w, h, channels),
    ensures
        is_transcoding(pixels, t, layout, w, h, channels),
{
    assert forall|c: int, y: int, x: int|
        0 <= c < 3 && 0 <= y < h && 0 <= x < w implies #[trigger] elem_ok(
        pixels,
        t,
        layout,
        w,
        h,
        channels,
        c,
        y,
        x,
    ) by {
        lemma_pixel_base_in_bounds(w, h, channels, y, x);
        assert(c * (h * w) + y * w + x < 3 * (h * w) && (y * w + x) * 3 + c < 3 * (h * w))
            by (nonlinear_arith)
            requires
                0 <= c < 3 && 0 <= y < h && 0 <= x < w && w >= 1 && h >= 1,
        ;
    }
}

/// Law: for a uniform image — every channel byte of every pixel equal to the
/// same value `v` — every tensor element of channel `c` equals the one
/// normalized numerator `norm_numer(c, v)`, at every spatial position; as an
/// exact rational each element is (v/255 - mean_c) / std_c.
pub proof fn lemma_uniform_image_tensor(
    pixels: Seq<u8>,
    t: Seq<i32>,
    layout: TensorLayout,
    w: int,
    h: int,
    channels: int,
    v: u8,
)
    requires
        channels == 3 || channels == 4,
        w >= 1,
        h >= 1,
        pixels.len() == channels * w * h,
        is_transcoding(pixels, t, layout, w, h, channels),
        forall|i: int| 0 <= i < pixels.len() ==> pixels[i] == v,
    ensures
        forall|c: int, y: int, x: int|
            0 <= c < 3 && 0 <= y < h && 0 <= x < w ==> t[tensor_index(layout, c, y, x, w, h)]
                == norm_numer(c, v as int),
{
    assert forall|c: int, y: int, x: int|
        0 <= c < 3 && 0 <= y < h && 0 <= x < w implies t[tensor_index(layout, c, y, x, w, h)]
        == norm_numer(c, v as int) by {
        lemma_pixel_base_in_bounds(w, h, channels, y, x);
        assert(elem_ok(pixels, t, layout, w, h, channels, c, y, x));
        assert((y * w + x) * channels + c < channels * w * h) by (nonlinear_arith)
            requires
                (y * w + x) * channels + channels <= channels * w * h && 0 <= c < 3 && channels
                    >= 3,
        ;
        assert(pixels[(y * w + x) * channels + c] == v);
    }
}

} // verus!
