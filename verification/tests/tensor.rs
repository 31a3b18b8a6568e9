use depthmap::tensor::{normalized_denominator, normalized_numerator, to_tensor, TensorLayout};

fn uniform_rgb(w: usize, h: usize, v: u8) -> Vec<u8> {
    vec![v; 3 * w * h]
}

#[test]
fn uniform_image_gives_one_numerator_per_channel() {
    // Every channel byte is 100, so every tensor element of a channel equals
    // that channel's numerator, at every spatial position.
    let pixels = uniform_rgb(4, 3, 100);
    let t = to_tensor(&pixels, 4, 3, 3, TensorLayout::ChannelMajor);
    assert_eq!(t.len(), 3 * 4 * 3);
    let plane = 4 * 3;
    for c in 0..3 {
        let expected = normalized_numerator(c, 100);
        for i in 0..plane {
            assert_eq!(t[c * plane + i], expected);
        }
    }
    // Channel 0: 1000*100 - 255*485 = -23675.
    assert_eq!(t[0], -23675);
}

#[test]
fn uniform_image_channel_last_layout() {
    let pixels = uniform_rgb(2, 2, 100);
    let t = to_tensor(&pixels, 2, 2, 3, TensorLayout::ChannelLast);
    assert_eq!(t.len(), 12);
    for p in 0..4 {
        for c in 0..3 {
            assert_eq!(t[p * 3 + c], normalized_numerator(c, 100));
        }
    }
}

#[test]
fn channel_major_layout_places_pixel_bytes() {
    // 2x1 image: pixel (0,0) = (10, 20, 30), pixel (1,0) = (40, 50, 60).
    let pixels = vec![10, 20, 30, 40, 50, 60];
    let t = to_tensor(&pixels, 2, 1, 3, TensorLayout::ChannelMajor);
    assert_eq!(t.len(), 6);
    // Layout (c, y, x): index c * (h*w) + y*w + x with h*w = 2.
    assert_eq!(t[0], normalized_numerator(0, 10));
    assert_eq!(t[1], normalized_numerator(0, 40));
    assert_eq!(t[2], normalized_numerator(1, 20));
    assert_eq!(t[3], normalized_numerator(1, 50));
    assert_eq!(t[4], normalized_numerator(2, 30));
    assert_eq!(t[5], normalized_numerator(2, 60));
}

#[test]
fn alpha_channel_is_discarded() {
    // RGBA pixels: the fourth byte never reaches the tensor.
    let pixels = vec![10, 20, 30, 255, 40, 50, 60, 0];
    let t = to_tensor(&pixels, 2, 1, 4, TensorLayout::ChannelMajor);
    assert_eq!(t.len(), 6);
    assert_eq!(t[0], normalized_numerator(0, 10));
    assert_eq!(t[1], normalized_numerator(0, 40));
    assert_eq!(t[5], normalized_numerator(2, 60));
}

#[test]
fn numerator_and_denominator_match_float_normalization() {
    // The rational numerator/denominator equals (v/255 - mean)/std.
    let means = [0.485f64, 0.456, 0.406];
    let stds = [0.229f64, 0.224, 0.225];
    for c in 0..3 {
        for v in [0u8, 1, 100, 128, 254, 255] {
            let exact = f64::from(normalized_numerator(c, v)) / f64::from(
                normalized_denominator(c),
            );
            let float = (f64::from(v) / 255.0 - means[c]) / stds[c];
            assert!((exact - float).abs() < 1e-12);
        }
    }
}

#[test]
fn denominators_are_255_times_std() {
    assert_eq!(normalized_denominator(0), 58395);
    assert_eq!(normalized_denominator(1), 57120);
    assert_eq!(normalized_denominator(2), 57375);
}
