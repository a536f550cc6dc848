use image_convolution::rounding::quantize_sum;

#[test]
fn quantize_rounds_to_the_nearest_integer() {
    assert_eq!(quantize_sum(255, 9), 28);
    assert_eq!(quantize_sum(1, 3), 0);
    assert_eq!(quantize_sum(2, 3), 1);
    assert_eq!(quantize_sum(100, 3), 33);
    assert_eq!(quantize_sum(101, 3), 34);
    assert_eq!(quantize_sum(254, 1), 254);
}

#[test]
fn quantize_rounds_halves_away_from_zero() {
    assert_eq!(quantize_sum(1, 2), 1);
    assert_eq!(quantize_sum(5, 2), 3);
    assert_eq!(quantize_sum(253, 2), 127);
    assert_eq!(quantize_sum(509, 2), 255);
    assert_eq!(quantize_sum(-1, 2), 0);
}

#[test]
fn quantize_agrees_with_floating_point_rounding() {
    for divisor in [1u64, 2, 3, 4, 9, 25, 49] {
        for sum in -600i128..=3000 {
            let ratio = sum as f64 / divisor as f64;
            let expected = ratio.round().clamp(0.0, 255.0) as u8;
            assert_eq!(quantize_sum(sum, divisor), expected, "{} / {}", sum, divisor);
        }
    }
}

#[test]
fn quantize_saturates_at_both_ends() {
    assert_eq!(quantize_sum(0, 1), 0);
    assert_eq!(quantize_sum(-1, 1), 0);
    assert_eq!(quantize_sum(-1_000_000, 7), 0);
    assert_eq!(quantize_sum(i128::MIN, 1), 0);
    assert_eq!(quantize_sum(255, 1), 255);
    assert_eq!(quantize_sum(256, 1), 255);
    assert_eq!(quantize_sum(2550, 1), 255);
    assert_eq!(quantize_sum(i128::MAX, 1), 255);
    assert_eq!(quantize_sum(i128::MAX, u64::MAX), 255);
    assert_eq!(quantize_sum(255 * (u64::MAX as i128), u64::MAX), 255);
    assert_eq!(quantize_sum(254 * (u64::MAX as i128), u64::MAX), 254);
}
