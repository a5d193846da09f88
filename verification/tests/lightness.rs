use wluma::frame::compute_perceived_lightness_percent;
use wluma::frame::lightness::percent_of_sums;

fn uniform(value: u8, channels: usize, pixels: usize) -> Vec<u8> {
    vec![value; channels * pixels]
}

fn rgb(pixels: &[(u8, u8, u8)]) -> Vec<u8> {
    let mut bytes = Vec::new();
    for (r, g, b) in pixels {
        bytes.push(*r);
        bytes.push(*g);
        bytes.push(*b);
    }
    bytes
}

fn rgba(pixels: &[(u8, u8, u8)], alpha: u8) -> Vec<u8> {
    let mut bytes = Vec::new();
    for (r, g, b) in pixels {
        bytes.push(*r);
        bytes.push(*g);
        bytes.push(*b);
        bytes.push(alpha);
    }
    bytes
}

#[test]
fn black_is_zero_percent() {
    for pixels in [1usize, 2, 7, 120, 500] {
        assert_eq!(compute_perceived_lightness_percent(&uniform(0, 3, pixels), false, pixels), 0);
        assert_eq!(compute_perceived_lightness_percent(&uniform(0, 4, pixels), true, pixels), 0);
    }
}

#[test]
fn white_is_hundred_percent() {
    for pixels in [1usize, 2, 7, 120, 500] {
        assert_eq!(
            compute_perceived_lightness_percent(&uniform(255, 3, pixels), false, pixels),
            100
        );
        assert_eq!(
            compute_perceived_lightness_percent(&uniform(255, 4, pixels), true, pixels),
            100
        );
    }
}

#[test]
fn middle_gray_is_fifty_percent() {
    for pixels in [1usize, 3, 64] {
        assert_eq!(
            compute_perceived_lightness_percent(&uniform(128, 3, pixels), false, pixels),
            50
        );
        assert_eq!(
            compute_perceived_lightness_percent(&uniform(128, 4, pixels), true, pixels),
            50
        );
    }
}

#[test]
fn uniform_gray_is_a_linear_scale() {
    for value in 0..=255u32 {
        let expected = ((200 * value + 255) / 510) as u8;
        let bytes = uniform(value as u8, 3, 5);
        assert_eq!(compute_perceived_lightness_percent(&bytes, false, 5), expected);
    }
}

#[test]
fn pure_channels_are_weighted() {
    assert_eq!(compute_perceived_lightness_percent(&[255, 0, 0], false, 1), 49);
    assert_eq!(compute_perceived_lightness_percent(&[0, 255, 0], false, 1), 83);
    assert_eq!(compute_perceived_lightness_percent(&[0, 0, 255], false, 1), 26);
    assert_eq!(compute_perceived_lightness_percent(&[255, 0, 0, 9], true, 1), 49);
    assert_eq!(compute_perceived_lightness_percent(&[0, 255, 0, 9], true, 1), 83);
    assert_eq!(compute_perceived_lightness_percent(&[0, 0, 255, 9], true, 1), 26);
}

#[test]
fn channels_are_averaged_over_the_pixels() {
    let two = [(10, 20, 30), (200, 100, 50)];
    assert_eq!(compute_perceived_lightness_percent(&rgb(&two), false, 2), 28);
    let three = [(12, 200, 77), (90, 14, 250), (33, 33, 190)];
    assert_eq!(compute_perceived_lightness_percent(&rgb(&three), false, 3), 33);
    let contrast = [(255, 255, 255), (0, 0, 0)];
    assert_eq!(compute_perceived_lightness_percent(&rgb(&contrast), false, 2), 50);
}

#[test]
fn dark_pixels_round_to_the_nearest_percent() {
    assert_eq!(compute_perceived_lightness_percent(&[1, 1, 1], false, 1), 0);
    assert_eq!(compute_perceived_lightness_percent(&[2, 2, 2], false, 1), 1);
    assert_eq!(compute_perceived_lightness_percent(&[3, 2, 1], false, 1), 1);
    assert_eq!(compute_perceived_lightness_percent(&[64, 64, 64], false, 1), 25);
    assert_eq!(compute_perceived_lightness_percent(&[127, 127, 127], false, 1), 50);
}

#[test]
fn alpha_does_not_count() {
    let pixels = [(12, 200, 77), (90, 14, 250), (33, 33, 190), (0, 0, 0), (255, 1, 128)];
    let without = compute_perceived_lightness_percent(&rgb(&pixels), false, pixels.len());
    for alpha in [0u8, 1, 128, 255] {
        let with = compute_perceived_lightness_percent(&rgba(&pixels, alpha), true, pixels.len());
        assert_eq!(with, without);
    }
}

#[test]
fn only_the_counted_pixels_are_read() {
    let mut bytes = rgba(&[(255, 255, 255), (255, 255, 255)], 255);
    bytes.extend_from_slice(&[0u8; 400]);
    assert_eq!(compute_perceived_lightness_percent(&bytes, true, 2), 100);
    assert_eq!(compute_perceived_lightness_percent(&bytes, true, 4), 50);
    let mut bytes = rgb(&[(0, 0, 0)]);
    bytes.extend_from_slice(&[255u8; 30]);
    assert_eq!(compute_perceived_lightness_percent(&bytes, false, 1), 0);
}

#[test]
fn pixels_are_cut_at_the_channel_count() {
    // Four red pixels of three bytes; read as pixels of four bytes, one
    // red, one blue and one green pixel.
    let bytes = [255u8, 0, 0, 255, 0, 0, 255, 0, 0, 255, 0, 0];
    assert_eq!(compute_perceived_lightness_percent(&bytes, false, 4), 49);
    assert_eq!(compute_perceived_lightness_percent(&bytes, true, 3), 33);
}

#[test]
fn sums_of_many_pixels_are_rounded_exactly() {
    assert_eq!(percent_of_sums(0, 0, 0, 1), 0);
    assert_eq!(percent_of_sums(255, 255, 255, 1), 100);
    let pixels = usize::MAX;
    let full = 255u128 * pixels as u128;
    assert_eq!(percent_of_sums(full, full, full, pixels), 100);
    assert_eq!(percent_of_sums(full, 0, 0, pixels), 49);
    assert_eq!(percent_of_sums(0, full, 0, pixels), 83);
    assert_eq!(percent_of_sums(0, 0, full, pixels), 26);
    let gray = 128u128 * pixels as u128;
    assert_eq!(percent_of_sums(gray, gray, gray, pixels), 50);
}

#[test]
fn a_lightness_of_a_half_rounds_upwards() {
    // 40 pixels whose channels sum up to 51 have a mean of 1.275, which is
    // a lightness of exactly half a percent.
    assert_eq!(percent_of_sums(51, 51, 51, 40), 1);
    assert_eq!(percent_of_sums(50, 51, 51, 40), 0);
    assert_eq!(percent_of_sums(459, 459, 459, 40), 5);
    assert_eq!(percent_of_sums(458, 459, 459, 40), 4);
}
