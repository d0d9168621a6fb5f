use fractal_zoom::pixel::{
    cell_iterations, cell_magnitude, clamp_magnitude, encode_cell, pack_cell, CELL_MAX, DEFAULT_MAX_ITER,
    MAGNITUDE_BIAS, MAGNITUDE_SCALE,
};

#[test]
fn cell_layout() {
    assert_eq!(pack_cell(0, 0), 0);
    assert_eq!(pack_cell(320, 0), 320);
    assert_eq!(pack_cell(0, 1), 0x0001_0000);
    assert_eq!(pack_cell(0x1234, 0xabcd), 0xabcd_1234);
    assert_eq!(pack_cell(65535, 65535), u32::MAX);
}

#[test]
fn cell_round_trip() {
    for (iterations, magnitude) in [(0u16, 0u16), (1, 2), (320, 32385), (65535, 0), (0, 65535), (65535, 65535)] {
        let cell = pack_cell(iterations, magnitude);
        assert_eq!(cell_iterations(cell), iterations);
        assert_eq!(cell_magnitude(cell), magnitude);
    }
}

#[test]
fn magnitude_is_clamped_to_sixteen_bits() {
    assert_eq!(clamp_magnitude(-1), 0);
    assert_eq!(clamp_magnitude(i64::MIN), 0);
    assert_eq!(clamp_magnitude(0), 0);
    assert_eq!(clamp_magnitude(32385), 32385);
    assert_eq!(clamp_magnitude(65535), 65535);
    assert_eq!(clamp_magnitude(65536), 65535);
    assert_eq!(clamp_magnitude(i64::MAX), 65535);
}

#[test]
fn magnitude_constants() {
    assert_eq!(MAGNITUDE_SCALE, 256);
    assert_eq!(MAGNITUDE_BIAS, 127 * 255);
    assert_eq!(MAGNITUDE_BIAS, 32385);
    assert_eq!(CELL_MAX, 65535);
    assert_eq!(DEFAULT_MAX_ITER, 320);
}

#[test]
fn encoded_cell_of_a_point_inside_the_set() {
    // The origin never escapes: 320 iterations, squared magnitude 0.
    let biased = (0.0f64 * MAGNITUDE_SCALE as f64 + MAGNITUDE_BIAS as f64) as i64;
    let cell = encode_cell(320, biased);
    assert_eq!(cell, (32385 << 16) | 320);
    assert_eq!(cell_iterations(cell), 320);
}

#[test]
fn encoded_cell_of_a_point_far_outside() {
    // c = (2, 2) escapes at once with squared magnitude 8.
    let biased = (8.0f64 * MAGNITUDE_SCALE as f64 + MAGNITUDE_BIAS as f64) as i64;
    let cell = encode_cell(0, biased);
    assert_eq!(cell_iterations(cell), 0);
    assert_eq!(cell_magnitude(cell), 2048 + 32385);
    assert_eq!(encode_cell(3, 1_000_000), (65535 << 16) | 3);
    assert_eq!(encode_cell(3, -5), 3);
}
