//! The fixed-point helpers: truncating multiply-divide, integer square
//! root, dot products, and the lengthen operation.

use platformer_core::util::{
    abs_i64, dot_div_trunc, isqrt, mul_div_trunc, vector_lengthen, vector_perpendicular, Vec2,
    SCALE,
};

fn v(x: i64, y: i64) -> Vec2 {
    Vec2 { x, y }
}

#[test]
fn scale_is_subpixels_per_pixel() {
    assert_eq!(SCALE, 3_600);
}

#[test]
fn mul_div_truncates_toward_zero() {
    assert_eq!(mul_div_trunc(7, 3, 2), 10);
    assert_eq!(mul_div_trunc(-7, 3, 2), -10);
    assert_eq!(mul_div_trunc(7, -3, 2), -10);
    assert_eq!(mul_div_trunc(-7, -3, 2), 10);
    assert_eq!(mul_div_trunc(0, 123, 7), 0);
}

#[test]
fn isqrt_brackets_the_root() {
    assert_eq!(isqrt(0), 0);
    assert_eq!(isqrt(1), 1);
    assert_eq!(isqrt(24), 4);
    assert_eq!(isqrt(25), 5);
    assert_eq!(isqrt(26), 5);
    assert_eq!(isqrt(12_960_000), 3_600);
    assert_eq!(isqrt((1 << 40) - 1), (1 << 20) - 1);
}

#[test]
fn dot_div_scales_back_by_unit() {
    // (3, 4) against the unit x normal: the x component.
    assert_eq!(dot_div_trunc(v(360_000, 480_000), v(3_600, 0), 3_600), 360_000);
    // Against the 3-4-5 unit normal: the full length, 5 px/s.
    assert_eq!(dot_div_trunc(v(10_800, 14_400), v(2_160, 2_880), 3_600), 18_000);
    assert_eq!(dot_div_trunc(v(-7, 0), v(3_600, 0), 3_600), -7);
}

#[test]
fn abs_of_both_signs() {
    assert_eq!(abs_i64(5), 5);
    assert_eq!(abs_i64(-5), 5);
    assert_eq!(abs_i64(0), 0);
}

#[test]
fn lengthen_zero_vector_stays_zero() {
    assert_eq!(vector_lengthen(v(0, 0), -5_000), v(0, 0));
    assert_eq!(vector_lengthen(v(0, 0), 5_000), v(0, 0));
}

#[test]
fn lengthen_shortens_without_crossing_zero() {
    // Pure axis: exact subtraction.
    assert_eq!(vector_lengthen(v(720_000, 0), -15_600), v(704_400, 0));
    assert_eq!(vector_lengthen(v(-720_000, 0), -15_600), v(-704_400, 0));
    // Shorter than the cut: snaps to zero instead of reversing.
    assert_eq!(vector_lengthen(v(2_400, 0), -15_600), v(0, 0));
    assert_eq!(vector_lengthen(v(-2_400, 700), -15_600), v(0, 0));
}

#[test]
fn lengthen_follows_direction() {
    // A 3-4-5 vector of length 18000 shortened by 3600: exactly (4/5)
    // of it left on each component.
    assert_eq!(vector_lengthen(v(10_800, 14_400), -3_600), v(8_640, 11_520));
    // Lengthening moves away from zero.
    assert_eq!(vector_lengthen(v(10_800, 14_400), 3_600), v(12_960, 17_280));
}

#[test]
fn lengthen_never_flips_component_signs() {
    let cases = [
        (v(50, -3), -40),
        (v(-1_000, 999), -998),
        (v(123_456, -654_321), -100_000),
        (v(7, 7), -6),
    ];
    for (vin, x) in cases {
        let out = vector_lengthen(vin, x);
        assert!(out.x.signum() == vin.x.signum() || out.x == 0);
        assert!(out.y.signum() == vin.y.signum() || out.y == 0);
        assert!(out.x.abs() <= vin.x.abs());
        assert!(out.y.abs() <= vin.y.abs());
    }
}

#[test]
fn perpendicular_is_quarter_turn() {
    assert_eq!(vector_perpendicular(v(3, 4)), v(-4, 3));
    assert_eq!(vector_perpendicular(v(-1, 0)), v(0, -1));
}
