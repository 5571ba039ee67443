use evosim::math::clamp_i64;
use evosim::math::div_tz_i64;
use evosim::math::isqrt;
use evosim::math::isqrt_ceil;
use evosim::math::range_scale;
use evosim::math::Vec2i;

#[test]
fn isqrt_exact_squares() {
    assert_eq!(isqrt(0), 0);
    assert_eq!(isqrt(1), 1);
    assert_eq!(isqrt(9), 3);
    assert_eq!(isqrt(90_000_000_000), 300_000);
    assert_eq!(isqrt(u64::MAX), 4_294_967_295);
}

#[test]
fn isqrt_rounds_down() {
    assert_eq!(isqrt(10), 3);
    assert_eq!(isqrt(15), 3);
    assert_eq!(isqrt(16), 4);
    assert_eq!(isqrt(999_956), 999);
}

#[test]
fn isqrt_ceil_rounds_up() {
    assert_eq!(isqrt_ceil(0), 0);
    assert_eq!(isqrt_ceil(9), 3);
    assert_eq!(isqrt_ceil(10), 4);
    assert_eq!(isqrt_ceil(999_956), 1000);
    assert_eq!(isqrt_ceil(100_000_000), 10_000);
}

#[test]
fn division_truncates_toward_zero() {
    assert_eq!(div_tz_i64(7, 2), 3);
    assert_eq!(div_tz_i64(-7, 2), -3);
    assert_eq!(div_tz_i64(0, 5), 0);
    assert_eq!(div_tz_i64(-1, 1000), 0);
}

#[test]
fn clamp_holds_range() {
    assert_eq!(clamp_i64(5, 0, 10), 5);
    assert_eq!(clamp_i64(-5, 0, 10), 0);
    assert_eq!(clamp_i64(15, 0, 10), 10);
}

#[test]
fn range_scale_exact_values() {
    // 0.5 on [0, 1] maps to 1.0 on [0, 2].
    assert_eq!(range_scale(500, 0, 1000, 0, 2000), 1000);
    // -0.5 on [-1, 1] maps to 0.025 on [0, 0.1].
    assert_eq!(range_scale(-500, -1000, 1000, 0, 100), 25);
    // A reversed source range divides by a negative width.
    assert_eq!(range_scale(10, 100, 0, 0, 1000), 900);
}

#[test]
fn range_scale_maps_endpoints_to_endpoints() {
    assert_eq!(range_scale(-1000, -1000, 1000, 0, 100), 0);
    assert_eq!(range_scale(1000, -1000, 1000, 0, 100), 100);
    assert_eq!(range_scale(7_000, 7_000, 9_000, 300, 500), 300);
    assert_eq!(range_scale(9_000, 7_000, 9_000, 300, 500), 500);
}

#[test]
fn vector_scale_to_length() {
    let v = Vec2i { x: 300_000, y: 0 };
    let r = v.scale_to_length(10_000);
    assert_eq!(r, Vec2i { x: 10_000, y: 0 });
    let d = Vec2i { x: 866, y: 500 };
    let r2 = d.scale_to_length(10_000);
    assert_eq!(r2, Vec2i { x: 8_660, y: 5_000 });
}

#[test]
fn vector_clamp_len_caps_speed() {
    let v = Vec2i { x: 10_000, y: 0 };
    assert_eq!(v.clamp_len(1_000), Vec2i { x: 1_000, y: 0 });
    let w = Vec2i { x: 300, y: 400 };
    assert_eq!(w.clamp_len(1_000), w);
    let u = Vec2i { x: 3_000, y: 4_000 };
    let c = u.clamp_len(1_000);
    let sq = c.x * c.x + c.y * c.y;
    assert!(sq <= 1_000_000);
    assert!(c.x > 0 && c.y > 0);
}
