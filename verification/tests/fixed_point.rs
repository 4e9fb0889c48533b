use runner_core::fixed::{clamp, isqrt, lerp, product, quotient, rate_over, scale, LIMIT, UNIT};
use runner_core::vector::{stretch, Vec2, Vec3};

#[test]
fn quotient_rounds_toward_zero() {
    assert_eq!(quotient(7, 2), 3);
    assert_eq!(quotient(-7, 2), -3);
    assert_eq!(quotient(6, 3), 2);
    assert_eq!(quotient(-6, 3), -2);
    assert_eq!(quotient(0, 5), 0);
    assert_eq!(quotient(-1, 1000), 0);
    assert_eq!(quotient(999, 1000), 0);
}

#[test]
fn product_is_exact_at_the_extremes() {
    assert_eq!(product(i64::MAX, i64::MAX), (i64::MAX as i128) * (i64::MAX as i128));
    assert_eq!(product(i64::MIN, i64::MIN), (i64::MIN as i128) * (i64::MIN as i128));
    assert_eq!(product(i64::MIN, i64::MAX), (i64::MIN as i128) * (i64::MAX as i128));
    assert_eq!(product(-3, 4), -12);
}

#[test]
fn scale_counts_in_thousandths() {
    assert_eq!(UNIT, 1000);
    assert_eq!(scale(1500, 800), 1200);
    assert_eq!(scale(-1500, 800), -1200);
    assert_eq!(scale(-1, 999), 0);
    assert_eq!(scale(1, 999), 0);
    assert_eq!(scale(5000, 1000), 5000);
    assert_eq!(scale(5000, 2000), 10_000);
}

#[test]
fn clamp_holds_values_at_the_limit() {
    assert_eq!(clamp(0), 0);
    assert_eq!(clamp(LIMIT as i128), LIMIT);
    assert_eq!(clamp(LIMIT as i128 + 1), LIMIT);
    assert_eq!(clamp(-(LIMIT as i128) - 1), -LIMIT);
    assert_eq!(clamp(i128::MAX), LIMIT);
    assert_eq!(clamp(i128::MIN), -LIMIT);
    assert_eq!(clamp(-17), -17);
}

#[test]
fn rate_over_a_tick() {
    // 9.81 per second per second over a sixtieth of a second.
    assert_eq!(rate_over(-9810, 16_666), -163);
    assert_eq!(rate_over(9810, 16_666), 163);
    assert_eq!(rate_over(10_000, 500_000), 5000);
    assert_eq!(rate_over(2000, 1_000_000), 2000);
    assert_eq!(rate_over(1, 999_999), 0);
    assert_eq!(rate_over(0, u64::MAX), 0);
    assert_eq!(rate_over(LIMIT, u64::MAX), (LIMIT as i128) * (u64::MAX as i128) / 1_000_000);
}

#[test]
fn lerp_moves_part_of_the_way() {
    assert_eq!(lerp(0, 1000, 900), 900);
    assert_eq!(lerp(1000, 0, 900), 100);
    assert_eq!(lerp(1000, 100, 900), 190);
    assert_eq!(lerp(-1000, 1000, 0), -1000);
    assert_eq!(lerp(-1000, 1000, 1000), 1000);
    assert_eq!(lerp(5, 6, 900), 5);
    assert_eq!(lerp(6, 5, 900), 6);
}

#[test]
fn isqrt_is_the_floor_of_the_root() {
    assert_eq!(isqrt(0), 0);
    assert_eq!(isqrt(1), 1);
    assert_eq!(isqrt(2), 1);
    assert_eq!(isqrt(3), 1);
    assert_eq!(isqrt(4), 2);
    assert_eq!(isqrt(15), 3);
    assert_eq!(isqrt(16), 4);
    assert_eq!(isqrt(17), 4);
    assert_eq!(isqrt(32_008_001), 5657);
    assert_eq!(isqrt(1_000_000_000_000_000_000_000_000_000_000), 1_000_000_000_000_000);
    assert_eq!(isqrt(999_999_999_999_999_999_999_999_999_999), 999_999_999_999_999);
    // The largest argument: 2^124 - 1.
    assert_eq!(isqrt((1u128 << 124) - 1), (1u64 << 62) - 1);
}

#[test]
fn isqrt_brackets_every_small_number() {
    let mut n: u128 = 0;
    while n < 5000 {
        let r = isqrt(n) as u128;
        assert!(r * r <= n);
        assert!(n < (r + 1) * (r + 1));
        n += 1;
    }
}

#[test]
fn stretch_brings_a_component_to_length() {
    assert_eq!(stretch(3000, 1000, 5000), 600);
    assert_eq!(stretch(-3000, 1000, 5000), -600);
    assert_eq!(stretch(4000, 5500, 5657), 3888);
    assert_eq!(stretch(-4001, 5500, 5657), -3889);
    assert_eq!(stretch(0, 9000, 1), 0);
}

#[test]
fn vec3_length_and_direction() {
    let v = Vec3::new(3000, 4000, 0);
    assert_eq!(v.norm_squared(), 25_000_000);
    assert_eq!(v.norm(), 5000);
    assert_eq!(v.scaled_to(1000), Vec3::new(600, 800, 0));
    assert_eq!(v.scaled_to(0), Vec3::new(0, 0, 0));
    let w = Vec3::new(4000, -3000, 0);
    assert_eq!(w.scaled_to(5000), Vec3::new(4000, -3000, 0));
    let d = Vec3::new(1000, 2000, 2000);
    assert_eq!(d.norm(), 3000);
    assert_eq!(d.scaled_to(9000), Vec3::new(3000, 6000, 6000));
    assert_eq!(Vec3::splat(7), Vec3::new(7, 7, 7));
    assert_eq!(d.xz(), Vec2::new(1000, 2000));
}

#[test]
fn vec3_distance_between_points_of_the_world() {
    let a = Vec3::new(-5000, 5000, 0);
    let b = Vec3::new(0, 0, 0);
    assert_eq!(a.toward(&b), Vec3::new(5000, -5000, 0));
    assert_eq!(a.distance_squared_to(&b), 50_000_000);
    assert_eq!(b.distance_squared_to(&a), 50_000_000);
    let far = Vec3::new(LIMIT, LIMIT, LIMIT);
    let near = Vec3::new(-LIMIT, -LIMIT, -LIMIT);
    let side = 2 * (LIMIT as u128);
    assert_eq!(far.distance_squared_to(&near), 3 * side * side);
    assert_eq!(far.toward(&near).norm(), 3_464_101_615_137_754);
}

#[test]
fn vec2_direction_or_zero() {
    assert_eq!(Vec2::new(0, 0).scaled_to_or_zero(1000), Vec2::new(0, 0));
    assert_eq!(Vec2::new(3, 4).scaled_to_or_zero(1000), Vec2::new(600, 800));
    assert_eq!(Vec2::new(5000, 0).scaled_to_or_zero(1000), Vec2::new(1000, 0));
    assert_eq!(Vec2::new(0, -1).scaled_to_or_zero(1000), Vec2::new(0, -1000));
    assert_eq!(Vec2::new(-7000, 7000).scaled_to_or_zero(1000), Vec2::new(-707, 707));
    assert_eq!(
        Vec2::new(2 * LIMIT, -2 * LIMIT).scaled_to_or_zero(1000),
        Vec2::new(707, -707)
    );
}
