use rust_fluid::fixed::{floor_div, floor_mod, isqrt, saturate, scaled_mul, wide_mul, LIMIT, SCALE};
use rust_fluid::vector::{distance_squared, Vector2, COORD_LIMIT};

#[test]
fn new_keeps_the_components() {
    let v = Vector2::new(3, -4);
    assert_eq!(v.x, 3);
    assert_eq!(v.y, -4);
    assert_eq!(Vector2::zero(), Vector2::new(0, 0));
}

#[test]
fn add_and_subtract_work_by_component() {
    let a = Vector2::new(1_500_000, -2_000_000);
    let b = Vector2::new(250_000, 750_000);
    assert_eq!(a.add(&b), Vector2::new(1_750_000, -1_250_000));
    assert_eq!(a.subtract(&b), Vector2::new(1_250_000, -2_750_000));
    assert_eq!(b.subtract(&a), Vector2::new(-1_250_000, 2_750_000));
}

#[test]
fn operators_agree_with_the_methods() {
    let a = Vector2::new(7, -9);
    let b = Vector2::new(-11, 13);
    assert_eq!(a + b, a.add(&b));
    assert_eq!(a - b, a.subtract(&b));
    assert_eq!(a + b, Vector2::new(-4, 4));
    assert_eq!(a - b, Vector2::new(18, -22));
}

#[test]
fn adding_zero_changes_nothing() {
    for v in [
        Vector2::new(0, 0),
        Vector2::new(1, -1),
        Vector2::new(i64::MAX, i64::MIN),
        Vector2::new(-123_456_789, 987_654_321),
    ] {
        assert_eq!(v.add(&Vector2::zero()), v);
        assert_eq!(Vector2::zero().add(&v), v);
        assert_eq!(v.subtract(&v), Vector2::zero());
    }
    assert_eq!(Vector2::zero().magnitude(), 0);
}

#[test]
fn sums_saturate_at_the_ends_of_the_range() {
    let top = Vector2::new(i64::MAX, i64::MAX);
    let bottom = Vector2::new(i64::MIN, i64::MIN);
    assert_eq!(top.add(&Vector2::new(1, 5)), top);
    assert_eq!(bottom.subtract(&Vector2::new(1, 5)), bottom);
    assert_eq!(bottom.add(&top), Vector2::new(-1, -1));
    assert_eq!(top.subtract(&bottom), top);
    assert_eq!(top + top, top);
    assert_eq!(bottom - top, bottom);
}

#[test]
fn scale_multiplies_and_rounds_toward_zero() {
    let v = Vector2::new(3_000_000, -3_000_000);
    assert_eq!(v.scale(500_000), Vector2::new(1_500_000, -1_500_000));
    assert_eq!(v.scale(-2_000_000), Vector2::new(-6_000_000, 6_000_000));
    assert_eq!(v.scale(0), Vector2::zero());
    assert_eq!(v.scale(SCALE), v);
    // 0.000_001 times 0.5 is below the resolution, whatever the sign.
    assert_eq!(Vector2::new(1, -1).scale(500_000), Vector2::zero());
    assert_eq!(Vector2::new(3, -3).scale(500_000), Vector2::new(1, -1));
    assert_eq!(
        Vector2::new(i64::MAX, i64::MIN).scale(2_000_000),
        Vector2::new(i64::MAX, i64::MIN)
    );
}

#[test]
fn magnitude_is_the_length_rounded_down() {
    assert_eq!(Vector2::new(3_000_000, 4_000_000).magnitude(), 5_000_000);
    assert_eq!(Vector2::new(-3, 4).magnitude(), 5);
    assert_eq!(Vector2::new(1, 1).magnitude(), 1);
    assert_eq!(Vector2::new(1_000_000, 1_000_000).magnitude(), 1_414_213);
    assert_eq!(Vector2::new(0, -7).magnitude(), 7);
    assert_eq!(Vector2::new(i64::MAX, 0).magnitude(), i64::MAX);
    assert_eq!(Vector2::new(i64::MIN, i64::MIN).magnitude(), i64::MAX);
}

#[test]
fn magnitude_is_zero_for_the_zero_vector_alone() {
    assert_eq!(Vector2::zero().magnitude(), 0);
    assert!(Vector2::new(1, 0).magnitude() > 0);
    assert!(Vector2::new(0, -1).magnitude() > 0);
    assert!(Vector2::new(-1, -1).magnitude() > 0);
}

#[test]
fn distance_squared_is_symmetric() {
    let a = Vector2::new(1_000_000, 2_000_000);
    let b = Vector2::new(4_000_000, 6_000_000);
    assert_eq!(distance_squared(&a, &b), 25_000_000_000_000);
    assert_eq!(distance_squared(&b, &a), 25_000_000_000_000);
    assert_eq!(distance_squared(&a, &a), 0);
    let far = Vector2::new(COORD_LIMIT, COORD_LIMIT);
    let near = Vector2::new(-COORD_LIMIT, -COORD_LIMIT);
    assert_eq!(
        distance_squared(&far, &near),
        32_000_000_000_000_000_000_000_000_000_000_000_000
    );
}

#[test]
fn samples_pick_points_between_the_limits() {
    assert_eq!(Vector2::from_samples(0, 0, 0, 10_000_000), Vector2::new(0, 0));
    assert_eq!(
        Vector2::from_samples(0x8000_0000, 0x4000_0000, 0, 10_000_000),
        Vector2::new(5_000_000, 2_500_000)
    );
    assert_eq!(
        Vector2::from_samples(u32::MAX, 0, 0, 10_000_000),
        Vector2::new(9_999_990, 0)
    );
    assert_eq!(
        Vector2::from_samples(0x8000_0000, u32::MAX, -4_000_000, 4_000_000),
        Vector2::new(0, 3_999_992)
    );
    // Limits in the other order: from the first limit toward the second.
    assert_eq!(
        Vector2::from_samples(0x8000_0000, 0, 10_000_000, 0),
        Vector2::new(5_000_000, 10_000_000)
    );
    assert_eq!(Vector2::from_samples(123, 456, 7, 7), Vector2::new(7, 7));
    assert_eq!(
        Vector2::from_samples(u32::MAX, u32::MAX, i64::MIN, i64::MAX),
        Vector2::new(9_223_353_590_110_702_097, 9_223_353_590_110_702_097)
    );
}

#[test]
fn random_vectors_lie_in_the_unit_square() {
    let mut seen_different = false;
    let first = Vector2::rand();
    for _ in 0..2000 {
        let v = Vector2::rand();
        assert!(0 <= v.x && v.x < SCALE);
        assert!(0 <= v.y && v.y < SCALE);
        if v != first {
            seen_different = true;
        }
    }
    assert!(seen_different);
}

#[test]
fn random_vectors_respect_their_limits() {
    for _ in 0..2000 {
        let v = Vector2::random_with_limits(0, 800_000_000);
        assert!(0 <= v.x && v.x < 800_000_000);
        assert!(0 <= v.y && v.y < 800_000_000);
        let w = Vector2::random_with_limits(-3_000_000, -1_000_000);
        assert!(-3_000_000 <= w.x && w.x < -1_000_000);
        assert!(-3_000_000 <= w.y && w.y < -1_000_000);
        let u = Vector2::random_with_limits(5, 2);
        assert!(2 <= u.x && u.x <= 5);
        assert!(2 <= u.y && u.y <= 5);
        assert_eq!(Vector2::random_with_limits(9, 9), Vector2::new(9, 9));
    }
}

#[test]
fn integer_square_root_rounds_down() {
    assert_eq!(isqrt(0), 0);
    assert_eq!(isqrt(1), 1);
    assert_eq!(isqrt(2), 1);
    assert_eq!(isqrt(3), 1);
    assert_eq!(isqrt(4), 2);
    assert_eq!(isqrt(15), 3);
    assert_eq!(isqrt(16), 4);
    assert_eq!(isqrt(24), 4);
    assert_eq!(isqrt(1_000_000_000_000), 1_000_000);
    assert_eq!(isqrt(999_999_999_999), 999_999);
    assert_eq!(isqrt(2_000_000_000_000), 1_414_213);
    assert_eq!(isqrt(u128::MAX), u64::MAX);
    assert_eq!(isqrt((u64::MAX as u128) * (u64::MAX as u128)), u64::MAX);
    assert_eq!(isqrt((u64::MAX as u128) * (u64::MAX as u128) - 1), u64::MAX - 1);
}

#[test]
fn integer_square_root_brackets_its_argument() {
    let mut n: u128 = 1;
    while n < u128::MAX / 7 {
        let r = isqrt(n) as u128;
        assert!(r * r <= n);
        assert!(n < (r + 1) * (r + 1));
        n = n * 7 + 3;
    }
}

#[test]
fn floor_division_rounds_down() {
    assert_eq!(floor_div(7, 2), 3);
    assert_eq!(floor_div(-7, 2), -4);
    assert_eq!(floor_div(-8, 2), -4);
    assert_eq!(floor_div(-1, 1_000_000), -1);
    assert_eq!(floor_div(0, 5), 0);
    assert_eq!(floor_div(i128::MIN, 1), i128::MIN);
    assert_eq!(floor_div(i128::MIN, 3), -56713727820156410577229101238628035243);
    assert_eq!(floor_mod(7, 2), 1);
    assert_eq!(floor_mod(-7, 2), 1);
    assert_eq!(floor_mod(-8, 2), 0);
    assert_eq!(floor_mod(-1, 1_000_000), 999_999);
    assert_eq!(floor_mod(i128::MIN, 7), 5);
}

#[test]
fn fixed_point_products_round_toward_zero() {
    assert_eq!(scaled_mul(1_500_000, 2_000_000), 3_000_000);
    assert_eq!(scaled_mul(-1_500_000, 2_000_000), -3_000_000);
    assert_eq!(scaled_mul(1, 999_999), 0);
    assert_eq!(scaled_mul(-1, 999_999), 0);
    assert_eq!(scaled_mul(3, 500_000), 1);
    assert_eq!(scaled_mul(-3, 500_000), -1);
    assert_eq!(scaled_mul(LIMIT, LIMIT), 1_000_000_000_000_000_000);
    assert_eq!(wide_mul(i64::MIN, i64::MIN), 1i128 << 126);
    assert_eq!(wide_mul(i64::MIN, i64::MAX), -((1i128 << 126) - (1i128 << 63)));
    assert_eq!(saturate(5), 5);
    assert_eq!(saturate(i64::MAX as i128 + 1), i64::MAX);
    assert_eq!(saturate(i64::MIN as i128 - 1), i64::MIN);
    assert_eq!(saturate(i128::MAX), i64::MAX);
}
