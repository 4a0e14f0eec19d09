use rust_fluid::kernel::{
    poly6_weight, spiky_gradient_weight, viscosity_laplacian_weight, MAX_RADIUS, MIN_RADIUS,
    POLY6_MAX, SPIKY_MAX, VISCOSITY_MAX,
};

const ONE: i64 = 1_000_000;

#[test]
fn poly6_at_distance_zero_is_four_over_pi() {
    assert_eq!(poly6_weight(0, ONE), 1_273_240);
}

#[test]
fn poly6_falls_with_the_distance() {
    // At half the radius: 4 / pi * (1 - 1/4)^3.
    assert_eq!(poly6_weight(250_000_000_000, ONE), 537_148);
    assert_eq!(poly6_weight(40_000_000_000, 500_000), 3_018_617);
    let mut last = poly6_weight(0, ONE);
    let mut r: i128 = 50_000;
    while r <= 1_000_000 {
        let w = poly6_weight(r * r, ONE);
        assert!(w <= last);
        assert!(w >= 0);
        last = w;
        r += 50_000;
    }
    assert_eq!(last, 0);
}

#[test]
fn poly6_vanishes_from_the_radius_on() {
    assert_eq!(poly6_weight(1_000_000_000_000, ONE), 0);
    assert_eq!(poly6_weight(999_999_999_999, ONE), 0);
    assert_eq!(poly6_weight(1_000_000_000_001, ONE), 0);
    assert_eq!(poly6_weight(i128::MAX, ONE), 0);
    assert_eq!(poly6_weight(-1, ONE), 0);
}

#[test]
fn poly6_is_positive_at_zero_for_every_radius() {
    assert_eq!(poly6_weight(0, MIN_RADIUS), POLY6_MAX);
    assert_eq!(poly6_weight(0, MAX_RADIUS), 1);
    let mut h = MIN_RADIUS;
    while h <= MAX_RADIUS {
        assert!(poly6_weight(0, h) >= 1);
        h = h * 3 / 2;
    }
}

#[test]
fn spiky_gradient_has_its_values() {
    // At half the radius: 30 / pi * (1/2)^2.
    assert_eq!(spiky_gradient_weight(500_000, ONE), 2_387_324);
    assert_eq!(spiky_gradient_weight(1, ONE), 9_549_277);
    assert_eq!(spiky_gradient_weight(5_000, MIN_RADIUS), 2_387_324_250_000);
    assert_eq!(spiky_gradient_weight(1, MIN_RADIUS), 9_547_387_140_600);
    assert!(spiky_gradient_weight(1, MIN_RADIUS) <= SPIKY_MAX);
}

#[test]
fn spiky_gradient_vanishes_at_zero_and_from_the_radius_on() {
    assert_eq!(spiky_gradient_weight(0, ONE), 0);
    assert_eq!(spiky_gradient_weight(-5, ONE), 0);
    assert_eq!(spiky_gradient_weight(ONE, ONE), 0);
    assert_eq!(spiky_gradient_weight(ONE - 1, ONE), 0);
    assert_eq!(spiky_gradient_weight(ONE + 1, ONE), 0);
    assert_eq!(spiky_gradient_weight(i64::MAX, ONE), 0);
}

#[test]
fn viscosity_laplacian_has_its_values() {
    // At distance zero: 40 / pi.
    assert_eq!(viscosity_laplacian_weight(0, ONE), 12_732_395);
    assert_eq!(viscosity_laplacian_weight(500_000, ONE), 6_366_197);
    assert_eq!(viscosity_laplacian_weight(ONE - 1, ONE), 12);
    assert_eq!(viscosity_laplacian_weight(250_000, 500_000), 101_859_160);
    assert_eq!(viscosity_laplacian_weight(0, MIN_RADIUS), VISCOSITY_MAX);
    assert_eq!(viscosity_laplacian_weight(0, MAX_RADIUS), 0);
}

#[test]
fn viscosity_laplacian_vanishes_from_the_radius_on() {
    assert_eq!(viscosity_laplacian_weight(ONE, ONE), 0);
    assert_eq!(viscosity_laplacian_weight(ONE + 1, ONE), 0);
    assert_eq!(viscosity_laplacian_weight(-1, ONE), 0);
    assert_eq!(viscosity_laplacian_weight(i64::MAX, ONE), 0);
}
