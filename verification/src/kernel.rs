//! Smoothing kernels.
//!
//! The three kernels weigh the influence of a neighbour by its distance:
//! the poly6 kernel for density, the gradient of the spiky kernel for
//! pressure, and the Laplacian of the viscosity kernel. All three vanish at
//! the smoothing radius and beyond. They are the usual kernels of the
//! plane, evaluated on fixed-point numbers with every quotient rounded
//! down.

use vstd::prelude::*;
use vstd::arithmetic::div_mod::lemma_div_is_ordered_by_denominator;
use crate::fixed::{lemma_mul_nonneg_bound, SCALE};

verus! {

/// The smallest smoothing radius (0.01): below it the kernels leave the
/// range of the intermediate arithmetic.
pub const MIN_RADIUS: i64 = 10_000;

/// The largest smoothing radius (1000): above it the weight of a particle
/// on itself rounds down to zero.
pub const MAX_RADIUS: i64 = 1_000_000_000;

/// 4 / pi, the normalisation of the poly6 kernel in the plane.
pub const POLY6_FACTOR: i64 = 1_273_240;

/// 30 / pi, the normalisation of the gradient of the spiky kernel.
pub const SPIKY_FACTOR: i64 = 9_549_297;

/// 40 / pi, the normalisation of the Laplacian of the viscosity kernel.
pub const VISCOSITY_FACTOR: i64 = 12_732_395;

/// The largest value of the poly6 kernel, reached at distance zero with
/// the smallest radius.
pub const POLY6_MAX: i64 = 12_732_400_000;

/// The largest magnitude of the spiky gradient.
pub const SPIKY_MAX: i64 = 9_549_297_000_000;

/// The largest value of the viscosity Laplacian.
pub const VISCOSITY_MAX: i64 = 1_273_239_500_000_000;

/// Whether `h` can serve as a smoothing radius.
pub open spec fn valid_radius(h: int) -> bool {
    MIN_RADIUS <= h <= MAX_RADIUS
}

/// The poly6 kernel `4 / (pi h^2) * (1 - r^2 / h^2)^3` at squared distance
/// `r2` (in squared units), zero from the radius `h` on.
pub open spec fn poly6(r2: int, h: int) -> int {
    if r2 < 0 || r2 >= h * h {
        0
    } else {
        let q2: int = r2 * SCALE / (h * h);
        let t: int = SCALE - q2;
        let t3: int = t * t * t / (SCALE * SCALE);
        POLY6_FACTOR * t3 * SCALE / (h * h)
    }
}

/// The magnitude `30 / (pi h^3) * (1 - r / h)^2` of the gradient of the
/// spiky kernel at distance `r`, zero at distance zero (where it has no
/// direction) and from the radius `h` on.
pub open spec fn spiky_gradient(r: int, h: int) -> int {
    if r <= 0 || r >= h {
        0
    } else {
        let q: int = r * SCALE / h;
        let u: int = SCALE - q;
        let u2: int = u * u / (SCALE as int);
        SPIKY_FACTOR * u2 * SCALE * SCALE / (h * h * h)
    }
}

/// The Laplacian `40 / (pi h^4) * (1 - r / h)` of the viscosity kernel at
/// distance `r`, zero from the radius `h` on.
pub open spec fn viscosity_laplacian(r: int, h: int) -> int {
    if r < 0 || r >= h {
        0
    } else {
        let q: int = r * SCALE / h;
        let u: int = SCALE - q;
        VISCOSITY_FACTOR * u * SCALE * SCALE * SCALE / (h * h * h * h)
    }
}

/// The powers of a valid radius stay within fixed bounds.
pub proof fn lemma_radius_powers(h: int)
    requires
        valid_radius(h),
    ensures
        100_000_000 <= h * h <= 1_000_000_000_000_000_000,
        1_000_000_000_000 <= h * h * h <= 1_000_000_000_000_000_000_000_000_000,
        10_000_000_000_000_000 <= h * h * h * h
            <= 1_000_000_000_000_000_000_000_000_000_000_000_000,
{
    lemma_mul_nonneg_bound(h, h, 1_000_000_000, 1_000_000_000);
    lemma_mul_nonneg_bound(10_000, 10_000, h, h);
    lemma_mul_nonneg_bound(h * h, h, 1_000_000_000_000_000_000, 1_000_000_000);
    lemma_mul_nonneg_bound(100_000_000, 10_000, h * h, h);
    lemma_mul_nonneg_bound(h * h * h, h, 1_000_000_000_000_000_000_000_000_000, 1_000_000_000);
    lemma_mul_nonneg_bound(1_000_000_000_000, 10_000, h * h * h, h);
}

/// A ratio of a part to the whole, in units, is below one.
pub proof fn lemma_ratio_below_one(part: int, whole: int)
    requires
        0 <= part < whole,
    ensures
        0 <= part * SCALE / whole < SCALE,
{
    assert(0 <= part * SCALE / whole < SCALE) by (nonlinear_arith)
        requires
            0 <= part < whole,
            SCALE == 1_000_000,
    ;
}

/// The poly6 kernel is never negative and never above `POLY6_MAX`.
pub proof fn lemma_poly6_bounds(r2: int, h: int)
    requires
        valid_radius(h),
    ensures
        0 <= poly6(r2, h) <= POLY6_MAX,
{
    lemma_radius_powers(h);
    if 0 <= r2 < h * h {
        let q2: int = r2 * SCALE / (h * h);
        lemma_ratio_below_one(r2, h * h);
        let t: int = SCALE - q2;
        lemma_mul_nonneg_bound(t, t, SCALE as int, SCALE as int);
        lemma_mul_nonneg_bound(t * t, t, SCALE * SCALE, SCALE as int);
        let t3: int = t * t * t / (SCALE * SCALE);
        let top: int = POLY6_FACTOR * t3 * SCALE;
        lemma_div_is_ordered_by_denominator(top, 100_000_000, h * h);
        assert(top / (h * h) >= 0) by (nonlinear_arith)
            requires
                top >= 0,
                h * h > 0,
        ;
    }
}

/// A particle weighs on itself: at distance zero the poly6 kernel is at
/// least one unit.
pub proof fn lemma_poly6_at_zero(h: int)
    requires
        valid_radius(h),
    ensures
        poly6(0, h) >= 1,
{
    lemma_radius_powers(h);
    assert(0 * SCALE / (h * h) == 0) by (nonlinear_arith)
        requires
            h * h > 0,
    ;
    let t: int = SCALE as int;
    assert(t * t * t == 1_000_000_000_000_000_000) by (nonlinear_arith)
        requires
            t == 1_000_000,
    ;
    let top: int = POLY6_FACTOR * SCALE * SCALE;
    lemma_div_is_ordered_by_denominator(top, h * h, 1_000_000_000_000_000_000);
}

/// The spiky gradient is never negative and never above `SPIKY_MAX`.
pub proof fn lemma_spiky_bounds(r: int, h: int)
    requires
        valid_radius(h),
    ensures
        0 <= spiky_gradient(r, h) <= SPIKY_MAX,
{
    lemma_radius_powers(h);
    if 0 < r < h {
        let q: int = r * SCALE / h;
        lemma_ratio_below_one(r, h);
        let u: int = SCALE - q;
        lemma_mul_nonneg_bound(u, u, SCALE as int, SCALE as int);
        let u2: int = u * u / (SCALE as int);
        let top: int = SPIKY_FACTOR * u2 * SCALE * SCALE;
        lemma_div_is_ordered_by_denominator(top, 1_000_000_000_000, h * h * h);
        assert(top / (h * h * h) >= 0) by (nonlinear_arith)
            requires
                top >= 0,
                h * h * h > 0,
        ;
    }
}

/// The viscosity Laplacian is never negative and never above
/// `VISCOSITY_MAX`.
pub proof fn lemma_viscosity_bounds(r: int, h: int)
    requires
        valid_radius(h),
    ensures
        0 <= viscosity_laplacian(r, h) <= VISCOSITY_MAX,
{
    lemma_radius_powers(h);
    if 0 <= r < h {
        let q: int = r * SCALE / h;
        lemma_ratio_below_one(r, h);
        let u: int = SCALE - q;
        let top: int = VISCOSITY_FACTOR * u * SCALE * SCALE * SCALE;
        lemma_div_is_ordered_by_denominator(top, 10_000_000_000_000_000, h * h * h * h);
        assert(top / (h * h * h * h) >= 0) by (nonlinear_arith)
            requires
                top >= 0,
                h * h * h * h > 0,
        ;
    }
}

/// The kernels have compact support: from the smoothing radius on a
/// neighbour has no influence.
pub proof fn lemma_kernels_vanish_beyond_radius(r: int, h: int)
    requires
        h > 0,
        r >= h,
    ensures
        poly6(r * r, h) == 0,
        spiky_gradient(r, h) == 0,
        viscosity_laplacian(r, h) == 0,
{
    assert(r * r >= h * h) by (nonlinear_arith)
        requires
            r >= h > 0,
    ;
}

/// The poly6 kernel at squared distance `r2` for the radius `h`.
pub fn poly6_weight(r2: i128, h: i64) -> (w: i64)
    requires
        valid_radius(h as int),
    ensures
        w == poly6(r2 as int, h as int),
        0 <= w <= POLY6_MAX,
{
    proof {
        lemma_radius_powers(h as int);
        lemma_poly6_bounds(r2 as int, h as int);
    }
    let h2: i128 = (h as i128) * (h as i128);
    if r2 < 0 || r2 >= h2 {
        return 0;
    }
    proof {
        lemma_ratio_below_one(r2 as int, h2 as int);
    }
    let q2: i128 = r2 * (SCALE as i128) / h2;
    let t: i128 = SCALE as i128 - q2;
    proof {
        lemma_mul_nonneg_bound(t as int, t as int, SCALE as int, SCALE as int);
        lemma_mul_nonneg_bound(t * t, t as int, SCALE * SCALE, SCALE as int);
    }
    let t3: i128 = t * t * t / ((SCALE as i128) * (SCALE as i128));
    let w: i128 = (POLY6_FACTOR as i128) * t3 * (SCALE as i128) / h2;
    w as i64
}

/// The magnitude of the spiky gradient at distance `r` for the radius `h`.
pub fn spiky_gradient_weight(r: i64, h: i64) -> (g: i64)
    requires
        valid_radius(h as int),
    ensures
        g == spiky_gradient(r as int, h as int),
        0 <= g <= SPIKY_MAX,
{
    proof {
        lemma_radius_powers(h as int);
        lemma_spiky_bounds(r as int, h as int);
    }
    if r <= 0 || r >= h {
        return 0;
    }
    proof {
        lemma_ratio_below_one(r as int, h as int);
    }
    let q: i128 = (r as i128) * (SCALE as i128) / (h as i128);
    let u: i128 = SCALE as i128 - q;
    proof {
        lemma_mul_nonneg_bound(u as int, u as int, SCALE as int, SCALE as int);
    }
    let u2: i128 = u * u / (SCALE as i128);
    let h3: i128 = (h as i128) * (h as i128) * (h as i128);
    let g: i128 = (SPIKY_FACTOR as i128) * u2 * (SCALE as i128) * (SCALE as i128) / h3;
    g as i64
}

/// The viscosity Laplacian at distance `r` for the radius `h`.
pub fn viscosity_laplacian_weight(r: i64, h: i64) -> (l: i64)
    requires
        valid_radius(h as int),
    ensures
        l == viscosity_laplacian(r as int, h as int),
        0 <= l <= VISCOSITY_MAX,
{
    proof {
        lemma_radius_powers(h as int);
        lemma_viscosity_bounds(r as int, h as int);
    }
    if r < 0 || r >= h {
        return 0;
    }
    proof {
        lemma_ratio_below_one(r as int, h as int);
    }
    let q: i128 = (r as i128) * (SCALE as i128) / (h as i128);
    let u: i128 = SCALE as i128 - q;
    let h4: i128 = (h as i128) * (h as i128) * (h as i128) * (h as i128);
    let l: i128 = (VISCOSITY_FACTOR as i128) * u * (SCALE as i128) * (SCALE as i128) * (
    SCALE as i128) / h4;
    l as i64
}

} // verus!
