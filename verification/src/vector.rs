//! Two-dimensional vectors with fixed-point components.

use vstd::prelude::*;
use crate::fixed::{
    clamp_i64, fixed_mul, floor_sqrt, in_range, is_floor_sqrt, isqrt, lemma_floor_sqrt_unique,
    lemma_mul_bound, lemma_mul_nonneg_bound, saturate, scaled_mul, wide_mul, LIMIT, SCALE,
};

verus! {

/// A vector of the plane. Each component counts millionths.
#[derive(Debug, Copy, Clone, PartialEq, Eq, Structural)]
pub struct Vector2 {
    pub x: i64,
    pub y: i64,
}

/// The largest magnitude of a coordinate between which distances are
/// taken: the square of a distance must fit the intermediate arithmetic.
pub const COORD_LIMIT: i64 = 2_000_000_000_000_000_000;

/// Whether both coordinates of `p` are within `COORD_LIMIT`.
pub open spec fn within_coord_limit(p: Vector2) -> bool {
    -COORD_LIMIT <= p.x <= COORD_LIMIT && -COORD_LIMIT <= p.y <= COORD_LIMIT
}

/// Whether both components of `v` can be stored as quantities of the
/// simulation.
pub open spec fn vector_in_range(v: Vector2) -> bool {
    in_range(v.x as int) && in_range(v.y as int)
}

/// Whether both components of `v` can be stored as quantities of the
/// simulation.
pub fn is_in_range(v: &Vector2) -> (b: bool)
    ensures
        b == vector_in_range(*v),
{
    v.x >= -LIMIT && v.x <= LIMIT && v.y >= -LIMIT && v.y <= LIMIT
}

/// The squared distance between two points, in squared units.
pub open spec fn dist2(a: Vector2, b: Vector2) -> int {
    (a.x - b.x) * (a.x - b.x) + (a.y - b.y) * (a.y - b.y)
}

/// A squared distance is never negative, is zero between equal points
/// alone, and does not depend on the order of the two points.
pub proof fn lemma_dist2(a: Vector2, b: Vector2)
    ensures
        dist2(a, b) >= 0,
        dist2(a, b) == dist2(b, a),
        dist2(a, b) == 0 <==> a == b,
        (a.x - b.x) * (a.x - b.x) <= dist2(a, b),
        (a.y - b.y) * (a.y - b.y) <= dist2(a, b),
{
    let dx: int = a.x - b.x;
    let dy: int = a.y - b.y;
    assert(dx * dx >= 0 && (dx != 0 ==> dx * dx > 0)) by (nonlinear_arith);
    assert(dy * dy >= 0 && (dy != 0 ==> dy * dy > 0)) by (nonlinear_arith);
    assert((-dx) * (-dx) == dx * dx) by (nonlinear_arith);
    assert((-dy) * (-dy) == dy * dy) by (nonlinear_arith);
}

/// The squared distance between two points within the coordinate limit.
pub fn distance_squared(a: &Vector2, b: &Vector2) -> (d: i128)
    requires
        within_coord_limit(*a),
        within_coord_limit(*b),
    ensures
        d == dist2(*a, *b),
        0 <= d <= 32_000_000_000_000_000_000_000_000_000_000_000_000,
{
    let dx: i128 = a.x as i128 - b.x as i128;
    let dy: i128 = a.y as i128 - b.y as i128;
    proof {
        lemma_dist2(*a, *b);
        lemma_mul_bound(
            dx as int,
            dx as int,
            4_000_000_000_000_000_000,
            4_000_000_000_000_000_000,
        );
        lemma_mul_bound(
            dy as int,
            dy as int,
            4_000_000_000_000_000_000,
            4_000_000_000_000_000_000,
        );
    }
    dx * dx + dy * dy
}

/// The number of values a random sample can take: samples are below 2^32.
pub const SAMPLE_SPAN: i64 = 0x1_0000_0000;

/// The fraction of one, in units, that a sample stands for: the samples
/// spread evenly over `0 .. SCALE`.
pub open spec fn unit_sample(sample: int) -> int {
    sample * SCALE / (SAMPLE_SPAN as int)
}

/// The point between `min` and `max` that a sample picks: `min` for the
/// sample 0, and never `max` itself unless the two limits are equal.
pub open spec fn sample_between(sample: int, min: int, max: int) -> int {
    min + fixed_mul(unit_sample(sample), max - min)
}

/// Whether `v` lies between `a` and `b`, whichever of the two is larger.
pub open spec fn between(v: int, a: int, b: int) -> bool {
    (a <= v <= b) || (b <= v <= a)
}

/// A sample picks a point between the two limits.
pub proof fn lemma_sample_between(sample: int, min: int, max: int)
    requires
        0 <= sample < SAMPLE_SPAN,
    ensures
        0 <= unit_sample(sample) < SCALE,
        between(sample_between(sample, min, max), min, max),
        min < max ==> min <= sample_between(sample, min, max) < max,
        sample_between(0, min, max) == min,
{
    let u: int = unit_sample(sample);
    assert(0 <= u < SCALE) by {
        assert(0 <= sample * SCALE < SAMPLE_SPAN * SCALE);
    }
    let d: int = max - min;
    if d >= 0 {
        lemma_mul_nonneg_bound(u, d, SCALE - 1, d);
        assert((u * d) / (SCALE as int) <= d) by (nonlinear_arith)
            requires
                0 <= u * d <= (SCALE - 1) * d,
                d >= 0,
                SCALE == 1_000_000,
        ;
        if d > 0 {
            assert((u * d) / (SCALE as int) < d) by (nonlinear_arith)
                requires
                    0 <= u * d <= (SCALE - 1) * d,
                    d > 0,
                    SCALE == 1_000_000,
            ;
        }
    } else {
        lemma_mul_nonneg_bound(u, -d, SCALE - 1, -d);
        assert(u * d == -(u * (-d))) by (nonlinear_arith);
        assert((u * (-d)) / (SCALE as int) <= -d) by (nonlinear_arith)
            requires
                0 <= u * (-d) <= (SCALE - 1) * (-d),
                d < 0,
                SCALE == 1_000_000,
        ;
    }
}

/// Draws a number from the thread-local generator of the `rand` crate
/// (`rand::random`). The generator promises a uniform draw over all 32-bit
/// values and nothing about any single one, so nothing is claimed of the
/// result. The call panics only where the operating system fails to seed
/// the generator.
#[verifier::external_body]
fn random_sample() -> (sample: u32) {
    rand::random::<u32>()
}

impl Vector2 {
    /// The vector with the given components.
    pub fn new(x: i64, y: i64) -> (v: Self)
        ensures
            v.x == x,
            v.y == y,
    {
        Self { x, y }
    }

    /// The zero vector.
    pub open spec fn spec_zero() -> Self {
        Vector2 { x: 0, y: 0 }
    }

    /// The zero vector.
    #[verifier::when_used_as_spec(spec_zero)]
    pub fn zero() -> (v: Self)
        ensures
            v == Self::spec_zero(),
    {
        Self { x: 0, y: 0 }
    }

    /// The component-wise sum; a component that leaves the 64-bit range
    /// stays at the end it crossed.
    pub open spec fn spec_add(self, other: Self) -> Self {
        Vector2 {
            x: clamp_i64(self.x + other.x) as i64,
            y: clamp_i64(self.y + other.y) as i64,
        }
    }

    /// The component-wise difference, saturating like the sum.
    pub open spec fn spec_subtract(self, other: Self) -> Self {
        Vector2 {
            x: clamp_i64(self.x - other.x) as i64,
            y: clamp_i64(self.y - other.y) as i64,
        }
    }

    /// Both components multiplied by the fixed-point scalar `s`, rounded
    /// toward zero and saturating.
    pub open spec fn spec_scale(self, s: int) -> Self {
        Vector2 {
            x: clamp_i64(fixed_mul(self.x as int, s)) as i64,
            y: clamp_i64(fixed_mul(self.y as int, s)) as i64,
        }
    }

    /// The squared length, in squared units.
    pub open spec fn norm_squared(self) -> int {
        self.x * self.x + self.y * self.y
    }

    /// The length, rounded down to a whole unit; the one length that does
    /// not fit in 64 bits saturates.
    pub open spec fn spec_magnitude(self) -> int {
        clamp_i64(floor_sqrt(self.norm_squared()))
    }

    /// The point that two samples pick in the square between `min` and
    /// `max`.
    pub open spec fn spec_from_samples(sx: u32, sy: u32, min: i64, max: i64) -> Self {
        Vector2 {
            x: sample_between(sx as int, min as int, max as int) as i64,
            y: sample_between(sy as int, min as int, max as int) as i64,
        }
    }

    /// Adds two vectors.
    pub fn add(&self, other: &Self) -> (r: Self)
        ensures
            r == self.spec_add(*other),
    {
        Self {
            x: saturate(self.x as i128 + other.x as i128),
            y: saturate(self.y as i128 + other.y as i128),
        }
    }

    /// Subtracts `other` from this vector.
    pub fn subtract(&self, other: &Self) -> (r: Self)
        ensures
            r == self.spec_subtract(*other),
    {
        Self {
            x: saturate(self.x as i128 - other.x as i128),
            y: saturate(self.y as i128 - other.y as i128),
        }
    }

    /// Multiplies both components by the scalar `s`.
    pub fn scale(&self, s: i64) -> (r: Self)
        ensures
            r == self.spec_scale(s as int),
    {
        Self { x: saturate(scaled_mul(self.x, s)), y: saturate(scaled_mul(self.y, s)) }
    }

    /// The length of the vector: never negative, and zero for the zero
    /// vector alone.
    pub fn magnitude(&self) -> (m: i64)
        ensures
            m == self.spec_magnitude(),
            m >= 0,
            m == 0 <==> *self == Self::spec_zero(),
            is_floor_sqrt(self.norm_squared(), m as int) || m == i64::MAX,
    {
        let xx: i128 = wide_mul(self.x, self.x);
        let yy: i128 = wide_mul(self.y, self.y);
        proof {
            assert(self.x * self.x >= 0) by (nonlinear_arith);
            assert(self.y * self.y >= 0) by (nonlinear_arith);
            assert(self.x != 0 ==> self.x * self.x > 0) by (nonlinear_arith);
            assert(self.y != 0 ==> self.y * self.y > 0) by (nonlinear_arith);
        }
        let n: u128 = xx as u128 + yy as u128;
        let r: u64 = isqrt(n);
        proof {
            assert(r == 0 <==> n == 0) by (nonlinear_arith)
                requires
                    r * r <= n < (r + 1) * (r + 1),
            ;
        }
        if r > i64::MAX as u64 {
            i64::MAX
        } else {
            r as i64
        }
    }

    /// The point that the samples `sx` and `sy` pick in the square between
    /// `min` and `max`.
    pub fn from_samples(sx: u32, sy: u32, min: i64, max: i64) -> (v: Self)
        ensures
            v == Self::spec_from_samples(sx, sy, min, max),
            between(v.x as int, min as int, max as int),
            between(v.y as int, min as int, max as int),
            min < max ==> min <= v.x < max && min <= v.y < max,
    {
        proof {
            lemma_sample_between(sx as int, min as int, max as int);
            lemma_sample_between(sy as int, min as int, max as int);
        }
        let span: i128 = max as i128 - min as i128;
        let ux: i128 = (sx as i128 * SCALE as i128) / (SAMPLE_SPAN as i128);
        let uy: i128 = (sy as i128 * SCALE as i128) / (SAMPLE_SPAN as i128);
        proof {
            lemma_mul_bound(ux as int, span as int, SCALE as int, 0x1_0000_0000_0000_0000);
            lemma_mul_bound(uy as int, span as int, SCALE as int, 0x1_0000_0000_0000_0000);
        }
        let x: i128 = min as i128 + (ux * span) / (SCALE as i128);
        let y: i128 = min as i128 + (uy * span) / (SCALE as i128);
        Self { x: x as i64, y: y as i64 }
    }

    /// A random vector with both components in `0 .. 1`.
    pub fn rand() -> (v: Self)
        ensures
            0 <= v.x < SCALE,
            0 <= v.y < SCALE,
            exists|sx: u32, sy: u32| v == Self::spec_from_samples(sx, sy, 0, SCALE),
    {
        let sx: u32 = random_sample();
        let sy: u32 = random_sample();
        Self::from_samples(sx, sy, 0, SCALE)
    }

    /// A random vector with both components between `min` and `max`: from
    /// `min` up to, but not including, `max` where `min < max`.
    pub fn random_with_limits(min: i64, max: i64) -> (v: Self)
        ensures
            between(v.x as int, min as int, max as int),
            between(v.y as int, min as int, max as int),
            min < max ==> min <= v.x < max && min <= v.y < max,
            exists|sx: u32, sy: u32| v == Self::spec_from_samples(sx, sy, min, max),
    {
        let sx: u32 = random_sample();
        let sy: u32 = random_sample();
        Self::from_samples(sx, sy, min, max)
    }
}

impl core::ops::Add for Vector2 {
    type Output = Vector2;

    /// The sum of two vectors, as `Vector2::add` gives it.
    fn add(self, other: Vector2) -> (r: Vector2) {
        Vector2 {
            x: saturate(self.x as i128 + other.x as i128),
            y: saturate(self.y as i128 + other.y as i128),
        }
    }
}

impl vstd::std_specs::ops::AddSpecImpl for Vector2 {
    open spec fn obeys_add_spec() -> bool {
        true
    }

    open spec fn add_req(self, other: Vector2) -> bool {
        true
    }

    open spec fn add_spec(self, other: Vector2) -> Vector2 {
        self.spec_add(other)
    }
}

impl core::ops::Sub for Vector2 {
    type Output = Vector2;

    /// The difference of two vectors, as `Vector2::subtract` gives it.
    fn sub(self, other: Vector2) -> (r: Vector2) {
        Vector2 {
            x: saturate(self.x as i128 - other.x as i128),
            y: saturate(self.y as i128 - other.y as i128),
        }
    }
}

impl vstd::std_specs::ops::SubSpecImpl for Vector2 {
    open spec fn obeys_sub_spec() -> bool {
        true
    }

    open spec fn sub_req(self, other: Vector2) -> bool {
        true
    }

    open spec fn sub_spec(self, other: Vector2) -> Vector2 {
        self.spec_subtract(other)
    }
}

/// Adding the zero vector changes nothing, a vector minus itself is the
/// zero vector, and the zero vector has length zero.
pub proof fn lemma_vector_identities(v: Vector2)
    ensures
        v.spec_add(Vector2::spec_zero()) == v,
        Vector2::spec_zero().spec_add(v) == v,
        v.spec_subtract(v) == Vector2::spec_zero(),
        Vector2::spec_zero().spec_magnitude() == 0,
{
    lemma_floor_sqrt_unique(0, 0);
}

/// Addition is commutative, and subtracting what was added gives the
/// first vector back as long as the sum did not saturate.
pub proof fn lemma_vector_add_subtract(v: Vector2, w: Vector2)
    ensures
        v.spec_add(w) == w.spec_add(v),
        (i64::MIN <= v.x + w.x <= i64::MAX && i64::MIN <= v.y + w.y <= i64::MAX)
            ==> v.spec_add(w).spec_subtract(w) == v,
{
}

} // verus!
