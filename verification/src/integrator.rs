//! The integrator.
//!
//! A particle is advanced by the semi-implicit Euler scheme: the velocity
//! first, by the acceleration, then the position, by the new velocity.
//! Where the new position lies outside the boundary rectangle along an
//! axis, it is put back on the edge that it crossed and the velocity along
//! that axis is turned around, scaled by the restitution.

use vstd::prelude::*;
use crate::fixed::{abs, fixed_mul, in_range, lemma_mul_bound, scaled_mul, LIMIT, SCALE};
use crate::vector::{vector_in_range, Vector2};

verus! {

/// The rectangle that holds the fluid, edges included.
#[derive(Debug, Copy, Clone, PartialEq, Eq, Structural)]
pub struct Boundary {
    /// The lower left corner.
    pub min: Vector2,
    /// The upper right corner.
    pub max: Vector2,
}

impl Boundary {
    /// Whether the rectangle has an interior and its corners can be
    /// stored.
    pub open spec fn valid(self) -> bool {
        &&& vector_in_range(self.min)
        &&& vector_in_range(self.max)
        &&& self.min.x < self.max.x
        &&& self.min.y < self.max.y
    }

    /// Whether the point `p` lies in the rectangle or on its edge.
    pub open spec fn contains(self, p: Vector2) -> bool {
        &&& self.min.x <= p.x <= self.max.x
        &&& self.min.y <= p.y <= self.max.y
    }

    /// Whether the rectangle has an interior and its corners can be
    /// stored.
    pub fn is_valid(&self) -> (b: bool)
        ensures
            b == self.valid(),
    {
        self.min.x >= -LIMIT && self.min.x <= LIMIT && self.min.y >= -LIMIT && self.min.y <= LIMIT
            && self.max.x >= -LIMIT && self.max.x <= LIMIT && self.max.y >= -LIMIT && self.max.y
            <= LIMIT && self.min.x < self.max.x && self.min.y < self.max.y
    }
}

/// The velocity along an axis after the acceleration `a` has acted for the
/// time `dt`.
pub open spec fn advanced_velocity(v: int, a: int, dt: int) -> int {
    v + fixed_mul(a, dt)
}

/// The position along an axis that the velocity `v1` leads to in the time
/// `dt`, before the boundary is looked at.
pub open spec fn free_position(x: int, v1: int, dt: int) -> int {
    x + fixed_mul(v1, dt)
}

/// The position along an axis after the boundary has been enforced: the
/// free position, or the edge that it lies beyond.
pub open spec fn resolved_position(free: int, lo: int, hi: int) -> int {
    if free < lo {
        lo
    } else if free > hi {
        hi
    } else {
        free
    }
}

/// The velocity along an axis after the boundary has been enforced:
/// turned around and scaled by the restitution where the free position
/// lies beyond an edge, unchanged otherwise.
pub open spec fn resolved_velocity(free: int, v1: int, lo: int, hi: int, restitution: int) -> int {
    if free < lo || free > hi {
        -fixed_mul(v1, restitution)
    } else {
        v1
    }
}

/// The position of a particle after one step, given its acceleration.
pub open spec fn integrated_position(
    p: Vector2,
    v: Vector2,
    a: Vector2,
    dt: int,
    boundary: Boundary,
) -> Vector2 {
    Vector2 {
        x: resolved_position(
            free_position(p.x as int, advanced_velocity(v.x as int, a.x as int, dt), dt),
            boundary.min.x as int,
            boundary.max.x as int,
        ) as i64,
        y: resolved_position(
            free_position(p.y as int, advanced_velocity(v.y as int, a.y as int, dt), dt),
            boundary.min.y as int,
            boundary.max.y as int,
        ) as i64,
    }
}

/// The velocity of a particle after one step, given its acceleration.
pub open spec fn integrated_velocity(
    p: Vector2,
    v: Vector2,
    a: Vector2,
    dt: int,
    boundary: Boundary,
    restitution: int,
) -> Vector2 {
    Vector2 {
        x: resolved_velocity(
            free_position(p.x as int, advanced_velocity(v.x as int, a.x as int, dt), dt),
            advanced_velocity(v.x as int, a.x as int, dt),
            boundary.min.x as int,
            boundary.max.x as int,
            restitution,
        ) as i64,
        y: resolved_velocity(
            free_position(p.y as int, advanced_velocity(v.y as int, a.y as int, dt), dt),
            advanced_velocity(v.y as int, a.y as int, dt),
            boundary.min.y as int,
            boundary.max.y as int,
            restitution,
        ) as i64,
    }
}

/// Whether the velocity that the acceleration leads to can be stored.
pub open spec fn velocity_advances(v: Vector2, a: Vector2, dt: int) -> bool {
    &&& in_range(advanced_velocity(v.x as int, a.x as int, dt))
    &&& in_range(advanced_velocity(v.y as int, a.y as int, dt))
}

/// A restitution of at most one never makes a velocity larger.
pub proof fn lemma_bounce_is_damped(v1: int, restitution: int)
    requires
        0 <= restitution <= SCALE,
    ensures
        abs(fixed_mul(v1, restitution)) <= abs(v1),
        restitution == SCALE ==> fixed_mul(v1, restitution) == v1,
{
    lemma_mul_bound(v1, restitution, abs(v1), SCALE as int);
    if restitution == SCALE {
        if v1 >= 0 {
            assert(v1 * SCALE == SCALE * v1) by (nonlinear_arith);
        } else {
            assert(-(v1 * SCALE) == SCALE * (-v1)) by (nonlinear_arith);
        }
    }
}

/// Advances one axis of a particle: the new position and velocity, or
/// `None` where the new velocity is too large to be stored.
pub fn integrate_axis(x: i64, v: i64, a: i64, dt: i64, lo: i64, hi: i64, restitution: i64) -> (r:
    Option<(i64, i64)>)
    requires
        in_range(x as int),
        in_range(v as int),
        in_range(a as int),
        0 < dt <= LIMIT,
        in_range(lo as int),
        in_range(hi as int),
        lo < hi,
        0 <= restitution <= SCALE,
    ensures
        r is Some <==> in_range(advanced_velocity(v as int, a as int, dt as int)),
        r matches Some((place, turned)) ==> {
            &&& place == resolved_position(
                free_position(x as int, advanced_velocity(v as int, a as int, dt as int), dt as int),
                lo as int,
                hi as int,
            )
            &&& turned == resolved_velocity(
                free_position(x as int, advanced_velocity(v as int, a as int, dt as int), dt as int),
                advanced_velocity(v as int, a as int, dt as int),
                lo as int,
                hi as int,
                restitution as int,
            )
            &&& lo <= place <= hi
            &&& in_range(turned as int)
        },
{
    proof {
        lemma_mul_bound(a as int, dt as int, LIMIT as int, LIMIT as int);
    }
    let v1: i128 = v as i128 + scaled_mul(a, dt);
    if v1 < -(LIMIT as i128) || v1 > LIMIT as i128 {
        return None;
    }
    let v1: i64 = v1 as i64;
    proof {
        lemma_mul_bound(v1 as int, dt as int, LIMIT as int, LIMIT as int);
        lemma_bounce_is_damped(v1 as int, restitution as int);
    }
    let free: i128 = x as i128 + scaled_mul(v1, dt);
    if free < lo as i128 {
        Some((lo, (-scaled_mul(v1, restitution)) as i64))
    } else if free > hi as i128 {
        Some((hi, (-scaled_mul(v1, restitution)) as i64))
    } else {
        Some((free as i64, v1))
    }
}

/// Advances a particle by one step: its new position and velocity, or
/// `None` where the new velocity is too large to be stored.
pub fn integrate_particle(
    p: Vector2,
    v: Vector2,
    a: Vector2,
    dt: i64,
    boundary: &Boundary,
    restitution: i64,
) -> (r: Option<(Vector2, Vector2)>)
    requires
        vector_in_range(p),
        vector_in_range(v),
        vector_in_range(a),
        0 < dt <= LIMIT,
        boundary.valid(),
        0 <= restitution <= SCALE,
    ensures
        r is Some <==> velocity_advances(v, a, dt as int),
        r matches Some((moved, turned)) ==> {
            &&& moved == integrated_position(p, v, a, dt as int, *boundary)
            &&& turned == integrated_velocity(p, v, a, dt as int, *boundary, restitution as int)
            &&& boundary.contains(moved)
            &&& vector_in_range(moved)
            &&& vector_in_range(turned)
        },
{
    match integrate_axis(p.x, v.x, a.x, dt, boundary.min.x, boundary.max.x, restitution) {
        Some((place, speed_x)) => {
            match integrate_axis(p.y, v.y, a.y, dt, boundary.min.y, boundary.max.y, restitution) {
                Some((height, speed_y)) => Some((Vector2 { x: place, y: height }, Vector2 { x: speed_x, y: speed_y })),
                None => None,
            }
        },
        None => None,
    }
}

} // verus!
