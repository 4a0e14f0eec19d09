//! The force accumulator.
//!
//! The acceleration of a particle is gravity plus the pressure force and
//! the viscosity force, both divided by the density at the particle. The
//! two forces are sums over the neighbours of the particle, that is over
//! the particles whose predicted position lies within the smoothing radius
//! of its own; the kernels are evaluated at the distance between the
//! present positions.

use vstd::prelude::*;
use crate::fixed::{
    abs, fixed_mul, floor_sqrt, in_range, is_floor_sqrt, isqrt, lemma_mul_bound,
    lemma_trunc_div_bound, lemma_trunc_div_le, scaled_mul, trunc_div, LIMIT, SCALE,
};
use crate::kernel::{
    lemma_spiky_bounds, lemma_viscosity_bounds, spiky_gradient, spiky_gradient_weight,
    valid_radius, viscosity_laplacian, viscosity_laplacian_weight, SPIKY_MAX, VISCOSITY_MAX,
};
use crate::spatial::{is_neighbor_list, SpatialIndex};
use crate::sums::{
    lemma_distinct_ids_are_few, lemma_list_sum_covers, lemma_list_sum_push, list_sum, range_sum,
    term,
};
use crate::vector::{
    dist2, distance_squared, lemma_dist2, vector_in_range, within_coord_limit, Vector2,
};

verus! {

/// The largest number of particles of a simulation.
pub const MAX_PARTICLES: usize = 1_000_000;

/// The largest magnitude of the pressure force between two particles.
pub const PRESSURE_TERM_MAX: i128 = 19_098_594_000_000_000_000_000_000;

/// The largest magnitude of the viscosity term between two particles.
pub const VISCOSITY_TERM_MAX: i128 = 2_546_479_000_000_000_000_000_000_000;

/// The horizontal component of `v` for the axis 0, the vertical one for
/// any other axis.
pub open spec fn axis_of(v: Vector2, axis: int) -> int {
    if axis == 0 {
        v.x as int
    } else {
        v.y as int
    }
}

/// What the forces are computed from: the state of all particles at one
/// moment of a step.
pub struct Fields {
    /// The positions projected one step ahead: they decide who is a
    /// neighbour of whom.
    pub predicted: Seq<Vector2>,
    /// The present positions.
    pub positions: Seq<Vector2>,
    /// The present velocities.
    pub velocities: Seq<Vector2>,
    /// The density at each particle.
    pub densities: Seq<i64>,
    /// The pressure at each particle.
    pub pressures: Seq<i64>,
    /// The smoothing radius.
    pub radius: int,
}

impl Fields {
    /// The number of particles.
    pub open spec fn len(self) -> int {
        self.positions.len() as int
    }

    /// Whether the fields describe the same particles and every value is
    /// within its range.
    pub open spec fn wf(self) -> bool {
        &&& self.len() <= MAX_PARTICLES
        &&& self.predicted.len() == self.len()
        &&& self.velocities.len() == self.len()
        &&& self.densities.len() == self.len()
        &&& self.pressures.len() == self.len()
        &&& valid_radius(self.radius)
        &&& forall|i: int|
            0 <= i < self.len() ==> within_coord_limit(#[trigger] self.predicted[i])
        &&& forall|i: int| 0 <= i < self.len() ==> vector_in_range(#[trigger] self.positions[i])
        &&& forall|i: int| 0 <= i < self.len() ==> vector_in_range(#[trigger] self.velocities[i])
        &&& forall|i: int| 0 <= i < self.len() ==> 1 <= (#[trigger] self.densities[i]) <= LIMIT
        &&& forall|i: int| 0 <= i < self.len() ==> 0 <= (#[trigger] self.pressures[i]) <= LIMIT
    }

    /// Whether the particle `j` is a neighbour of the particle `i`.
    pub open spec fn is_neighbor(self, i: int, j: int) -> bool {
        dist2(self.predicted[j], self.predicted[i]) <= self.radius * self.radius
    }

    /// The pressure force of the particle `j` on the particle `i` along an
    /// axis. A particle exerts none on itself.
    pub open spec fn pressure_term(self, i: int, j: int, axis: int) -> int {
        if j == i || !self.is_neighbor(i, j) {
            0
        } else {
            pressure_pair(
                self.positions[i],
                self.positions[j],
                self.pressures[i] + self.pressures[j],
                self.densities[j] as int,
                self.radius,
                axis,
            )
        }
    }

    /// The viscosity term of the particle `j` for the particle `i` along
    /// an axis.
    pub open spec fn viscosity_term(self, i: int, j: int, axis: int) -> int {
        if !self.is_neighbor(i, j) {
            0
        } else {
            viscosity_pair(
                self.positions[i],
                self.positions[j],
                self.velocities[i],
                self.velocities[j],
                self.densities[j] as int,
                self.radius,
                axis,
            )
        }
    }

    /// The pressure force on the particle `i` along an axis.
    pub open spec fn pressure_force(self, i: int, axis: int) -> int {
        range_sum(|j: int| self.pressure_term(i, j, axis), self.len())
    }

    /// The sum of the viscosity terms of the particle `i` along an axis.
    pub open spec fn viscosity_sum(self, i: int, axis: int) -> int {
        range_sum(|j: int| self.viscosity_term(i, j, axis), self.len())
    }

    /// The viscosity force on the particle `i` along an axis.
    pub open spec fn viscosity_force(self, viscosity: int, i: int, axis: int) -> int {
        fixed_mul(viscosity, self.viscosity_sum(i, axis))
    }

    /// The acceleration of the particle `i` along an axis: gravity plus
    /// the two forces over the density.
    pub open spec fn acceleration(self, gravity: Vector2, viscosity: int, i: int, axis: int) -> int {
        axis_of(gravity, axis) + trunc_div(
            (self.pressure_force(i, axis) + self.viscosity_force(viscosity, i, axis)) * SCALE,
            self.densities[i] as int,
        )
    }

    /// Whether the forces on the particle `i` and its acceleration can be
    /// stored, along one axis.
    pub open spec fn axis_in_range(self, gravity: Vector2, viscosity: int, i: int, axis: int) -> bool {
        &&& in_range(self.pressure_force(i, axis))
        &&& in_range(self.viscosity_sum(i, axis))
        &&& in_range(self.acceleration(gravity, viscosity, i, axis))
    }

    /// Whether the forces on the particle `i` and its acceleration can be
    /// stored.
    pub open spec fn particle_in_range(self, gravity: Vector2, viscosity: int, i: int) -> bool {
        self.axis_in_range(gravity, viscosity, i, 0) && self.axis_in_range(gravity, viscosity, i, 1)
    }

    /// The acceleration of the particle `i` as a vector.
    pub open spec fn acceleration_vector(self, gravity: Vector2, viscosity: int, i: int) -> Vector2 {
        Vector2 {
            x: self.acceleration(gravity, viscosity, i, 0) as i64,
            y: self.acceleration(gravity, viscosity, i, 1) as i64,
        }
    }
}

/// The pressure force between two particles along an axis: half the sum
/// `s` of their pressures over the density of the other, times the spiky
/// gradient, along the direction from the other particle to this one. Two
/// particles at the same place have no direction between them and exert no
/// pressure force on each other.
pub open spec fn pressure_pair(
    pi: Vector2,
    pj: Vector2,
    s: int,
    density: int,
    h: int,
    axis: int,
) -> int {
    let r: int = floor_sqrt(dist2(pi, pj));
    if r <= 0 || r >= h {
        0
    } else {
        trunc_div(
            trunc_div(s * spiky_gradient(r, h) * (axis_of(pi, axis) - axis_of(pj, axis)), r),
            2 * density,
        )
    }
}

/// The viscosity term between two particles along an axis: the difference
/// of their velocities over the density of the other, times the Laplacian
/// of the viscosity kernel.
pub open spec fn viscosity_pair(
    pi: Vector2,
    pj: Vector2,
    vi: Vector2,
    vj: Vector2,
    density: int,
    h: int,
    axis: int,
) -> int {
    let r: int = floor_sqrt(dist2(pi, pj));
    if r >= h {
        0
    } else {
        trunc_div((axis_of(vj, axis) - axis_of(vi, axis)) * viscosity_laplacian(r, h), density)
    }
}

/// No component of the difference of two points is longer than their
/// distance.
pub proof fn lemma_component_within_distance(d: int, r2: int, r: int)
    requires
        d * d <= r2,
        is_floor_sqrt(r2, r),
    ensures
        -r <= d <= r,
{
    assert(-r <= d <= r) by (nonlinear_arith)
        requires
            d * d <= r2,
            0 <= r,
            r2 < (r + 1) * (r + 1),
    ;
}

/// The pressure force between two particles is bounded.
pub proof fn lemma_pressure_pair_bound(
    pi: Vector2,
    pj: Vector2,
    s: int,
    density: int,
    h: int,
    axis: int,
)
    requires
        valid_radius(h),
        0 <= s <= 2 * LIMIT,
        density >= 1,
        is_floor_sqrt(dist2(pi, pj), floor_sqrt(dist2(pi, pj))),
    ensures
        abs(pressure_pair(pi, pj, s, density, h, axis)) <= PRESSURE_TERM_MAX,
{
    let r: int = floor_sqrt(dist2(pi, pj));
    if 0 < r < h {
        let g: int = spiky_gradient(r, h);
        let d: int = axis_of(pi, axis) - axis_of(pj, axis);
        lemma_spiky_bounds(r, h);
        lemma_dist2(pi, pj);
        lemma_component_within_distance(d, dist2(pi, pj), r);
        lemma_mul_bound(s, g, 2 * LIMIT, SPIKY_MAX as int);
        lemma_mul_bound(s * g, d, PRESSURE_TERM_MAX as int, r);
        lemma_trunc_div_le(s * g * d, r, PRESSURE_TERM_MAX as int);
    }
}

/// The viscosity term between two particles is bounded.
pub proof fn lemma_viscosity_pair_bound(
    pi: Vector2,
    pj: Vector2,
    vi: Vector2,
    vj: Vector2,
    density: int,
    h: int,
    axis: int,
)
    requires
        valid_radius(h),
        vector_in_range(vi),
        vector_in_range(vj),
        density >= 1,
    ensures
        abs(viscosity_pair(pi, pj, vi, vj, density, h, axis)) <= VISCOSITY_TERM_MAX,
{
    let r: int = floor_sqrt(dist2(pi, pj));
    if r < h {
        let l: int = viscosity_laplacian(r, h);
        let dv: int = axis_of(vj, axis) - axis_of(vi, axis);
        lemma_viscosity_bounds(r, h);
        lemma_mul_bound(dv, l, 2 * LIMIT, VISCOSITY_MAX as int);
    }
}

/// Action and reaction: between two particles of equal density the
/// pressure force on the one is the opposite of the force on the other.
pub proof fn lemma_pressure_pair_antisymmetric(
    pi: Vector2,
    pj: Vector2,
    s: int,
    density: int,
    h: int,
    axis: int,
)
    requires
        density >= 1,
    ensures
        pressure_pair(pj, pi, s, density, h, axis) == -pressure_pair(pi, pj, s, density, h, axis),
{
    lemma_dist2(pi, pj);
    let r: int = floor_sqrt(dist2(pi, pj));
    if 0 < r < h {
        let g: int = spiky_gradient(r, h);
        let d: int = axis_of(pi, axis) - axis_of(pj, axis);
        assert(s * g * (-d) == -(s * g * d)) by (nonlinear_arith);
    }
}

/// Where no pressure is above zero, no particle feels a pressure force: a
/// fluid at or below its rest density is at rest as far as pressure goes.
pub proof fn lemma_no_pressure_no_force(f: Fields, i: int, axis: int)
    requires
        0 <= i < f.len(),
        f.pressures.len() == f.len(),
        f.densities.len() == f.len(),
        forall|j: int| 0 <= j < f.len() ==> (#[trigger] f.pressures[j]) == 0,
        forall|j: int| 0 <= j < f.len() ==> (#[trigger] f.densities[j]) >= 1,
    ensures
        f.pressure_force(i, axis) == 0,
{
    let g = |j: int| f.pressure_term(i, j, axis);
    assert forall|j: int| 0 <= j < f.len() implies #[trigger] term(g, j) == 0 by {
        let r: int = floor_sqrt(dist2(f.positions[i], f.positions[j]));
        if j != i && f.is_neighbor(i, j) && 0 < r < f.radius {
            let s: int = f.pressures[i] + f.pressures[j];
            let sg: int = s * spiky_gradient(r, f.radius);
            assert(sg == 0) by (nonlinear_arith)
                requires
                    s == 0,
                    sg == s * spiky_gradient(r, f.radius),
            ;
            let d: int = axis_of(f.positions[i], axis) - axis_of(f.positions[j], axis);
            assert(sg * d == 0) by (nonlinear_arith)
                requires
                    sg == 0,
            ;
            assert(0int / r == 0) by (nonlinear_arith)
                requires
                    r > 0,
            ;
            assert(0int / (2 * f.densities[j]) == 0) by (nonlinear_arith)
                requires
                    f.densities[j] >= 1,
            ;
        }
    }
    crate::sums::lemma_range_sum_zero(g, f.len());
}

/// The pressure force between two particles along both axes.
pub fn pressure_pair_of(pi: &Vector2, pj: &Vector2, s: i64, density: i64, h: i64) -> (t: (
    i128,
    i128,
))
    requires
        valid_radius(h as int),
        vector_in_range(*pi),
        vector_in_range(*pj),
        0 <= s <= 2 * LIMIT,
        1 <= density <= LIMIT,
    ensures
        t.0 == pressure_pair(*pi, *pj, s as int, density as int, h as int, 0),
        t.1 == pressure_pair(*pi, *pj, s as int, density as int, h as int, 1),
        abs(t.0 as int) <= PRESSURE_TERM_MAX,
        abs(t.1 as int) <= PRESSURE_TERM_MAX,
{
    let r2: i128 = distance_squared(pi, pj);
    let root: u64 = isqrt(r2 as u128);
    proof {
        lemma_pressure_pair_bound(*pi, *pj, s as int, density as int, h as int, 0);
        lemma_pressure_pair_bound(*pi, *pj, s as int, density as int, h as int, 1);
    }
    if root == 0 || root >= h as u64 {
        return (0, 0);
    }
    let r: i64 = root as i64;
    let g: i64 = spiky_gradient_weight(r, h);
    let dx: i128 = pi.x as i128 - pj.x as i128;
    let dy: i128 = pi.y as i128 - pj.y as i128;
    proof {
        lemma_dist2(*pi, *pj);
        lemma_component_within_distance(dx as int, r2 as int, r as int);
        lemma_component_within_distance(dy as int, r2 as int, r as int);
        lemma_mul_bound(s as int, g as int, 2 * LIMIT, SPIKY_MAX as int);
        lemma_mul_bound(s * g, dx as int, PRESSURE_TERM_MAX as int, r as int);
        lemma_mul_bound(s * g, dy as int, PRESSURE_TERM_MAX as int, r as int);
    }
    let sg: i128 = (s as i128) * (g as i128);
    let tx: i128 = ((sg * dx) / (r as i128)) / (2 * (density as i128));
    let ty: i128 = ((sg * dy) / (r as i128)) / (2 * (density as i128));
    (tx, ty)
}

/// The viscosity term between two particles along both axes.
pub fn viscosity_pair_of(
    pi: &Vector2,
    pj: &Vector2,
    vi: &Vector2,
    vj: &Vector2,
    density: i64,
    h: i64,
) -> (t: (i128, i128))
    requires
        valid_radius(h as int),
        vector_in_range(*pi),
        vector_in_range(*pj),
        vector_in_range(*vi),
        vector_in_range(*vj),
        1 <= density <= LIMIT,
    ensures
        t.0 == viscosity_pair(*pi, *pj, *vi, *vj, density as int, h as int, 0),
        t.1 == viscosity_pair(*pi, *pj, *vi, *vj, density as int, h as int, 1),
        abs(t.0 as int) <= VISCOSITY_TERM_MAX,
        abs(t.1 as int) <= VISCOSITY_TERM_MAX,
{
    let r2: i128 = distance_squared(pi, pj);
    let root: u64 = isqrt(r2 as u128);
    proof {
        lemma_viscosity_pair_bound(*pi, *pj, *vi, *vj, density as int, h as int, 0);
        lemma_viscosity_pair_bound(*pi, *pj, *vi, *vj, density as int, h as int, 1);
    }
    if root >= h as u64 {
        return (0, 0);
    }
    let r: i64 = root as i64;
    let l: i64 = viscosity_laplacian_weight(r, h);
    let dvx: i128 = vj.x as i128 - vi.x as i128;
    let dvy: i128 = vj.y as i128 - vi.y as i128;
    proof {
        lemma_mul_bound(dvx as int, l as int, 2 * LIMIT, VISCOSITY_MAX as int);
        lemma_mul_bound(dvy as int, l as int, 2 * LIMIT, VISCOSITY_MAX as int);
    }
    let tx: i128 = (dvx * (l as i128)) / (density as i128);
    let ty: i128 = (dvy * (l as i128)) / (density as i128);
    (tx, ty)
}

/// The fields that the executable state of a step stands for.
pub open spec fn fields_of(
    index: &SpatialIndex,
    positions: &Vec<Vector2>,
    velocities: &Vec<Vector2>,
    densities: &Vec<i64>,
    pressures: &Vec<i64>,
    h: i64,
) -> Fields {
    Fields {
        predicted: index.points(),
        positions: positions@,
        velocities: velocities@,
        densities: densities@,
        pressures: pressures@,
        radius: h as int,
    }
}

/// The acceleration of the particle `i`; `None` where one of the forces on
/// it or the acceleration itself is too large to be stored.
pub fn acceleration_of(
    index: &SpatialIndex,
    positions: &Vec<Vector2>,
    velocities: &Vec<Vector2>,
    densities: &Vec<i64>,
    pressures: &Vec<i64>,
    gravity: Vector2,
    viscosity: i64,
    h: i64,
    i: usize,
) -> (r: Option<Vector2>)
    requires
        index.wf(),
        h <= index.cell_size(),
        fields_of(index, positions, velocities, densities, pressures, h).wf(),
        vector_in_range(gravity),
        0 <= viscosity <= LIMIT,
        i < positions.len(),
    ensures
        r is Some <==> fields_of(
            index,
            positions,
            velocities,
            densities,
            pressures,
            h,
        ).particle_in_range(gravity, viscosity as int, i as int),
        r matches Some(a) ==> a == fields_of(
            index,
            positions,
            velocities,
            densities,
            pressures,
            h,
        ).acceleration_vector(gravity, viscosity as int, i as int) && vector_in_range(a),
{
    let ghost f: Fields = fields_of(index, positions, velocities, densities, pressures, h);
    let ghost fpx: spec_fn(int) -> int = |j: int| f.pressure_term(i as int, j, 0);
    let ghost fpy: spec_fn(int) -> int = |j: int| f.pressure_term(i as int, j, 1);
    let ghost fvx: spec_fn(int) -> int = |j: int| f.viscosity_term(i as int, j, 0);
    let ghost fvy: spec_fn(int) -> int = |j: int| f.viscosity_term(i as int, j, 1);
    let n: usize = positions.len();
    let center: Vector2 = index.point(i);
    let pi: Vector2 = positions[i];
    let vi: Vector2 = velocities[i];
    let press_i: i64 = pressures[i];
    match index.query_neighbors(center, h) {
        Ok(ids) => {
            proof {
                lemma_distinct_ids_are_few(ids@, n as int);
            }
            let mut px: i128 = 0;
            let mut py: i128 = 0;
            let mut vx: i128 = 0;
            let mut vy: i128 = 0;
            let mut k: usize = 0;
            while k < ids.len()
                invariant
                    k <= ids.len() <= n,
                    n == positions.len(),
                    i < n,
                    f == fields_of(index, positions, velocities, densities, pressures, h),
                    f.wf(),
                    pi == positions[i as int],
                    vi == velocities[i as int],
                    press_i == pressures[i as int],
                    center == f.predicted[i as int],
                    is_neighbor_list(ids@, f.predicted, center, h as int),
                    fpx == (|j: int| f.pressure_term(i as int, j, 0)),
                    fpy == (|j: int| f.pressure_term(i as int, j, 1)),
                    fvx == (|j: int| f.viscosity_term(i as int, j, 0)),
                    fvy == (|j: int| f.viscosity_term(i as int, j, 1)),
                    px == list_sum(fpx, ids@.take(k as int)),
                    py == list_sum(fpy, ids@.take(k as int)),
                    vx == list_sum(fvx, ids@.take(k as int)),
                    vy == list_sum(fvy, ids@.take(k as int)),
                    abs(px as int) <= k * PRESSURE_TERM_MAX,
                    abs(py as int) <= k * PRESSURE_TERM_MAX,
                    abs(vx as int) <= k * VISCOSITY_TERM_MAX,
                    abs(vy as int) <= k * VISCOSITY_TERM_MAX,
                decreases ids.len() - k,
            {
                let j: usize = ids[k];
                let pj: Vector2 = positions[j];
                let vj: Vector2 = velocities[j];
                let dens_j: i64 = densities[j];
                let tv: (i128, i128) = viscosity_pair_of(&pi, &pj, &vi, &vj, dens_j, h);
                let tp: (i128, i128) = if j == i {
                    (0, 0)
                } else {
                    pressure_pair_of(&pi, &pj, press_i + pressures[j], dens_j, h)
                };
                proof {
                    lemma_list_sum_push(fpx, ids@.take(k as int), j);
                    lemma_list_sum_push(fpy, ids@.take(k as int), j);
                    lemma_list_sum_push(fvx, ids@.take(k as int), j);
                    lemma_list_sum_push(fvy, ids@.take(k as int), j);
                    assert(ids@.take(k + 1) =~= ids@.take(k as int).push(j));
                }
                px = px + tp.0;
                py = py + tp.1;
                vx = vx + tv.0;
                vy = vy + tv.1;
                k = k + 1;
            }
            proof {
                assert(ids@.take(ids.len() as int) =~= ids@);
                assert forall|j: int| 0 <= j < n && #[trigger] term(fpx, j) != 0 implies ids@.contains(
                    j as usize,
                ) by {
                    assert(f.is_neighbor(i as int, j));
                }
                assert forall|j: int| 0 <= j < n && #[trigger] term(fpy, j) != 0 implies ids@.contains(
                    j as usize,
                ) by {
                    assert(f.is_neighbor(i as int, j));
                }
                assert forall|j: int| 0 <= j < n && #[trigger] term(fvx, j) != 0 implies ids@.contains(
                    j as usize,
                ) by {
                    assert(f.is_neighbor(i as int, j));
                }
                assert forall|j: int| 0 <= j < n && #[trigger] term(fvy, j) != 0 implies ids@.contains(
                    j as usize,
                ) by {
                    assert(f.is_neighbor(i as int, j));
                }
                lemma_list_sum_covers(fpx, ids@, n as int);
                lemma_list_sum_covers(fpy, ids@, n as int);
                lemma_list_sum_covers(fvx, ids@, n as int);
                lemma_list_sum_covers(fvy, ids@, n as int);
            }
            let limit: i128 = LIMIT as i128;
            if px < -limit || px > limit || py < -limit || py > limit || vx < -limit || vx > limit
                || vy < -limit || vy > limit {
                return None;
            }
            let dens_i: i64 = densities[i];
            proof {
                lemma_mul_bound(viscosity as int, vx as int, LIMIT as int, LIMIT as int);
                lemma_mul_bound(viscosity as int, vy as int, LIMIT as int, LIMIT as int);
            }
            let fx: i128 = px + scaled_mul(viscosity, vx as i64);
            let fy: i128 = py + scaled_mul(viscosity, vy as i64);
            proof {
                lemma_trunc_div_bound(fx * SCALE, dens_i as int);
                lemma_trunc_div_bound(fy * SCALE, dens_i as int);
            }
            let ax: i128 = gravity.x as i128 + (fx * (SCALE as i128)) / (dens_i as i128);
            let ay: i128 = gravity.y as i128 + (fy * (SCALE as i128)) / (dens_i as i128);
            if ax < -limit || ax > limit || ay < -limit || ay > limit {
                return None;
            }
            Some(Vector2 { x: ax as i64, y: ay as i64 })
        },
        Err(_) => {
            proof {
                index.lemma_points_within_limit();
                assert(false);
            }
            None
        },
    }
}

} // verus!
