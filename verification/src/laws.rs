//! What holds of every step.
//!
//! The lemmas of this module relate the stages of a step to one another.
//! They speak of the fields of a step, `step_fields`, and of its outcome,
//! `stepped_position` and `stepped_velocity`, as the contract of
//! `Fluid::step` does.

use vstd::prelude::*;
use crate::density::{density_at, density_term, lemma_density_positive};
use crate::fixed::{abs, fixed_mul, lemma_trunc_div_bound, LIMIT, SCALE};
use crate::fluid::{
    predicted_positions, step_fields, stepped, stepped_position, Config, FluidState,
};
use crate::forces::{axis_of, lemma_no_pressure_no_force, Fields};
use crate::integrator::{advanced_velocity, free_position, resolved_position};
use crate::kernel::{lemma_poly6_bounds, poly6};
use crate::sums::{lemma_range_sum_single, lemma_range_sum_zero, term};
use crate::vector::{dist2, lemma_dist2, vector_in_range, Vector2};

verus! {

/// After a step every particle lies within the boundary, edges included,
/// and every density is above zero.
pub proof fn lemma_step_keeps_particles_inside(pre: FluidState, post: FluidState, dt: int, i: int)
    requires
        stepped(pre, post, dt),
        0 <= i < pre.positions.len(),
    ensures
        pre.config.boundary.contains(post.positions[i]),
        post.densities[i] > 0,
{
}

/// A fluid at rest stays at rest as far as pressure goes: where no density
/// is above the rest density, no particle feels a pressure force, and
/// without viscosity the acceleration of every particle is gravity alone.
pub proof fn lemma_rest_state_is_equilibrium(
    config: Config,
    positions: Seq<Vector2>,
    velocities: Seq<Vector2>,
    dt: int,
    i: int,
    axis: int,
)
    requires
        config.valid(),
        positions.len() == velocities.len(),
        0 <= i < positions.len(),
        forall|j: int|
            0 <= j < positions.len() ==> #[trigger] density_at(
                predicted_positions(positions, velocities, dt),
                config.smoothing_radius as int,
                j,
            ) <= config.rest_density,
    ensures
        step_fields(config, positions, velocities, dt).pressure_force(i, axis) == 0,
        config.viscosity == 0 ==> step_fields(config, positions, velocities, dt).acceleration(
            config.gravity,
            config.viscosity as int,
            i,
            axis,
        ) == axis_of(config.gravity, axis),
{
    let f: Fields = step_fields(config, positions, velocities, dt);
    let h: int = config.smoothing_radius as int;
    assert forall|j: int| 0 <= j < f.len() implies (#[trigger] f.densities[j]) >= 1
        && f.pressures[j] == 0 by {
        lemma_density_positive(f.predicted, h, j);
    }
    lemma_no_pressure_no_force(f, i, axis);
    if config.viscosity == 0 {
        // Neither force acts: zero over the density is zero.
        assert(0int / (f.densities[i] as int) == 0) by (nonlinear_arith)
            requires
                f.densities[i] >= 1,
        ;
    }
}

/// A particle with no other particle in reach feels gravity alone: the
/// density at it is its own weight, and neither pressure nor viscosity
/// acts on it.
pub proof fn lemma_lone_particle_feels_gravity(
    config: Config,
    positions: Seq<Vector2>,
    velocities: Seq<Vector2>,
    dt: int,
    i: int,
    axis: int,
)
    requires
        config.valid(),
        positions.len() == velocities.len(),
        0 <= i < positions.len(),
        forall|j: int|
            0 <= j < positions.len() && j != i ==> !#[trigger] step_fields(
                config,
                positions,
                velocities,
                dt,
            ).is_neighbor(i, j),
    ensures
        step_fields(config, positions, velocities, dt).acceleration(
            config.gravity,
            config.viscosity as int,
            i,
            axis,
        ) == axis_of(config.gravity, axis),
        step_fields(config, positions, velocities, dt).pressure_force(i, axis) == 0,
        step_fields(config, positions, velocities, dt).viscosity_sum(i, axis) == 0,
        density_at(
            predicted_positions(positions, velocities, dt),
            config.smoothing_radius as int,
            i,
        ) == poly6(0, config.smoothing_radius as int),
        step_fields(config, positions, velocities, dt).densities[i] == poly6(
            0,
            config.smoothing_radius as int,
        ),
{
    let f: Fields = step_fields(config, positions, velocities, dt);
    let h: int = config.smoothing_radius as int;
    let n: int = positions.len() as int;
    // The density at the particle is its own weight.
    let fd = |j: int| density_term(f.predicted, h, i, j);
    assert forall|j: int| 0 <= j < n && j != i implies #[trigger] term(fd, j) == 0 by {
        assert(!f.is_neighbor(i, j));
        lemma_dist2(f.predicted[i], f.predicted[j]);
    }
    lemma_range_sum_single(fd, n, i);
    lemma_poly6_bounds(0, h);
    lemma_density_positive(f.predicted, h, i);
    // No other particle pushes it.
    let fp = |j: int| f.pressure_term(i, j, axis);
    assert forall|j: int| 0 <= j < n implies #[trigger] term(fp, j) == 0 by {
        if j != i {
            assert(!f.is_neighbor(i, j));
        }
    }
    lemma_range_sum_zero(fp, n);
    // Nor drags it along: the particle does not move against itself.
    let fv = |j: int| f.viscosity_term(i, j, axis);
    assert forall|j: int| 0 <= j < n implies #[trigger] term(fv, j) == 0 by {
        if j != i {
            assert(!f.is_neighbor(i, j));
        } else if f.is_neighbor(i, i) {
            let l: int = crate::kernel::viscosity_laplacian(
                crate::fixed::floor_sqrt(dist2(f.positions[i], f.positions[i])),
                h,
            );
            assert(0 * l == 0);
            assert(0int / (f.densities[i] as int) == 0) by (nonlinear_arith)
                requires
                    f.densities[i] >= 1,
            ;
        }
    }
    lemma_range_sum_zero(fv, n);
    assert(0int / (f.densities[i] as int) == 0) by (nonlinear_arith)
        requires
            f.densities[i] >= 1,
    ;
}

/// The magnitude of a fixed-point product is the product of the
/// magnitudes, rounded down.
pub proof fn lemma_fixed_mul_magnitude(a: int, b: int)
    requires
        b >= 0,
    ensures
        abs(fixed_mul(a, b)) == abs(a) * b / (SCALE as int),
{
    if a >= 0 {
        assert(a * b >= 0) by (nonlinear_arith)
            requires
                a >= 0,
                b >= 0,
        ;
    } else {
        assert(a * b <= 0 && -(a * b) == (-a) * b) by (nonlinear_arith)
            requires
                a < 0,
                b >= 0,
        ;
        if a * b == 0 {
            assert(0int / (SCALE as int) == 0);
        } else {
            lemma_trunc_div_bound(a * b, SCALE as int);
        }
    }
}

/// A particle that starts inside the boundary with no other particle in
/// reach moves, along each axis, no further than its speed and gravity
/// allow: the change of position is at most
/// `(|velocity| + |gravity| * dt) * dt`, every product rounded down.
pub proof fn lemma_lone_particle_displacement(
    config: Config,
    positions: Seq<Vector2>,
    velocities: Seq<Vector2>,
    dt: int,
    i: int,
)
    requires
        config.valid(),
        0 < dt <= LIMIT,
        positions.len() == velocities.len(),
        0 <= i < positions.len(),
        vector_in_range(velocities[i]),
        config.boundary.contains(positions[i]),
        forall|j: int|
            0 <= j < positions.len() && j != i ==> !#[trigger] step_fields(
                config,
                positions,
                velocities,
                dt,
            ).is_neighbor(i, j),
    ensures
        abs(
            stepped_position(config, step_fields(config, positions, velocities, dt), dt, i).x
                - positions[i].x,
        ) <= (abs(velocities[i].x as int) + abs(config.gravity.x as int) * dt / (SCALE as int))
            * dt / (SCALE as int),
        abs(
            stepped_position(config, step_fields(config, positions, velocities, dt), dt, i).y
                - positions[i].y,
        ) <= (abs(velocities[i].y as int) + abs(config.gravity.y as int) * dt / (SCALE as int))
            * dt / (SCALE as int),
{
    lemma_lone_particle_feels_gravity(config, positions, velocities, dt, i, 0);
    lemma_lone_particle_feels_gravity(config, positions, velocities, dt, i, 1);
    lemma_axis_displacement(
        positions[i].x as int,
        velocities[i].x as int,
        config.gravity.x as int,
        dt,
        config.boundary.min.x as int,
        config.boundary.max.x as int,
    );
    lemma_axis_displacement(
        positions[i].y as int,
        velocities[i].y as int,
        config.gravity.y as int,
        dt,
        config.boundary.min.y as int,
        config.boundary.max.y as int,
    );
}

/// Along one axis, a particle inside the boundary moves no further than
/// its speed and its acceleration allow.
pub proof fn lemma_axis_displacement(x: int, v: int, a: int, dt: int, lo: int, hi: int)
    requires
        lo <= x <= hi,
        dt > 0,
    ensures
        abs(resolved_position(free_position(x, advanced_velocity(v, a, dt), dt), lo, hi) - x) <= (
        abs(v) + abs(a) * dt / (SCALE as int)) * dt / (SCALE as int),
{
    let v1: int = advanced_velocity(v, a, dt);
    lemma_fixed_mul_magnitude(a, dt);
    lemma_fixed_mul_magnitude(v1, dt);
    let bound: int = abs(v) + abs(a) * dt / (SCALE as int);
    assert(abs(v1) * dt <= bound * dt) by (nonlinear_arith)
        requires
            0 <= abs(v1) <= bound,
            dt > 0,
    ;
}

} // verus!
