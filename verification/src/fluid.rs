//! The fluid simulation.
//!
//! A `Fluid` owns the particles and their configuration. One call of
//! `step` takes the particles through the five stages of a time step:
//! the positions are projected ahead, the spatial index is rebuilt from the
//! projected positions, the density and the pressure at every particle are
//! computed, then the acceleration of every particle, and at last the
//! velocities and positions are advanced and the boundary is enforced.
//!
//! A step either happens as a whole or not at all: where a time step is
//! refused, or a quantity leaves the representable range on the way, the
//! particles stay as they were.

use vstd::prelude::*;
use crate::density::{
    compute_densities, compute_pressures, densities_in_range, density_at, pressure_of,
    pressures_in_range,
};
use crate::error::FluidError;
use crate::fixed::{fixed_mul, in_range, lemma_mul_bound, scaled_mul, LIMIT, SCALE};
use crate::forces::{acceleration_of, fields_of, Fields, MAX_PARTICLES};
use crate::integrator::{
    integrate_particle, integrated_position, integrated_velocity, velocity_advances, Boundary,
};
use crate::kernel::{valid_radius, MAX_RADIUS, MIN_RADIUS};
use crate::spatial::SpatialIndex;
use crate::vector::{between, is_in_range, vector_in_range, within_coord_limit, Vector2};

verus! {

/// What a simulation is set up with.
#[derive(Debug, Copy, Clone, PartialEq, Eq, Structural)]
pub struct Config {
    /// The number of particles, fixed for the life of the simulation.
    pub particle_count: usize,
    /// The smoothing radius, which is also the cell size of the spatial
    /// index.
    pub smoothing_radius: i64,
    /// The density at which the fluid is at rest.
    pub rest_density: i64,
    /// The stiffness of the equation of state.
    pub stiffness: i64,
    /// The viscosity coefficient.
    pub viscosity: i64,
    /// The rectangle that holds the fluid.
    pub boundary: Boundary,
    /// The acceleration of gravity.
    pub gravity: Vector2,
    /// The share of its speed that a particle keeps when it bounces off
    /// the boundary, from zero to one.
    pub restitution: i64,
}

impl Config {
    /// Whether the configuration describes a simulation: at least one
    /// particle and no more than `MAX_PARTICLES`, a smoothing radius from
    /// `MIN_RADIUS` to `MAX_RADIUS`, coefficients that are not negative, a
    /// boundary with an interior, and every value within `LIMIT`.
    pub open spec fn valid(self) -> bool {
        &&& 0 < self.particle_count <= MAX_PARTICLES
        &&& valid_radius(self.smoothing_radius as int)
        &&& 0 <= self.rest_density <= LIMIT
        &&& 0 <= self.stiffness <= LIMIT
        &&& 0 <= self.viscosity <= LIMIT
        &&& self.boundary.valid()
        &&& vector_in_range(self.gravity)
        &&& 0 <= self.restitution <= SCALE
    }

    /// Whether the configuration describes a simulation.
    pub fn is_valid(&self) -> (b: bool)
        ensures
            b == self.valid(),
    {
        self.particle_count > 0 && self.particle_count <= MAX_PARTICLES && self.smoothing_radius
            >= MIN_RADIUS && self.smoothing_radius <= MAX_RADIUS && self.rest_density >= 0
            && self.rest_density <= LIMIT && self.stiffness >= 0 && self.stiffness <= LIMIT
            && self.viscosity >= 0 && self.viscosity <= LIMIT && self.boundary.is_valid()
            && is_in_range(&self.gravity) && self.restitution >= 0 && self.restitution <= SCALE
    }
}

/// The state of a simulation, as its contracts speak of it.
pub struct FluidState {
    /// The configuration.
    pub config: Config,
    /// The position of each particle.
    pub positions: Seq<Vector2>,
    /// The velocity of each particle.
    pub velocities: Seq<Vector2>,
    /// The positions that the last step projected; empty before the first.
    pub predicted: Seq<Vector2>,
    /// The densities that the last step found; empty before the first.
    pub densities: Seq<i64>,
    /// The pressures that the last step found; empty before the first.
    pub pressures: Seq<i64>,
}

/// The position of a particle projected ahead by the time `dt`.
pub open spec fn predicted_position(p: Vector2, v: Vector2, dt: int) -> Vector2 {
    Vector2 {
        x: (p.x + fixed_mul(v.x as int, dt)) as i64,
        y: (p.y + fixed_mul(v.y as int, dt)) as i64,
    }
}

/// The positions of all particles projected ahead by the time `dt`.
pub open spec fn predicted_positions(
    positions: Seq<Vector2>,
    velocities: Seq<Vector2>,
    dt: int,
) -> Seq<Vector2> {
    Seq::new(positions.len(), |i: int| predicted_position(positions[i], velocities[i], dt))
}

/// The density at every particle.
pub open spec fn density_field(predicted: Seq<Vector2>, h: int) -> Seq<i64> {
    Seq::new(predicted.len(), |i: int| density_at(predicted, h, i) as i64)
}

/// The pressure at every particle.
pub open spec fn pressure_field(densities: Seq<i64>, rest_density: int, stiffness: int) -> Seq<
    i64,
> {
    Seq::new(
        densities.len(),
        |i: int| pressure_of(densities[i] as int, rest_density, stiffness) as i64,
    )
}

/// The fields of a step: what the first three stages make of the
/// particles.
pub open spec fn step_fields(
    config: Config,
    positions: Seq<Vector2>,
    velocities: Seq<Vector2>,
    dt: int,
) -> Fields {
    let predicted: Seq<Vector2> = predicted_positions(positions, velocities, dt);
    let densities: Seq<i64> = density_field(predicted, config.smoothing_radius as int);
    Fields {
        predicted,
        positions,
        velocities,
        densities,
        pressures: pressure_field(
            densities,
            config.rest_density as int,
            config.stiffness as int,
        ),
        radius: config.smoothing_radius as int,
    }
}

/// Whether the particle `i` can be taken through the last two stages: the
/// forces on it, its acceleration and its new velocity can all be stored.
pub open spec fn particle_steps(config: Config, f: Fields, dt: int, i: int) -> bool {
    &&& f.particle_in_range(config.gravity, config.viscosity as int, i)
    &&& velocity_advances(
        f.velocities[i],
        f.acceleration_vector(config.gravity, config.viscosity as int, i),
        dt,
    )
}

/// Whether a step can be taken: every quantity that it derives can be
/// stored.
pub open spec fn step_representable(
    config: Config,
    positions: Seq<Vector2>,
    velocities: Seq<Vector2>,
    dt: int,
) -> bool {
    let f: Fields = step_fields(config, positions, velocities, dt);
    &&& densities_in_range(f.predicted, config.smoothing_radius as int)
    &&& pressures_in_range(f.densities, config.rest_density as int, config.stiffness as int)
    &&& forall|i: int| 0 <= i < positions.len() ==> #[trigger] particle_steps(config, f, dt, i)
}

/// The position of the particle `i` after the step.
pub open spec fn stepped_position(config: Config, f: Fields, dt: int, i: int) -> Vector2 {
    integrated_position(
        f.positions[i],
        f.velocities[i],
        f.acceleration_vector(config.gravity, config.viscosity as int, i),
        dt,
        config.boundary,
    )
}

/// The velocity of the particle `i` after the step.
pub open spec fn stepped_velocity(config: Config, f: Fields, dt: int, i: int) -> Vector2 {
    integrated_velocity(
        f.positions[i],
        f.velocities[i],
        f.acceleration_vector(config.gravity, config.viscosity as int, i),
        dt,
        config.boundary,
        config.restitution as int,
    )
}

/// Why a step of `dt` from the state `pre` is refused, if it is: a time
/// step that is not positive or is beyond `LIMIT` is invalid, and a
/// quantity that cannot be stored is a numeric degeneracy.
pub open spec fn step_error(pre: FluidState, dt: int) -> Option<FluidError> {
    if dt <= 0 || dt > LIMIT {
        Some(FluidError::InvalidTimeStep)
    } else if !step_representable(pre.config, pre.positions, pre.velocities, dt) {
        Some(FluidError::NumericDegeneracy)
    } else {
        None
    }
}

/// Whether `post` is the state that a step of `dt` makes of `pre`.
pub open spec fn stepped(pre: FluidState, post: FluidState, dt: int) -> bool {
    let f: Fields = step_fields(pre.config, pre.positions, pre.velocities, dt);
    &&& post.config == pre.config
    &&& post.predicted == f.predicted
    &&& post.densities == f.densities
    &&& post.pressures == f.pressures
    &&& post.positions.len() == pre.positions.len()
    &&& post.velocities.len() == pre.positions.len()
    &&& forall|i: int|
        0 <= i < pre.positions.len() ==> {
            &&& (#[trigger] post.positions[i]) == stepped_position(pre.config, f, dt, i)
            &&& pre.config.boundary.contains(post.positions[i])
        }
    &&& forall|i: int|
        0 <= i < pre.positions.len() ==> (#[trigger] post.velocities[i]) == stepped_velocity(
            pre.config,
            f,
            dt,
            i,
        )
    &&& forall|i: int| 0 <= i < pre.positions.len() ==> (#[trigger] post.densities[i]) > 0
}

/// Whether every vector of `vs` can be stored.
pub open spec fn all_in_range(vs: Seq<Vector2>) -> bool {
    forall|i: int| 0 <= i < vs.len() ==> vector_in_range(#[trigger] vs[i])
}

/// Whether every vector of `vs` can be stored.
pub fn check_all_in_range(vs: &Vec<Vector2>) -> (b: bool)
    ensures
        b == all_in_range(vs@),
{
    let mut i: usize = 0;
    while i < vs.len()
        invariant
            i <= vs.len(),
            forall|j: int| 0 <= j < i ==> vector_in_range(#[trigger] vs@[j]),
        decreases vs.len() - i,
    {
        if !is_in_range(&vs[i]) {
            return false;
        }
        i = i + 1;
    }
    true
}

/// A copy of the vectors of `vs`.
pub fn copy_vectors(vs: &Vec<Vector2>) -> (r: Vec<Vector2>)
    ensures
        r@ == vs@,
{
    let mut r: Vec<Vector2> = Vec::with_capacity(vs.len());
    let mut i: usize = 0;
    while i < vs.len()
        invariant
            i <= vs.len(),
            r.len() == i,
            forall|j: int| 0 <= j < i ==> r@[j] == vs@[j],
        decreases vs.len() - i,
    {
        r.push(vs[i]);
        i = i + 1;
    }
    proof {
        assert(r@ =~= vs@);
    }
    r
}

/// The positions of all particles projected ahead by the time `dt`.
pub fn predict_positions(positions: &Vec<Vector2>, velocities: &Vec<Vector2>, dt: i64) -> (r: Vec<
    Vector2,
>)
    requires
        positions.len() == velocities.len(),
        all_in_range(positions@),
        all_in_range(velocities@),
        0 < dt <= LIMIT,
    ensures
        r@ == predicted_positions(positions@, velocities@, dt as int),
        forall|i: int| 0 <= i < r.len() ==> within_coord_limit(#[trigger] r@[i]),
{
    let n: usize = positions.len();
    let mut r: Vec<Vector2> = Vec::with_capacity(n);
    let mut i: usize = 0;
    while i < n
        invariant
            i <= n,
            n == positions.len(),
            n == velocities.len(),
            all_in_range(positions@),
            all_in_range(velocities@),
            0 < dt <= LIMIT,
            r.len() == i,
            forall|j: int|
                0 <= j < i ==> (#[trigger] r@[j]) == predicted_position(
                    positions@[j],
                    velocities@[j],
                    dt as int,
                ) && within_coord_limit(r@[j]),
        decreases n - i,
    {
        let p: Vector2 = positions[i];
        let v: Vector2 = velocities[i];
        proof {
            lemma_mul_bound(v.x as int, dt as int, LIMIT as int, LIMIT as int);
            lemma_mul_bound(v.y as int, dt as int, LIMIT as int, LIMIT as int);
        }
        let x: i128 = p.x as i128 + scaled_mul(v.x, dt);
        let y: i128 = p.y as i128 + scaled_mul(v.y, dt);
        r.push(Vector2 { x: x as i64, y: y as i64 });
        i = i + 1;
    }
    proof {
        assert(r@ =~= predicted_positions(positions@, velocities@, dt as int));
    }
    r
}

/// A fluid: a fixed number of particles and the configuration that they
/// move under.
#[derive(Debug, Clone)]
pub struct Fluid {
    config: Config,
    positions: Vec<Vector2>,
    velocities: Vec<Vector2>,
    densities: Vec<i64>,
    pressures: Vec<i64>,
    index: SpatialIndex,
}

impl View for Fluid {
    type V = FluidState;

    closed spec fn view(&self) -> FluidState {
        FluidState {
            config: self.config,
            positions: self.positions@,
            velocities: self.velocities@,
            predicted: self.index.points(),
            densities: self.densities@,
            pressures: self.pressures@,
        }
    }
}

impl Fluid {
    /// The invariant of a fluid: a valid configuration, as many positions
    /// and velocities as it counts particles, and every one of them within
    /// `LIMIT`.
    pub closed spec fn wf(&self) -> bool {
        &&& self.config.valid()
        &&& self.positions.len() == self.config.particle_count
        &&& self.velocities.len() == self.config.particle_count
        &&& all_in_range(self.positions@)
        &&& all_in_range(self.velocities@)
        &&& self.index.wf()
    }

    /// What the invariant says of the state.
    pub proof fn lemma_wf(&self)
        requires
            self.wf(),
        ensures
            self@.config.valid(),
            self@.positions.len() == self@.config.particle_count,
            self@.velocities.len() == self@.config.particle_count,
            all_in_range(self@.positions),
            all_in_range(self@.velocities),
    {
    }

    /// A fluid of the given particles. The configuration must be valid,
    /// there must be as many positions and as many velocities as it counts
    /// particles, and every one of them must be within `LIMIT`; anything
    /// else is an invalid configuration.
    pub fn new(config: Config, positions: Vec<Vector2>, velocities: Vec<Vector2>) -> (r: Result<
        Fluid,
        FluidError,
    >)
        ensures
            r is Ok <==> {
                &&& config.valid()
                &&& positions.len() == config.particle_count
                &&& velocities.len() == config.particle_count
                &&& all_in_range(positions@)
                &&& all_in_range(velocities@)
            },
            r matches Err(e) ==> e == FluidError::InvalidConfiguration,
            r matches Ok(fluid) ==> {
                &&& fluid.wf()
                &&& fluid@.config == config
                &&& fluid@.positions == positions@
                &&& fluid@.velocities == velocities@
                &&& fluid@.predicted.len() == 0
                &&& fluid@.densities.len() == 0
                &&& fluid@.pressures.len() == 0
            },
    {
        if !config.is_valid() || positions.len() != config.particle_count || velocities.len()
            != config.particle_count {
            return Err(FluidError::InvalidConfiguration);
        }
        if !check_all_in_range(&positions) || !check_all_in_range(&velocities) {
            return Err(FluidError::InvalidConfiguration);
        }
        Ok(
            Fluid {
                config,
                positions,
                velocities,
                densities: Vec::new(),
                pressures: Vec::new(),
                index: SpatialIndex::new(),
            },
        )
    }

    /// A fluid of particles at random: every position and every velocity
    /// is drawn with both components between `lower` and `upper`. The
    /// configuration must be valid and the two limits within `LIMIT`;
    /// anything else is an invalid configuration.
    pub fn new_random(config: Config, lower: i64, upper: i64) -> (r: Result<Fluid, FluidError>)
        ensures
            r is Ok <==> config.valid() && in_range(lower as int) && in_range(upper as int),
            r matches Err(e) ==> e == FluidError::InvalidConfiguration,
            r matches Ok(fluid) ==> {
                &&& fluid.wf()
                &&& fluid@.config == config
                &&& fluid@.positions.len() == config.particle_count
                &&& fluid@.velocities.len() == config.particle_count
                &&& forall|i: int|
                    0 <= i < config.particle_count ==> between(
                        (#[trigger] fluid@.positions[i]).x as int,
                        lower as int,
                        upper as int,
                    ) && between(fluid@.positions[i].y as int, lower as int, upper as int)
                &&& forall|i: int|
                    0 <= i < config.particle_count ==> between(
                        (#[trigger] fluid@.velocities[i]).x as int,
                        lower as int,
                        upper as int,
                    ) && between(fluid@.velocities[i].y as int, lower as int, upper as int)
            },
    {
        if !config.is_valid() || lower < -LIMIT || lower > LIMIT || upper < -LIMIT || upper
            > LIMIT {
            return Err(FluidError::InvalidConfiguration);
        }
        let n: usize = config.particle_count;
        let mut positions: Vec<Vector2> = Vec::with_capacity(n);
        let mut velocities: Vec<Vector2> = Vec::with_capacity(n);
        let mut i: usize = 0;
        while i < n
            invariant
                i <= n,
                in_range(lower as int),
                in_range(upper as int),
                positions.len() == i,
                velocities.len() == i,
                forall|j: int|
                    0 <= j < i ==> between(
                        (#[trigger] positions@[j]).x as int,
                        lower as int,
                        upper as int,
                    ) && between(positions@[j].y as int, lower as int, upper as int),
                forall|j: int|
                    0 <= j < i ==> between(
                        (#[trigger] velocities@[j]).x as int,
                        lower as int,
                        upper as int,
                    ) && between(velocities@[j].y as int, lower as int, upper as int),
            decreases n - i,
        {
            positions.push(Vector2::random_with_limits(lower, upper));
            velocities.push(Vector2::random_with_limits(lower, upper));
            i = i + 1;
        }
        Ok(
            Fluid {
                config,
                positions,
                velocities,
                densities: Vec::new(),
                pressures: Vec::new(),
                index: SpatialIndex::new(),
            },
        )
    }

    /// The configuration.
    pub fn config(&self) -> (c: Config)
        ensures
            c == self@.config,
    {
        self.config
    }

    /// The number of particles.
    pub fn number_of_particles(&self) -> (n: usize)
        ensures
            n == self@.config.particle_count,
    {
        self.config.particle_count
    }

    /// The position of every particle, in the order of the particle ids.
    pub fn positions(&self) -> (r: &Vec<Vector2>)
        ensures
            r@ == self@.positions,
    {
        &self.positions
    }

    /// The velocity of every particle.
    pub fn velocities(&self) -> (r: &Vec<Vector2>)
        ensures
            r@ == self@.velocities,
    {
        &self.velocities
    }

    /// The density that the last step found at every particle; empty
    /// before the first step.
    pub fn densities(&self) -> (r: &Vec<i64>)
        ensures
            r@ == self@.densities,
    {
        &self.densities
    }

    /// The pressure that the last step found at every particle; empty
    /// before the first step.
    pub fn pressures(&self) -> (r: &Vec<i64>)
        ensures
            r@ == self@.pressures,
    {
        &self.pressures
    }

    /// The positions that the last step projected; empty before the first
    /// step.
    pub fn predicted_positions(&self) -> (r: Vec<Vector2>)
        requires
            self.wf(),
        ensures
            r@ == self@.predicted,
    {
        let n: usize = self.index.len();
        let mut r: Vec<Vector2> = Vec::with_capacity(n);
        let mut i: usize = 0;
        while i < n
            invariant
                i <= n,
                n == self.index.points().len(),
                r.len() == i,
                forall|j: int| 0 <= j < i ==> r@[j] == self.index.points()[j],
            decreases n - i,
        {
            r.push(self.index.point(i));
            i = i + 1;
        }
        proof {
            assert(r@ =~= self.index.points());
        }
        r
    }

    /// Reads or sets gravity. With `None` the present gravity is returned
    /// and nothing changes. With a new value gravity is set and `None` is
    /// returned, unless a component of the value is beyond `LIMIT`: then
    /// nothing changes and the present gravity is returned.
    pub fn gravity(&mut self, new_value: Option<Vector2>) -> (r: Option<Vector2>)
        requires
            old(self).wf(),
        ensures
            final(self).wf(),
            match new_value {
                Some(value) => if vector_in_range(value) {
                    &&& r is None
                    &&& final(self)@ == (FluidState {
                        config: (Config { gravity: value, ..old(self)@.config }),
                        ..old(self)@
                    })
                } else {
                    &&& r == Some(old(self)@.config.gravity)
                    &&& *final(self) == *old(self)
                },
                None => {
                    &&& r == Some(old(self)@.config.gravity)
                    &&& *final(self) == *old(self)
                },
            },
    {
        match new_value {
            Some(value) => {
                if is_in_range(&value) {
                    self.config.gravity = value;
                    None
                } else {
                    Some(self.config.gravity)
                }
            },
            None => Some(self.config.gravity),
        }
    }

    /// Advances the fluid by the time `dt`. A time step that is not
    /// positive or is beyond `LIMIT` is refused as invalid; a step on which
    /// a density, a pressure, a force, an acceleration or a velocity would
    /// leave the representable range is refused as a numeric degeneracy. A
    /// step that is refused changes nothing. After a step that is taken
    /// every particle lies within the boundary.
    pub fn step(&mut self, dt: i64) -> (r: Result<(), FluidError>)
        requires
            old(self).wf(),
        ensures
            final(self).wf(),
            match r {
                Ok(()) => step_error(old(self)@, dt as int) is None && stepped(
                    old(self)@,
                    final(self)@,
                    dt as int,
                ),
                Err(e) => step_error(old(self)@, dt as int) == Some(e) && *final(self) == *old(
                    self,
                ),
            },
    {
        if dt <= 0 || dt > LIMIT {
            return Err(FluidError::InvalidTimeStep);
        }
        let h: i64 = self.config.smoothing_radius;
        let n: usize = self.positions.len();
        let ghost pre: FluidState = self@;
        let ghost f: Fields = step_fields(pre.config, pre.positions, pre.velocities, dt as int);
        let predicted: Vec<Vector2> = predict_positions(&self.positions, &self.velocities, dt);
        let mut index: SpatialIndex = SpatialIndex::new();
        match index.build(predicted, h) {
            Ok(()) => {},
            Err(_) => {
                proof {
                    assert(false);
                }
                return Err(FluidError::NumericDegeneracy);
            },
        }
        let densities: Vec<i64> = match compute_densities(&index, h) {
            Ok(d) => d,
            Err(e) => {
                return Err(e);
            },
        };
        proof {
            assert(densities@ =~= f.densities);
        }
        let pressures: Vec<i64> = match compute_pressures(
            &densities,
            self.config.rest_density,
            self.config.stiffness,
        ) {
            Ok(p) => p,
            Err(e) => {
                return Err(e);
            },
        };
        proof {
            assert(pressures@ =~= f.pressures);
        }
        let mut positions: Vec<Vector2> = Vec::with_capacity(n);
        let mut velocities: Vec<Vector2> = Vec::with_capacity(n);
        let mut i: usize = 0;
        while i < n
            invariant
                i <= n,
                n == self.positions.len(),
                *self == *old(self),
                self.wf(),
                pre == self@,
                0 < dt <= LIMIT,
                h == self.config.smoothing_radius,
                index.wf(),
                h <= index.cell_size(),
                f == step_fields(pre.config, pre.positions, pre.velocities, dt as int),
                f == fields_of(&index, &self.positions, &self.velocities, &densities, &pressures, h),
                f.wf(),
                positions.len() == i,
                velocities.len() == i,
                forall|j: int| 0 <= j < i ==> #[trigger] particle_steps(pre.config, f, dt as int, j),
                forall|j: int|
                    0 <= j < i ==> {
                        &&& (#[trigger] positions@[j]) == stepped_position(
                            pre.config,
                            f,
                            dt as int,
                            j,
                        )
                        &&& pre.config.boundary.contains(positions@[j])
                        &&& vector_in_range(positions@[j])
                    },
                forall|j: int|
                    0 <= j < i ==> {
                        &&& (#[trigger] velocities@[j]) == stepped_velocity(
                            pre.config,
                            f,
                            dt as int,
                            j,
                        )
                        &&& vector_in_range(velocities@[j])
                    },
            decreases n - i,
        {
            let a: Vector2 = match acceleration_of(
                &index,
                &self.positions,
                &self.velocities,
                &densities,
                &pressures,
                self.config.gravity,
                self.config.viscosity,
                h,
                i,
            ) {
                Some(a) => a,
                None => {
                    proof {
                        assert(!particle_steps(pre.config, f, dt as int, i as int));
                    }
                    return Err(FluidError::NumericDegeneracy);
                },
            };
            proof {
                assert(vector_in_range(self.positions@[i as int]));
                assert(vector_in_range(self.velocities@[i as int]));
            }
            match integrate_particle(
                self.positions[i],
                self.velocities[i],
                a,
                dt,
                &self.config.boundary,
                self.config.restitution,
            ) {
                Some((moved, turned)) => {
                    positions.push(moved);
                    velocities.push(turned);
                },
                None => {
                    proof {
                        assert(!particle_steps(pre.config, f, dt as int, i as int));
                    }
                    return Err(FluidError::NumericDegeneracy);
                },
            }
            i = i + 1;
        }
        proof {
            assert forall|j: int| 0 <= j < n implies (#[trigger] densities@[j]) > 0 by {
                assert(densities@[j] == f.densities[j]);
            }
        }
        self.positions = positions;
        self.velocities = velocities;
        self.densities = densities;
        self.pressures = pressures;
        self.index = index;
        Ok(())
    }

    /// Runs one frame: advances the fluid by the time `dt` and hands out a
    /// copy of the positions, one per particle in the order of the particle
    /// ids, for the renderer to draw. A step that is refused changes
    /// nothing and hands out nothing.
    pub fn run_frame(&mut self, dt: i64) -> (r: Result<Vec<Vector2>, FluidError>)
        requires
            old(self).wf(),
        ensures
            final(self).wf(),
            match r {
                Ok(frame) => {
                    &&& step_error(old(self)@, dt as int) is None
                    &&& stepped(old(self)@, final(self)@, dt as int)
                    &&& frame@ == final(self)@.positions
                },
                Err(e) => step_error(old(self)@, dt as int) == Some(e) && *final(self) == *old(
                    self,
                ),
            },
    {
        match self.step(dt) {
            Ok(()) => Ok(copy_vectors(&self.positions)),
            Err(e) => Err(e),
        }
    }
}

} // verus!
