use rust_fluid::error::FluidError;
use rust_fluid::fluid::{Config, Fluid};
use rust_fluid::integrator::Boundary;
use rust_fluid::vector::Vector2;

/// The fixed-point scalar that stands for `v`.
fn fx(v: f64) -> i64 {
    (v * 1_000_000.0).round() as i64
}

fn vec2(x: f64, y: f64) -> Vector2 {
    Vector2::new(fx(x), fx(y))
}

fn config(count: usize) -> Config {
    Config {
        particle_count: count,
        smoothing_radius: fx(1.0),
        rest_density: fx(1.0),
        stiffness: fx(1.0),
        viscosity: fx(0.1),
        boundary: Boundary { min: vec2(0.0, 0.0), max: vec2(10.0, 10.0) },
        gravity: vec2(0.0, -9.8),
        restitution: fx(1.0),
    }
}

#[test]
fn single_particle_falls_under_gravity() {
    let mut fluid = Fluid::new(config(1), vec![vec2(5.0, 5.0)], vec![vec2(0.0, 0.0)]).unwrap();
    assert_eq!(fluid.step(fx(0.1)), Ok(()));
    assert_eq!(fluid.velocities()[0], Vector2::new(0, -980_000));
    assert_eq!(fluid.positions()[0], Vector2::new(5_000_000, 4_902_000));
    assert_eq!(fluid.predicted_positions(), vec![vec2(5.0, 5.0)]);
}

#[test]
fn particle_bounces_off_the_right_edge() {
    let mut cfg = config(1);
    cfg.gravity = vec2(0.0, 0.0);
    let mut fluid = Fluid::new(cfg, vec![vec2(9.99, 5.0)], vec![vec2(5.0, 0.0)]).unwrap();
    assert_eq!(fluid.step(fx(0.1)), Ok(()));
    assert_eq!(fluid.positions()[0], Vector2::new(10_000_000, 5_000_000));
    assert_eq!(fluid.velocities()[0], Vector2::new(-5_000_000, 0));
}

#[test]
fn bounce_is_damped_by_the_restitution() {
    let mut cfg = config(1);
    cfg.gravity = vec2(0.0, 0.0);
    cfg.restitution = fx(0.5);
    let mut fluid = Fluid::new(cfg, vec![vec2(9.99, 5.0)], vec![vec2(5.0, 0.0)]).unwrap();
    assert_eq!(fluid.step(fx(0.1)), Ok(()));
    assert_eq!(fluid.positions()[0], Vector2::new(10_000_000, 5_000_000));
    assert_eq!(fluid.velocities()[0], Vector2::new(-2_500_000, 0));
}

#[test]
fn particle_bounces_off_the_floor() {
    let mut cfg = config(1);
    cfg.gravity = vec2(0.0, 0.0);
    let mut fluid = Fluid::new(cfg, vec![vec2(5.0, 0.2)], vec![vec2(0.0, -4.0)]).unwrap();
    assert_eq!(fluid.step(fx(0.1)), Ok(()));
    assert_eq!(fluid.positions()[0], Vector2::new(5_000_000, 0));
    assert_eq!(fluid.velocities()[0], Vector2::new(0, 4_000_000));
}

#[test]
fn particle_on_the_edge_does_not_bounce() {
    let mut cfg = config(1);
    cfg.gravity = vec2(0.0, 0.0);
    let mut fluid = Fluid::new(cfg, vec![vec2(9.5, 5.0)], vec![vec2(5.0, 0.0)]).unwrap();
    assert_eq!(fluid.step(fx(0.1)), Ok(()));
    assert_eq!(fluid.positions()[0], Vector2::new(10_000_000, 5_000_000));
    assert_eq!(fluid.velocities()[0], Vector2::new(5_000_000, 0));
}

#[test]
fn coincident_particles_exert_no_pressure_force() {
    let mut cfg = config(2);
    cfg.rest_density = 0;
    cfg.stiffness = fx(100.0);
    let mut fluid = Fluid::new(
        cfg,
        vec![vec2(5.0, 5.0), vec2(5.0, 5.0)],
        vec![vec2(0.0, 0.0), vec2(0.0, 0.0)],
    )
    .unwrap();
    assert_eq!(fluid.step(fx(0.1)), Ok(()));
    // Each particle weighs on itself and on the other: 2 * 4 / pi.
    assert_eq!(fluid.densities(), &vec![2_546_480, 2_546_480]);
    assert_eq!(fluid.pressures(), &vec![254_648_000, 254_648_000]);
    // Gravity alone has acted.
    assert_eq!(fluid.velocities(), &vec![Vector2::new(0, -980_000); 2]);
    assert_eq!(fluid.positions(), &vec![Vector2::new(5_000_000, 4_902_000); 2]);
}

#[test]
fn negative_time_step_is_refused_and_changes_nothing() {
    let positions = vec![vec2(1.0, 2.0), vec2(3.0, 4.0), vec2(3.2, 4.1)];
    let velocities = vec![vec2(0.5, -0.5), vec2(-1.0, 0.0), vec2(0.0, 2.0)];
    let mut fluid = Fluid::new(config(3), positions.clone(), velocities.clone()).unwrap();
    assert_eq!(fluid.step(fx(-1.0)), Err(FluidError::InvalidTimeStep));
    assert_eq!(fluid.positions(), &positions);
    assert_eq!(fluid.velocities(), &velocities);
    assert_eq!(fluid.step(0), Err(FluidError::InvalidTimeStep));
    assert_eq!(fluid.positions(), &positions);
    assert_eq!(fluid.velocities(), &velocities);
}

#[test]
fn time_step_beyond_the_limit_is_refused() {
    let mut fluid = Fluid::new(config(1), vec![vec2(5.0, 5.0)], vec![vec2(0.0, 0.0)]).unwrap();
    assert_eq!(fluid.step(1_000_000_000_001), Err(FluidError::InvalidTimeStep));
    assert_eq!(fluid.positions()[0], vec2(5.0, 5.0));
}

#[test]
fn velocity_beyond_the_limit_is_a_numeric_degeneracy() {
    let mut cfg = config(1);
    cfg.gravity = Vector2::new(1_000_000_000_000, 0);
    let positions = vec![vec2(5.0, 5.0)];
    let velocities = vec![vec2(1.0, 0.0)];
    let mut fluid = Fluid::new(cfg, positions.clone(), velocities.clone()).unwrap();
    // One second of this gravity takes the speed past the limit.
    assert_eq!(fluid.step(fx(1.0)), Err(FluidError::NumericDegeneracy));
    assert_eq!(fluid.positions(), &positions);
    assert_eq!(fluid.velocities(), &velocities);
    assert!(fluid.densities().is_empty());
}

#[test]
fn density_beyond_the_limit_is_a_numeric_degeneracy() {
    let mut cfg = config(100);
    cfg.smoothing_radius = fx(0.01);
    let positions = vec![vec2(5.0, 5.0); 100];
    let velocities = vec![vec2(0.0, 0.0); 100];
    let mut fluid = Fluid::new(cfg, positions.clone(), velocities).unwrap();
    assert_eq!(fluid.step(fx(0.1)), Err(FluidError::NumericDegeneracy));
    assert_eq!(fluid.positions(), &positions);
}

#[test]
fn invalid_configurations_are_refused() {
    let one = vec![vec2(5.0, 5.0)];
    let rest = vec![vec2(0.0, 0.0)];
    let refused = |cfg: Config| {
        matches!(
            Fluid::new(cfg, one.clone(), rest.clone()),
            Err(FluidError::InvalidConfiguration)
        )
    };
    assert!(Fluid::new(config(1), one.clone(), rest.clone()).is_ok());
    let mut cfg = config(0);
    assert!(matches!(
        Fluid::new(cfg, vec![], vec![]),
        Err(FluidError::InvalidConfiguration)
    ));
    cfg = config(1);
    cfg.smoothing_radius = 0;
    assert!(refused(cfg));
    cfg.smoothing_radius = fx(-1.0);
    assert!(refused(cfg));
    cfg.smoothing_radius = fx(0.009);
    assert!(refused(cfg));
    cfg.smoothing_radius = fx(1000.5);
    assert!(refused(cfg));
    cfg = config(1);
    cfg.boundary = Boundary { min: vec2(0.0, 0.0), max: vec2(0.0, 10.0) };
    assert!(refused(cfg));
    cfg.boundary = Boundary { min: vec2(0.0, 10.0), max: vec2(10.0, 0.0) };
    assert!(refused(cfg));
    cfg = config(1);
    cfg.rest_density = -1;
    assert!(refused(cfg));
    cfg = config(1);
    cfg.stiffness = -1;
    assert!(refused(cfg));
    cfg = config(1);
    cfg.viscosity = -1;
    assert!(refused(cfg));
    cfg = config(1);
    cfg.restitution = fx(1.5);
    assert!(refused(cfg));
    cfg = config(1);
    cfg.gravity = Vector2::new(0, 1_000_000_000_001);
    assert!(refused(cfg));
    // The number of positions and velocities must be the particle count.
    assert!(refused(config(2)));
    assert!(matches!(
        Fluid::new(config(1), one.clone(), vec![]),
        Err(FluidError::InvalidConfiguration)
    ));
    assert!(matches!(
        Fluid::new(config(1), vec![Vector2::new(1_000_000_000_001, 0)], rest.clone()),
        Err(FluidError::InvalidConfiguration)
    ));
}

#[test]
fn gravity_is_read_and_set() {
    let mut fluid = Fluid::new(config(1), vec![vec2(5.0, 5.0)], vec![vec2(0.0, 0.0)]).unwrap();
    assert_eq!(fluid.gravity(None), Some(vec2(0.0, -9.8)));
    assert_eq!(fluid.gravity(Some(vec2(0.0, 1.0))), None);
    assert_eq!(fluid.gravity(None), Some(vec2(0.0, 1.0)));
    assert_eq!(fluid.config().gravity, vec2(0.0, 1.0));
    // A value beyond the limit is not taken.
    assert_eq!(
        fluid.gravity(Some(Vector2::new(1_000_000_000_001, 0))),
        Some(vec2(0.0, 1.0))
    );
    assert_eq!(fluid.gravity(None), Some(vec2(0.0, 1.0)));
    assert_eq!(fluid.step(fx(0.1)), Ok(()));
    assert_eq!(fluid.velocities()[0], Vector2::new(0, 100_000));
}

#[test]
fn run_frame_hands_out_the_positions() {
    let mut fluid = Fluid::new(config(1), vec![vec2(5.0, 5.0)], vec![vec2(0.0, 0.0)]).unwrap();
    let frame = fluid.run_frame(fx(0.1)).unwrap();
    assert_eq!(frame, vec![Vector2::new(5_000_000, 4_902_000)]);
    assert_eq!(&frame, fluid.positions());
    assert_eq!(fluid.run_frame(0), Err(FluidError::InvalidTimeStep));
    assert_eq!(fluid.number_of_particles(), 1);
}
