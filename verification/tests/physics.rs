//! Tests of the body, the force system, the integrators, the energy
//! tracker and the preset system.

use nbody2d::body::Body;
use nbody2d::config::{IntegratorScheme, SimConfig};
use nbody2d::energy::EnergyTracker;
use nbody2d::fixed::SCALE;
use nbody2d::forces::{Force, LinearPushForce};
use nbody2d::gravity::GravitySystem;
use nbody2d::sim::step;
use nbody2d::solar::create_solar_system;
use nbody2d::vec2::Vec2;

fn body_at(mass_units: i64, x: i64, y: i64, radius: i64) -> Body {
    Body::new(mass_units * SCALE, [x, y], radius)
}

#[test]
fn body_new_fields() {
    let b = Body::new(2 * SCALE, [3 * SCALE, -4 * SCALE], SCALE);
    assert_eq!(b.mass, 2 * SCALE);
    assert_eq!((b.position.x, b.position.y), (3 * SCALE, -4 * SCALE));
    assert_eq!((b.velocity.x, b.velocity.y), (0, 0));
    assert_eq!((b.acceleration.x, b.acceleration.y), (0, 0));
    assert_eq!(b.radius, SCALE);
    assert!(!b.static_body);
}

#[test]
fn apply_force_scales_by_inverse_mass() {
    let mut b = Body::new(2 * SCALE, [0, 0], 0);
    b.apply_force(Vec2::new(SCALE, 0));
    assert_eq!((b.acceleration.x, b.acceleration.y), (5_000_000, 0));
}

#[test]
fn euler_integrate_velocity_then_position() {
    let mut b = Body::new(SCALE, [0, 0], 0);
    b.acceleration = Vec2::new(SCALE, 0);
    b.integrate(5_000_000);
    assert_eq!((b.velocity.x, b.velocity.y), (5_000_000, 0));
    assert_eq!((b.position.x, b.position.y), (2_500_000, 0));
    assert_eq!((b.acceleration.x, b.acceleration.y), (0, 0));
}

#[test]
fn euler_integrate_skips_static_body() {
    let mut b = Body::new(SCALE, [SCALE, 0], 0);
    b.static_body = true;
    b.acceleration = Vec2::new(SCALE, SCALE);
    b.integrate(5_000_000);
    assert_eq!((b.position.x, b.position.y), (SCALE, 0));
    assert_eq!((b.velocity.x, b.velocity.y), (0, 0));
}

#[test]
fn gravity_two_equal_bodies_opposite_accelerations() {
    // Newton's third law on equal masses: exact negation of accelerations.
    let sys = GravitySystem {
        gravity_constant: SCALE,
        softening: 0,
        distance_floor: 100,
        collision_enabled: false,
    };
    let mut bodies = vec![body_at(1, 0, 0, 0), body_at(1, SCALE, 0, 0)];
    sys.apply(&mut bodies);
    assert_eq!((bodies[0].acceleration.x, bodies[0].acceleration.y), (SCALE, 0));
    assert_eq!((bodies[1].acceleration.x, bodies[1].acceleration.y), (-SCALE, 0));
}

#[test]
fn gravity_asymmetric_masses_forces_negate() {
    let sys = GravitySystem::new(2 * SCALE, 5_000_000);
    let mut bodies = vec![body_at(3, 0, SCALE, 0), body_at(7, 2 * SCALE, -SCALE, 0)];
    sys.apply(&mut bodies);
    // force on 0 from 1 == -(force on 1 from 0): acceleration * mass negates
    let f0 = (
        (bodies[0].acceleration.x as i128) * 3,
        (bodies[0].acceleration.y as i128) * 3,
    );
    let f1 = (
        (bodies[1].acceleration.x as i128) * 7,
        (bodies[1].acceleration.y as i128) * 7,
    );
    // accelerations divide the same force by each mass with truncation, so
    // compare within one raw unit per mass factor
    assert!((f0.0 + f1.0).abs() <= 20);
    assert!((f0.1 + f1.1).abs() <= 20);
    assert!(bodies[0].acceleration.x > 0 && bodies[1].acceleration.x < 0);
}

#[test]
fn zero_pair_stability() {
    let sys = GravitySystem::new(SCALE, 0);
    let tracker = EnergyTracker::new(SCALE);
    let mut none: Vec<Body> = Vec::new();
    sys.apply(&mut none);
    assert_eq!(none.len(), 0);
    assert_eq!(tracker.total_potential(&none), 0);

    let mut one = vec![body_at(5, 3 * SCALE, 4 * SCALE, 0)];
    one[0].acceleration = Vec2::new(SCALE, SCALE);
    sys.apply(&mut one);
    assert_eq!((one[0].acceleration.x, one[0].acceleration.y), (0, 0));
    assert_eq!(tracker.total_potential(&one), 0);
}

#[test]
fn softening_floors_force_near_coincidence() {
    // two unit masses 0.001 apart with softening 0.1: the acceleration
    // stays below G*m/softening^2 = 100, and close to it
    let sys = GravitySystem {
        gravity_constant: SCALE,
        softening: 1_000_000,
        distance_floor: 100,
        collision_enabled: false,
    };
    let mut bodies = vec![body_at(1, 0, 0, 0), body_at(1, 10_000, 0, 0)];
    sys.apply(&mut bodies);
    assert_eq!(bodies[0].acceleration.x, 999_900_009);
    assert!(bodies[0].acceleration.x <= 100 * SCALE);
}

#[test]
fn collision_closes_penetration() {
    // two unit masses of radius 1 overlapping at distance 1, approaching:
    // one pass swaps the normal velocities and separates them exactly
    let sys = GravitySystem {
        gravity_constant: 0,
        softening: 0,
        distance_floor: 100,
        collision_enabled: true,
    };
    let mut bodies = vec![body_at(1, 0, 0, SCALE), body_at(1, SCALE, 0, SCALE)];
    bodies[0].velocity = Vec2::new(SCALE, 0);
    bodies[1].velocity = Vec2::new(-SCALE, 0);
    sys.apply(&mut bodies);
    assert_eq!(bodies[0].position.x, -5_000_000);
    assert_eq!(bodies[1].position.x, 15_000_000);
    let dist = bodies[1].position.sub(bodies[0].position).vec_length();
    assert!(dist >= 2 * SCALE - 1000);
    assert_eq!(bodies[0].velocity.x, -SCALE);
    assert_eq!(bodies[1].velocity.x, SCALE);
}

fn circular_pair(r: i64) -> Vec<Body> {
    let mut sun = Body::new(1000 * SCALE, [0, 0], 0);
    sun.static_body = true;
    let mut planet = Body::new(SCALE, [r, 0], 0);
    // circular speed sqrt(G*m1/r) with G = 1
    let gm = nbody2d::fixed::fx_mul(SCALE, 1000 * SCALE);
    planet.velocity = Vec2::new(0, nbody2d::fixed::fx_sqrt(nbody2d::fixed::fx_div(gm, r)));
    vec![sun, planet]
}

fn config(scheme: IntegratorScheme) -> SimConfig {
    SimConfig {
        gravity_constant: SCALE,
        softening: 0,
        distance_floor: 100,
        collision_enabled: false,
        scheme,
    }
}

#[test]
fn energy_conserved_under_velocity_verlet() {
    let mut bodies = circular_pair(5_000_000);
    let tracker = EnergyTracker::new(SCALE);
    let e0 = tracker.total_energy(&bodies);
    let cfg = config(IntegratorScheme::VelocityVerlet);
    for _ in 0..1000 {
        step(&mut bodies, 10_000, &cfg);
    }
    let e1 = tracker.total_energy(&bodies);
    let drift = (e1 - e0).abs() as f64 / (e0.abs() as f64);
    assert!(drift < 1e-3, "relative drift {} not under 1e-3", drift);
}

#[test]
fn energy_drifts_under_symplectic_euler() {
    let mut bodies = circular_pair(5_000_000);
    let tracker = EnergyTracker::new(SCALE);
    let e0 = tracker.total_energy(&bodies);
    let cfg = config(IntegratorScheme::SymplecticEuler);
    for _ in 0..1000 {
        step(&mut bodies, 10_000, &cfg);
    }
    let e1 = tracker.total_energy(&bodies);
    let drift = (e1 - e0).abs() as f64 / (e0.abs() as f64);
    assert!(drift > 1e-3, "relative drift {} not above 1e-3", drift);
}

#[test]
fn static_body_never_moves() {
    let mut bodies = circular_pair(5_000_000);
    let cfg = config(IntegratorScheme::VelocityVerlet);
    for _ in 0..50 {
        step(&mut bodies, 10_000, &cfg);
    }
    assert_eq!((bodies[0].position.x, bodies[0].position.y), (0, 0));
    assert_eq!((bodies[0].velocity.x, bodies[0].velocity.y), (0, 0));
    // while the dynamic body did move
    assert!(bodies[1].position.y != 0);
}

#[test]
fn kinetic_energy_exact() {
    let tracker = EnergyTracker::new(SCALE);
    let mut b = Body::new(2 * SCALE, [0, 0], 0);
    b.velocity = Vec2::new(3 * SCALE, 4 * SCALE);
    let bodies = vec![b];
    assert_eq!(tracker.total_kinetic(&bodies), 25 * SCALE);
}

#[test]
fn potential_pair_exact() {
    // -G*m1*m2/r with G = 2, m1 = 3, m2 = 5, r = 10
    let tracker = EnergyTracker::new(2 * SCALE);
    let bodies = vec![body_at(3, 0, 0, 0), body_at(5, 10 * SCALE, 0, 0)];
    assert_eq!(tracker.total_potential(&bodies), -3 * SCALE);
}

#[test]
fn potential_equivalence_on_sample() {
    let tracker = EnergyTracker::new(SCALE);
    let bodies = vec![
        body_at(1, 0, 0, 0),
        body_at(2, 3 * SCALE, 0, 0),
        body_at(3, 0, 4 * SCALE, 0),
        body_at(5, -2 * SCALE, -SCALE, 0),
    ];
    let total = tracker.total_potential(&bodies);
    let breakdowns = tracker.per_entity_energy(&bodies);
    let sum: i64 = breakdowns.iter().map(|e| e.potential).sum();
    assert!((sum - total).abs() <= 2, "sum {} vs total {}", sum, total);
    assert!(total < 0);
    for e in &breakdowns {
        assert_eq!(e.total, e.kinetic + e.potential);
    }
}

#[test]
fn total_energy_is_kinetic_plus_potential() {
    let tracker = EnergyTracker::new(SCALE);
    let mut a = body_at(1, 0, 0, 0);
    a.velocity = Vec2::new(SCALE, 0);
    let bodies = vec![a, body_at(1, 5 * SCALE, 0, 0)];
    let e = tracker.total_energy(&bodies);
    assert_eq!(e, tracker.total_kinetic(&bodies) + tracker.total_potential(&bodies));
}

#[test]
fn linear_push_moves_only_dynamic_bodies() {
    let push = LinearPushForce::new(Vec2::new(2 * SCALE, 0));
    let mut still = body_at(1, 0, 0, 0);
    still.static_body = true;
    let mut bodies = vec![body_at(2, 0, 0, 0), still];
    push.apply(&mut bodies);
    assert_eq!((bodies[0].acceleration.x, bodies[0].acceleration.y), (SCALE, 0));
    assert_eq!((bodies[1].acceleration.x, bodies[1].acceleration.y), (0, 0));
}

#[test]
fn three_body_triangle_stays_symmetric() {
    // three unit masses on an equilateral triangle of side 3: each
    // accelerates toward the centroid with the same magnitude, and after
    // one step all three stay equidistant from the centroid
    let cfg = config(IntegratorScheme::SymplecticEuler);
    let h = 25_980_762; // 3 * sqrt(3)/2
    let mut bodies = vec![
        body_at(1, 0, 0, 2_000_000),
        body_at(1, 3 * SCALE, 0, 2_000_000),
        body_at(1, 15_000_000, h, 2_000_000),
    ];
    let sys = GravitySystem::from_config(&cfg);
    let mut probe = bodies.clone();
    sys.apply(&mut probe);
    let mags: Vec<f64> = probe
        .iter()
        .map(|b| {
            let ax = b.acceleration.x as f64 / SCALE as f64;
            let ay = b.acceleration.y as f64 / SCALE as f64;
            (ax * ax + ay * ay).sqrt()
        })
        .collect();
    assert!((mags[0] - mags[1]).abs() < 1e-5);
    assert!((mags[0] - mags[2]).abs() < 1e-5);
    // the apex body is pulled straight down by symmetry
    assert_eq!(probe[2].acceleration.x, 0);
    assert!(probe[2].acceleration.y < 0);

    step(&mut bodies, 10_000, &cfg);
    let cx: f64 = bodies.iter().map(|b| b.position.x as f64).sum::<f64>() / 3.0;
    let cy: f64 = bodies.iter().map(|b| b.position.y as f64).sum::<f64>() / 3.0;
    let dists: Vec<f64> = bodies
        .iter()
        .map(|b| {
            let dx = b.position.x as f64 - cx;
            let dy = b.position.y as f64 - cy;
            (dx * dx + dy * dy).sqrt() / SCALE as f64
        })
        .collect();
    assert!((dists[0] - dists[1]).abs() < 1e-5);
    assert!((dists[0] - dists[2]).abs() < 1e-5);
}

#[test]
fn solar_system_preset() {
    let bodies = create_solar_system();
    assert_eq!(bodies.len(), 9);
    assert_eq!(bodies[0].mass, 19_890_000_000_000);
    assert_eq!((bodies[0].velocity.x, bodies[0].velocity.y), (0, 0));
    for b in &bodies {
        assert!(b.mass > 0);
        assert!(!b.static_body);
        assert_eq!(b.position.x, 0);
    }
    // the third planet orbits at distance 100 with speed sqrt(G*m0/100)
    assert_eq!(bodies[3].position.y, 100 * SCALE);
    assert_eq!(bodies[3].velocity.x, 3_643_512_412);
    assert_eq!(bodies[3].velocity.y, 0);
}

#[test]
fn verlet_step_pulls_bodies_together() {
    let cfg = SimConfig::new(SCALE, 0);
    assert!(matches!(cfg.scheme, IntegratorScheme::VelocityVerlet));
    let mut bodies = vec![body_at(1000, 0, 0, 0), body_at(1000, 10 * SCALE, 0, 0)];
    for _ in 0..10 {
        step(&mut bodies, 10_000, &cfg);
    }
    assert!(bodies[0].position.x > 0);
    assert!(bodies[1].position.x < 10 * SCALE);
}
