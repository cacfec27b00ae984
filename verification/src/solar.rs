//! A preset system: a heavy central body and eight lighter ones on
//! circular orbits, each given the circular orbital speed for its
//! distance from the center.

use crate::body::{body_valid, Body};
use crate::constants::GRAVITY_CONSTANT;
use crate::fixed::{fx_abs, fx_div, fx_mul, fx_sqrt, fx_sub, sp_abs, sp_div, sp_mul, sp_sqrt, sp_sub};
use crate::vec2::Vec2;
use vstd::prelude::*;

verus! {

/// The bodies of the preset before their orbital velocities are set:
/// masses, distances and radii of a small solar system, at rest on the
/// positive y axis.
pub open spec fn solar_seed(i: int) -> Body {
    let m: i64 = if i == 0 {
        19_890_000_000_000
    } else if i == 1 {
        3_300_000
    } else if i == 2 {
        48_700_000
    } else if i == 3 {
        59_700_000
    } else if i == 4 {
        6_400_000
    } else if i == 5 {
        18_980_000_000
    } else if i == 6 {
        5_680_000_000
    } else if i == 7 {
        868_000_000
    } else {
        1_020_000_000
    };
    let y: i64 = if i == 0 {
        0
    } else if i == 1 {
        400_000_000
    } else if i == 2 {
        700_000_000
    } else if i == 3 {
        1_000_000_000
    } else if i == 4 {
        1_500_000_000
    } else if i == 5 {
        5_200_000_000
    } else if i == 6 {
        9_600_000_000
    } else if i == 7 {
        19_100_000_000
    } else {
        30_000_000_000
    };
    let rad: i64 = if i == 0 {
        50_000_000
    } else if i == 1 {
        12_000_000
    } else if i == 2 {
        15_000_000
    } else if i == 3 {
        18_000_000
    } else if i == 4 {
        16_000_000
    } else if i == 5 {
        30_000_000
    } else if i == 6 {
        28_000_000
    } else if i == 7 {
        26_000_000
    } else {
        26_000_000
    };
    Body {
        mass: m,
        position: Vec2 { x: 0, y },
        velocity: Vec2 { x: 0, y: 0 },
        acceleration: Vec2 { x: 0, y: 0 },
        radius: rad,
        static_body: false,
    }
}

/// The circular orbital speed around a central mass at distance `r`:
/// `sqrt(G * central_mass / r)`.
pub open spec fn orbital_speed(central_mass: i64, r: i64) -> i64 {
    sp_sqrt(sp_div(sp_mul(GRAVITY_CONSTANT, central_mass), r))
}

/// The bodies of the preset: the seed, with every non-central body given
/// its circular orbital speed along the x axis.
pub open spec fn solar_body(i: int) -> Body {
    if i == 0 {
        solar_seed(0)
    } else {
        let base = solar_seed(i);
        let r = sp_abs(sp_sub(base.position.y, solar_seed(0).position.y));
        Body { velocity: Vec2 { x: orbital_speed(solar_seed(0).mass, r), y: 0 }, ..base }
    }
}

/// Build the preset system: nine valid bodies, the central one at rest,
/// each other one at its seed position with its circular orbital speed.
pub fn create_solar_system() -> (r: Vec<Body>)
    ensures
        r@.len() == 9,
        forall|i: int| 0 <= i < 9 ==> #[trigger] r@[i] == solar_body(i),
        forall|i: int| 0 <= i < 9 ==> body_valid(#[trigger] r@[i]),
{
    let mut bodies: Vec<Body> = Vec::new();
    bodies.push(Body::new(19_890_000_000_000, [0, 0], 50_000_000));
    bodies.push(Body::new(3_300_000, [0, 400_000_000], 12_000_000));
    bodies.push(Body::new(48_700_000, [0, 700_000_000], 15_000_000));
    bodies.push(Body::new(59_700_000, [0, 1_000_000_000], 18_000_000));
    bodies.push(Body::new(6_400_000, [0, 1_500_000_000], 16_000_000));
    bodies.push(Body::new(18_980_000_000, [0, 5_200_000_000], 30_000_000));
    bodies.push(Body::new(5_680_000_000, [0, 9_600_000_000], 28_000_000));
    bodies.push(Body::new(868_000_000, [0, 19_100_000_000], 26_000_000));
    bodies.push(Body::new(1_020_000_000, [0, 30_000_000_000], 26_000_000));
    proof {
        assert forall|m: int| 0 <= m < 9 implies #[trigger] bodies@[m] == solar_seed(m) by {
        }
    }
    let central_mass = bodies[0].mass;
    let central_y = bodies[0].position.y;
    let mut i: usize = 1;
    while i < 9
        invariant
            1 <= i <= 9,
            bodies@.len() == 9,
            central_mass == solar_seed(0).mass,
            central_y == solar_seed(0).position.y,
            forall|m: int| 0 <= m < i ==> #[trigger] bodies@[m] == solar_body(m),
            forall|m: int| i <= m < 9 ==> #[trigger] bodies@[m] == solar_seed(m),
        decreases 9 - i,
    {
        let dist = fx_abs(fx_sub(bodies[i].position.y, central_y));
        let speed = fx_sqrt(fx_div(fx_mul(GRAVITY_CONSTANT, central_mass), dist));
        let mut b = bodies[i];
        b.velocity = Vec2::new(speed, 0);
        bodies.set(i, b);
        i = i + 1;
    }
    proof {
        assert forall|m: int| 0 <= m < 9 implies body_valid(#[trigger] bodies@[m]) by {
            assert(bodies@[m] == solar_body(m));
        }
    }
    bodies
}

} // verus!
