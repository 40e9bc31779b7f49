use nbody::body::{Body, Color, Fix2};
use nbody::forces::accumulate_accels;
use nbody::math::{div_trunc_i128, isqrt_u128};
use nbody::sim::{step_once, SimState};

const GRAY: Color = Color { red: 128, green: 128, blue: 128 };

fn body(name: &[u8], mass: u64, px: i64, py: i64, vx: i64, vy: i64) -> Body {
    Body {
        name: name.to_vec(),
        mass,
        pos: Fix2 { x: px, y: py },
        vel: Fix2 { x: vx, y: vy },
        radius: 100_000_000,
        color: GRAY,
    }
}

const SOLAR: u64 = 1_000_000_000_000_000_000;
const EARTH_MASS: u64 = 3_003_000_000_000;
const ONE: i64 = 1_000_000_000;
const G_ONE: u64 = 1_000_000_000;
const DT_CENT: u64 = 10_000_000;

#[test]
fn isqrt_exact_values() {
    assert_eq!(isqrt_u128(0), 0);
    assert_eq!(isqrt_u128(1), 1);
    assert_eq!(isqrt_u128(3), 1);
    assert_eq!(isqrt_u128(4), 2);
    assert_eq!(isqrt_u128(15), 3);
    assert_eq!(isqrt_u128(16), 4);
    assert_eq!(isqrt_u128(1_000_000_000_000_000_000), 1_000_000_000);
    assert_eq!(isqrt_u128(u64::MAX as u128), 4_294_967_295);
}

#[test]
fn div_trunc_rounds_toward_zero() {
    assert_eq!(div_trunc_i128(7, 2), 3);
    assert_eq!(div_trunc_i128(-7, 2), -3);
    assert_eq!(div_trunc_i128(6, 3), 2);
    assert_eq!(div_trunc_i128(-6, 3), -2);
    assert_eq!(div_trunc_i128(0, 5), 0);
}

#[test]
fn equal_pair_accelerations_opposite() {
    // Two suns one unit either side of the origin, G = 1: each feels
    // exactly G * m / (2r)^2 = 0.25 toward the other.
    let bodies = vec![
        body(b"alpha", SOLAR, -ONE, 0, 0, 0),
        body(b"beta", SOLAR, ONE, 0, 0, 0),
    ];
    let accs = accumulate_accels(&bodies, G_ONE);
    assert_eq!(accs.len(), 2);
    assert_eq!(accs[0].x, 250_000_000);
    assert_eq!(accs[0].y, 0);
    assert_eq!(accs[1].x, -250_000_000);
    assert_eq!(accs[1].y, 0);
}

#[test]
fn coincident_pair_contributes_nothing() {
    // Below the minimum-separation guard: no force either way.
    let bodies = vec![
        body(b"alpha", SOLAR, 0, 0, 0, 0),
        body(b"beta", SOLAR, 10, 0, 0, 0),
    ];
    let accs = accumulate_accels(&bodies, G_ONE);
    assert_eq!(accs[0].x, 0);
    assert_eq!(accs[0].y, 0);
    assert_eq!(accs[1].x, 0);
    assert_eq!(accs[1].y, 0);
}

#[test]
fn empty_store_step_is_noop() {
    let mut bodies: Vec<Body> = Vec::new();
    step_once(&mut bodies, G_ONE, DT_CENT);
    assert!(bodies.is_empty());
}

#[test]
fn single_body_at_rest_never_moves() {
    let mut sim = SimState {
        bodies: vec![body(b"sun", SOLAR, 0, 0, 0, 0)],
        g: G_ONE,
        dt: DT_CENT,
        paused: false,
    };
    for _ in 0..100 {
        sim.advance();
    }
    assert_eq!(sim.bodies[0].pos, Fix2 { x: 0, y: 0 });
    assert_eq!(sim.bodies[0].vel, Fix2 { x: 0, y: 0 });
}

#[test]
fn single_body_acceleration_is_zero() {
    let bodies = vec![body(b"sun", SOLAR, 0, 0, 0, 0)];
    let accs = accumulate_accels(&bodies, G_ONE);
    assert_eq!(accs[0].x, 0);
    assert_eq!(accs[0].y, 0);
}

fn two_body_scenario() -> SimState {
    SimState {
        bodies: vec![
            body(b"primary", SOLAR, 0, 0, 0, 0),
            body(b"secondary", EARTH_MASS, ONE, 0, 0, ONE),
        ],
        g: G_ONE,
        dt: DT_CENT,
        paused: false,
    }
}

#[test]
fn circular_orbit_closes() {
    // Primary mass 1.0 at the origin, secondary mass 3.003e-6 at
    // (1.0, 0.0) with velocity (0.0, 1.0), dt = 0.01: after one period
    // (2 * pi time units, 628 steps) the secondary is back within 5%
    // of the orbital radius.
    let mut sim = two_body_scenario();
    for _ in 0..628 {
        sim.advance();
    }
    let p = sim.bodies[1].pos;
    let dx = (p.x - ONE).abs();
    let dy = p.y.abs();
    assert!(dx < 50_000_000, "x drift {dx}");
    assert!(dy < 50_000_000, "y drift {dy}");
}

#[test]
fn momentum_drift_stays_small() {
    let mut sim = two_body_scenario();
    let p0 = momentum(&sim.bodies);
    for _ in 0..628 {
        sim.advance();
    }
    let p1 = momentum(&sim.bodies);
    // Initial momentum magnitude is the secondary's m * v.
    let scale = (EARTH_MASS as i128) * (ONE as i128);
    let dx = (p1.0 - p0.0).abs();
    let dy = (p1.1 - p0.1).abs();
    assert!(dx < scale / 50, "x momentum drift {dx} of {scale}");
    assert!(dy < scale / 50, "y momentum drift {dy} of {scale}");
}

fn momentum(bodies: &[Body]) -> (i128, i128) {
    let mut px: i128 = 0;
    let mut py: i128 = 0;
    for b in bodies {
        px += (b.mass as i128) * (b.vel.x as i128);
        py += (b.mass as i128) * (b.vel.y as i128);
    }
    (px, py)
}

#[test]
fn identical_runs_stay_identical() {
    let mut a = two_body_scenario();
    let mut b = two_body_scenario();
    for _ in 0..250 {
        a.advance();
        b.advance();
    }
    for k in 0..2 {
        assert_eq!(a.bodies[k].pos, b.bodies[k].pos);
        assert_eq!(a.bodies[k].vel, b.bodies[k].vel);
    }
}

#[test]
fn pause_toggles_leave_state_alone() {
    let mut sim = two_body_scenario();
    for _ in 0..50 {
        sim.advance();
    }
    let pos = sim.bodies[1].pos;
    let vel = sim.bodies[1].vel;
    for _ in 0..7 {
        sim.toggle_paused();
    }
    assert_eq!(sim.bodies[1].pos, pos);
    assert_eq!(sim.bodies[1].vel, vel);
    assert!(sim.is_paused());
    // Advances while paused change nothing either.
    for _ in 0..25 {
        sim.advance();
    }
    assert_eq!(sim.bodies[1].pos, pos);
    assert_eq!(sim.bodies[1].vel, vel);
}

#[test]
fn resumed_run_matches_unpaused_run() {
    let mut interrupted = two_body_scenario();
    let mut straight = two_body_scenario();
    for _ in 0..40 {
        interrupted.advance();
        straight.advance();
    }
    interrupted.toggle_paused();
    for _ in 0..13 {
        interrupted.advance();
    }
    interrupted.toggle_paused();
    for _ in 0..40 {
        interrupted.advance();
        straight.advance();
    }
    for k in 0..2 {
        assert_eq!(interrupted.bodies[k].pos, straight.bodies[k].pos);
        assert_eq!(interrupted.bodies[k].vel, straight.bodies[k].vel);
    }
}

#[test]
fn snapshot_reports_every_body() {
    let sim = two_body_scenario();
    let snap = sim.snapshot();
    assert_eq!(snap.len(), 2);
    assert_eq!(snap[0].name, b"primary".to_vec());
    assert_eq!(snap[1].name, b"secondary".to_vec());
    assert_eq!(snap[1].pos, Fix2 { x: ONE, y: 0 });
    assert_eq!(snap[0].radius, 100_000_000);
    assert_eq!(snap[0].color, GRAY);
}

#[test]
fn pick_finds_body_under_point() {
    let sim = two_body_scenario();
    // radius 0.1 gives threshold max(0.2, 0.5) = 0.5 around each body.
    assert_eq!(sim.pick_body(Fix2 { x: 400_000_000, y: 0 }), Some(0));
    assert_eq!(sim.pick_body(Fix2 { x: ONE + 400_000_000, y: 0 }), Some(1));
    assert_eq!(sim.pick_body(Fix2 { x: -600_000_000, y: 0 }), None);
    assert_eq!(sim.pick_body(Fix2 { x: 0, y: 700_000_000 }), None);
}

#[test]
fn pick_prefers_first_in_store_order() {
    let sim = SimState {
        bodies: vec![
            body(b"alpha", SOLAR, 0, 0, 0, 0),
            body(b"beta", SOLAR, 100_000_000, 0, 0, 0),
        ],
        g: G_ONE,
        dt: DT_CENT,
        paused: false,
    };
    // The point is within both thresholds; the first body wins.
    assert_eq!(sim.pick_body(Fix2 { x: 200_000_000, y: 0 }), Some(0));
}

#[test]
fn circular_orbit_closes_at_larger_radius() {
    // Secondary at distance 4.0 with the circular speed 1 / sqrt(4.0):
    // one period is 2 * pi * 4.0 / 0.5, about 5027 steps of 0.01.
    let mut sim = SimState {
        bodies: vec![
            body(b"primary", SOLAR, 0, 0, 0, 0),
            body(b"secondary", EARTH_MASS, 4 * ONE, 0, 0, ONE / 2),
        ],
        g: G_ONE,
        dt: DT_CENT,
        paused: false,
    };
    for _ in 0..5027 {
        sim.advance();
    }
    let p = sim.bodies[1].pos;
    let dx = (p.x - 4 * ONE).abs();
    let dy = p.y.abs();
    assert!(dx < 200_000_000, "x drift {dx}");
    assert!(dy < 200_000_000, "y drift {dy}");
}

#[test]
fn momentum_drift_stays_small_with_larger_timestep() {
    let mut sim = two_body_scenario();
    sim.dt = 50_000_000;
    let p0 = momentum(&sim.bodies);
    for _ in 0..200 {
        sim.advance();
    }
    let p1 = momentum(&sim.bodies);
    let scale = (EARTH_MASS as i128) * (ONE as i128);
    let dx = (p1.0 - p0.0).abs();
    let dy = (p1.1 - p0.1).abs();
    assert!(dx < scale / 50, "x momentum drift {dx} of {scale}");
    assert!(dy < scale / 50, "y momentum drift {dy} of {scale}");
}
