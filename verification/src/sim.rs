//! The integrator and the simulation driver: semi-implicit Euler steps,
//! pause control, snapshots, and the point-selection query.

use vstd::prelude::*;
use crate::body::{
    bodies_in_range, body_in_range, clone_name, Body, Color, Fix2, COORD_LIMIT, DT_MAX, G_MAX,
};
use crate::forces::{accumulate_accels, net_accel, Accel, ACCEL_NET_BOUND};
use crate::math::{clamp, div_trunc, SCALE};

verus! {

/// Smallest selection threshold: half a distance unit, raw.
pub const HALF_UNIT: i64 = 500_000_000;

/// One semi-implicit Euler update of a single body: velocity first, from
/// the raw acceleration, then position from the *updated* velocity; both
/// results clamped into the supported coordinate range.
pub open spec fn integrate_body(b: Body, ax: int, ay: int, dt: int) -> Body {
    let vx = clamp(b.vel.x + div_trunc(ax * dt, SCALE as int), COORD_LIMIT as int);
    let vy = clamp(b.vel.y + div_trunc(ay * dt, SCALE as int), COORD_LIMIT as int);
    let px = clamp(b.pos.x + div_trunc(vx * dt, SCALE as int), COORD_LIMIT as int);
    let py = clamp(b.pos.y + div_trunc(vy * dt, SCALE as int), COORD_LIMIT as int);
    Body {
        pos: Fix2 { x: px as i64, y: py as i64 },
        vel: Fix2 { x: vx as i64, y: vy as i64 },
        ..b
    }
}

/// One whole tick over the store: every body advanced by `integrate_body`
/// under its net acceleration from the common position snapshot.
pub open spec fn step_bodies(s: Seq<Body>, g: int, dt: int) -> Seq<Body> {
    Seq::new(s.len(), |i: int| integrate_body(s[i], net_accel(s, g, i).0, net_accel(s, g, i).1, dt))
}

/// `n` ticks in a row.
pub open spec fn run_n(s: Seq<Body>, g: int, dt: int, n: nat) -> Seq<Body>
    decreases n,
{
    if n == 0 {
        s
    } else {
        step_bodies(run_n(s, g, dt, (n - 1) as nat), g, dt)
    }
}

/// What one external "advance" request does to the store: nothing while
/// paused, exactly one tick otherwise.
pub open spec fn advance_view(s: Seq<Body>, paused: bool, g: int, dt: int) -> Seq<Body> {
    if paused {
        s
    } else {
        step_bodies(s, g, dt)
    }
}

/// `n` advance requests in a row under a constant pause flag.
pub open spec fn advance_n_view(s: Seq<Body>, paused: bool, g: int, dt: int, n: nat) -> Seq<Body>
    decreases n,
{
    if n == 0 {
        s
    } else {
        advance_view(advance_n_view(s, paused, g, dt, (n - 1) as nat), paused, g, dt)
    }
}

/// Clamp a wide intermediate into `[-bound, bound]` and narrow it.
fn clamp_i64(v: i128, bound: i64) -> (r: i64)
    requires
        bound > 0,
    ensures
        r as int == clamp(v as int, bound as int),
{
    if v > bound as i128 {
        bound
    } else if v < -(bound as i128) {
        -bound
    } else {
        v as i64
    }
}

/// The integration pass: consumes the accumulated accelerations for this
/// tick and advances every body, velocity before position.
pub fn integrate(bodies: &mut Vec<Body>, accs: &Vec<Accel>, dt: u64)
    requires
        bodies_in_range(old(bodies)@),
        accs@.len() == old(bodies)@.len(),
        0 < dt <= DT_MAX,
        forall|i: int|
            0 <= i < accs@.len() ==> -ACCEL_NET_BOUND <= (#[trigger] accs@[i]).x
                <= ACCEL_NET_BOUND && -ACCEL_NET_BOUND <= accs@[i].y <= ACCEL_NET_BOUND,
    ensures
        final(bodies)@.len() == old(bodies)@.len(),
        forall|i: int|
            0 <= i < final(bodies)@.len() ==> #[trigger] final(bodies)@[i] == integrate_body(
                old(bodies)@[i],
                accs@[i].x as int,
                accs@[i].y as int,
                dt as int,
            ),
        bodies_in_range(final(bodies)@),
{
    let ghost s0 = old(bodies)@;
    let n = bodies.len();
    let mut i: usize = 0;
    while i < n
        invariant
            bodies_in_range(s0),
            accs@.len() == s0.len(),
            0 < dt <= DT_MAX,
            forall|k: int|
                0 <= k < accs@.len() ==> -ACCEL_NET_BOUND <= (#[trigger] accs@[k]).x
                    <= ACCEL_NET_BOUND && -ACCEL_NET_BOUND <= accs@[k].y <= ACCEL_NET_BOUND,
            n == s0.len(),
            0 <= i <= n,
            bodies@.len() == s0.len(),
            forall|k: int|
                i <= k < s0.len() ==> #[trigger] bodies@[k] == s0[k],
            forall|k: int|
                0 <= k < i ==> #[trigger] bodies@[k] == integrate_body(
                    s0[k],
                    accs@[k].x as int,
                    accs@[k].y as int,
                    dt as int,
                ),
        decreases n - i,
    {
        let ax: i128 = accs[i].x;
        let ay: i128 = accs[i].y;
        proof {
            assert(-128_000_000_000_000_000_000_000_000_000_000_000_000 <= ax * (dt as int)
                <= 128_000_000_000_000_000_000_000_000_000_000_000_000) by (nonlinear_arith)
                requires
                    -ACCEL_NET_BOUND <= ax <= ACCEL_NET_BOUND,
                    0 < dt <= DT_MAX,
            ;
            assert(-128_000_000_000_000_000_000_000_000_000_000_000_000 <= ay * (dt as int)
                <= 128_000_000_000_000_000_000_000_000_000_000_000_000) by (nonlinear_arith)
                requires
                    -ACCEL_NET_BOUND <= ay <= ACCEL_NET_BOUND,
                    0 < dt <= DT_MAX,
            ;
        }
        let dvx: i128 = crate::math::div_trunc_i128(ax * (dt as i128), SCALE as i128);
        let dvy: i128 = crate::math::div_trunc_i128(ay * (dt as i128), SCALE as i128);
        let vx: i64 = clamp_i64(bodies[i].vel.x as i128 + dvx, COORD_LIMIT);
        let vy: i64 = clamp_i64(bodies[i].vel.y as i128 + dvy, COORD_LIMIT);
        proof {
            assert(-100_000_000_000_000_000_000 <= (vx as int) * (dt as int)
                <= 100_000_000_000_000_000_000) by (nonlinear_arith)
                requires
                    -COORD_LIMIT <= vx <= COORD_LIMIT,
                    0 < dt <= DT_MAX,
            ;
            assert(-100_000_000_000_000_000_000 <= (vy as int) * (dt as int)
                <= 100_000_000_000_000_000_000) by (nonlinear_arith)
                requires
                    -COORD_LIMIT <= vy <= COORD_LIMIT,
                    0 < dt <= DT_MAX,
            ;
        }
        let dpx: i128 = crate::math::div_trunc_i128((vx as i128) * (dt as i128), SCALE as i128);
        let dpy: i128 = crate::math::div_trunc_i128((vy as i128) * (dt as i128), SCALE as i128);
        let px: i64 = clamp_i64(bodies[i].pos.x as i128 + dpx, COORD_LIMIT);
        let py: i64 = clamp_i64(bodies[i].pos.y as i128 + dpy, COORD_LIMIT);
        bodies[i].vel = Fix2 { x: vx, y: vy };
        bodies[i].pos = Fix2 { x: px, y: py };
        proof {
            assert(bodies@[i as int] == integrate_body(
                s0[i as int],
                accs@[i as int].x as int,
                accs@[i as int].y as int,
                dt as int,
            ));
        }
        i += 1;
    }
    proof {
        assert forall|a: int, b: int|
            0 <= a < b < bodies@.len() implies (#[trigger] bodies@[a].name@)
            != (#[trigger] bodies@[b].name@) by {
            assert(bodies@[a].name == s0[a].name);
            assert(bodies@[b].name == s0[b].name);
        }
    }
}

/// One tick: accumulate accelerations from one consistent snapshot, then
/// integrate.  No caller can observe the store between the two passes.
pub fn step_once(bodies: &mut Vec<Body>, g: u64, dt: u64)
    requires
        bodies_in_range(old(bodies)@),
        0 < g <= G_MAX,
        0 < dt <= DT_MAX,
    ensures
        final(bodies)@ == step_bodies(old(bodies)@, g as int, dt as int),
        bodies_in_range(final(bodies)@),
{
    let accs = accumulate_accels(bodies, g);
    integrate(bodies, &accs, dt);
    proof {
        assert(bodies@ =~= step_bodies(old(bodies)@, g as int, dt as int));
    }
}

/// The read-only view of one body published to presentation layers.
#[derive(Debug)]
pub struct Snapshot {
    pub name: Vec<u8>,
    pub pos: Fix2,
    pub radius: i64,
    pub color: Color,
}

/// Selection threshold of a body: twice its visual radius, but at least
/// half a distance unit.
pub open spec fn pick_threshold(radius: int) -> int {
    if 2 * radius > HALF_UNIT as int {
        2 * radius
    } else {
        HALF_UNIT as int
    }
}

/// Whether a world-space point selects a body: strictly closer than the
/// body's selection threshold.
pub open spec fn hit(b: Body, p: Fix2) -> bool {
    let dx = b.pos.x - p.x;
    let dy = b.pos.y - p.y;
    dx * dx + dy * dy < pick_threshold(b.radius as int) * pick_threshold(b.radius as int)
}

/// The simulation driver: owns the body store, the constants of the run,
/// and the pause flag.
#[derive(Debug)]
pub struct SimState {
    pub bodies: Vec<Body>,
    pub g: u64,
    pub dt: u64,
    pub paused: bool,
}

impl SimState {
    /// A state the engine can step: store well-formed, constants in range.
    pub open spec fn wf(self) -> bool {
        &&& bodies_in_range(self.bodies@)
        &&& 0 < self.g <= G_MAX
        &&& 0 < self.dt <= DT_MAX
    }

    /// Handle one external advance request: a single tick unless paused.
    pub fn advance(&mut self)
        requires
            old(self).wf(),
        ensures
            final(self).wf(),
            final(self).g == old(self).g,
            final(self).dt == old(self).dt,
            final(self).paused == old(self).paused,
            final(self).bodies@ == advance_view(
                old(self).bodies@,
                old(self).paused,
                old(self).g as int,
                old(self).dt as int,
            ),
    {
        if !self.paused {
            let g = self.g;
            let dt = self.dt;
            step_once(&mut self.bodies, g, dt);
        }
    }

    /// Flip the pause flag; the stored trajectory data is untouched.
    pub fn toggle_paused(&mut self)
        ensures
            final(self).paused == !old(self).paused,
            final(self).bodies == old(self).bodies,
            final(self).g == old(self).g,
            final(self).dt == old(self).dt,
    {
        self.paused = !self.paused;
    }

    /// Set the pause flag; the stored trajectory data is untouched.
    pub fn set_paused(&mut self, paused: bool)
        ensures
            final(self).paused == paused,
            final(self).bodies == old(self).bodies,
            final(self).g == old(self).g,
            final(self).dt == old(self).dt,
    {
        self.paused = paused;
    }

    pub fn is_paused(&self) -> (r: bool)
        ensures
            r == self.paused,
    {
        self.paused
    }

    pub fn body_count(&self) -> (n: usize)
        ensures
            n == self.bodies@.len(),
    {
        self.bodies.len()
    }

    /// The published per-tick view: identity, position and display payload
    /// of every body, in store order, regardless of pause state.
    pub fn snapshot(&self) -> (snap: Vec<Snapshot>)
        ensures
            snap@.len() == self.bodies@.len(),
            forall|i: int|
                0 <= i < snap@.len() ==> (#[trigger] snap@[i]).name@ == self.bodies@[i].name@
                    && snap@[i].pos == self.bodies@[i].pos && snap@[i].radius
                    == self.bodies@[i].radius && snap@[i].color == self.bodies@[i].color,
    {
        let mut snap: Vec<Snapshot> = Vec::new();
        let n = self.bodies.len();
        let mut i: usize = 0;
        while i < n
            invariant
                n == self.bodies@.len(),
                0 <= i <= n,
                snap@.len() == i as int,
                forall|k: int|
                    0 <= k < i ==> (#[trigger] snap@[k]).name@ == self.bodies@[k].name@
                        && snap@[k].pos == self.bodies@[k].pos && snap@[k].radius
                        == self.bodies@[k].radius && snap@[k].color == self.bodies@[k].color,
            decreases n - i,
        {
            let b = &self.bodies[i];
            snap.push(Snapshot {
                name: clone_name(&b.name),
                pos: b.pos,
                radius: b.radius,
                color: b.color,
            });
            i += 1;
        }
        snap
    }

    /// Answer "which body, if any, is under this world-space point": the
    /// first body in store order within its selection threshold.
    pub fn pick_body(&self, p: Fix2) -> (r: Option<usize>)
        requires
            self.wf(),
            -COORD_LIMIT <= p.x <= COORD_LIMIT,
            -COORD_LIMIT <= p.y <= COORD_LIMIT,
        ensures
            match r {
                Some(i) => i < self.bodies@.len() && hit(self.bodies@[i as int], p) && forall|
                    k: int,
                |
                    0 <= k < i ==> !hit(self.bodies@[k], p),
                None => forall|k: int| 0 <= k < self.bodies@.len() ==> !hit(self.bodies@[k], p),
            },
    {
        let n = self.bodies.len();
        let mut i: usize = 0;
        while i < n
            invariant
                self.wf(),
                -COORD_LIMIT <= p.x <= COORD_LIMIT,
                -COORD_LIMIT <= p.y <= COORD_LIMIT,
                n == self.bodies@.len(),
                0 <= i <= n,
                forall|k: int| 0 <= k < i ==> !hit(self.bodies@[k], p),
            decreases n - i,
        {
            let b = &self.bodies[i];
            proof {
                assert(body_in_range(self.bodies@[i as int]));
            }
            let dx: i128 = b.pos.x as i128 - p.x as i128;
            let dy: i128 = b.pos.y as i128 - p.y as i128;
            proof {
                assert(dx * dx + dy * dy <= 8_000_000_000_000_000_000_000_000 && dx * dx >= 0
                    && dy * dy >= 0) by (nonlinear_arith)
                    requires
                        -2_000_000_000_000 <= dx <= 2_000_000_000_000,
                        -2_000_000_000_000 <= dy <= 2_000_000_000_000,
                ;
            }
            let d2: i128 = dx * dx + dy * dy;
            let doubled: i64 = b.radius * 2;
            let thr: i64 = if doubled > HALF_UNIT {
                doubled
            } else {
                HALF_UNIT
            };
            proof {
                assert((thr as int) * (thr as int) <= 4_000_000_000_000_000_000_000_000)
                    by (nonlinear_arith)
                    requires
                        0 < thr <= 2_000_000_000_000,
                ;
            }
            if d2 < (thr as i128) * (thr as i128) {
                return Some(i);
            }
            i += 1;
        }
        None
    }
}

} // verus!
