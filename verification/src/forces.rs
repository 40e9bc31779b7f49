//! Pairwise gravity: the exact integer model of each pair's force and each
//! body's net acceleration, and the verified accumulation pass.

use vstd::prelude::*;
use vstd::arithmetic::div_mod::{
    lemma_div_is_ordered, lemma_div_is_ordered_by_denominator, lemma_div_multiples_vanish,
    lemma_div_pos_is_pos,
};
use vstd::arithmetic::mul::lemma_mul_upper_bound;
use crate::body::{bodies_in_range, Body, G_MAX, MASS_MAX, MASS_MIN, MAX_BODIES};
use crate::math::{div_trunc, isqrt, lemma_div_trunc_bound, lemma_isqrt_bounds, MASS_SCALE};

verus! {

/// Squared minimum separation: pairs closer than `10^-4` distance units
/// contribute no force (the raw square carries two factors of `SCALE`).
pub const EPS2_RAW: i128 = 10_000_000_000;

/// Force components carry `FORCE_SCALE` raw steps per force unit.
pub const FORCE_SCALE: i128 = 1_000_000_000_000;

/// `MASS_SCALE * SCALE / FORCE_SCALE`: turns force into acceleration when
/// dividing by a raw mass.
pub const ACCEL_FACTOR: i128 = 1_000_000_000_000_000;

/// Bound on one pair's raw force component under `bodies_in_range`.
pub const FORCE_ONE_BOUND: i128 = 20_000_000_000_000_000_000_000;

/// Bound on one pair's raw acceleration contribution.
pub const ACCEL_ONE_BOUND: i128 = 20_000_000_000_000_000_000_000_000_000;

/// Bound on a body's raw net acceleration component.
pub const ACCEL_NET_BOUND: i128 = 1_280_000_000_000_000_000_000_000_000_000;

/// Net acceleration of one body, exec form.
#[derive(Clone, Copy, PartialEq, Eq, Structural, Debug)]
pub struct Accel {
    pub x: i128,
    pub y: i128,
}

/// Displacement from body `i` toward body `j`, x component.
pub open spec fn delta_x(s: Seq<Body>, i: int, j: int) -> int {
    s[j].pos.x - s[i].pos.x
}

/// Displacement from body `i` toward body `j`, y component.
pub open spec fn delta_y(s: Seq<Body>, i: int, j: int) -> int {
    s[j].pos.y - s[i].pos.y
}

/// Raw squared distance between bodies `i` and `j`.
pub open spec fn dist2(s: Seq<Body>, i: int, j: int) -> int {
    delta_x(s, i, j) * delta_x(s, i, j) + delta_y(s, i, j) * delta_y(s, i, j)
}

/// Raw magnitude of the gravitational force between `i` and `j`:
/// `g * m_i * m_j / r^2`, evaluated left to right over the raw scales;
/// the factor 1000 is `FORCE_SCALE / SCALE`, landing the result on the
/// force scale.  Symmetric in `i` and `j`.
pub open spec fn force_mag(s: Seq<Body>, g: int, i: int, j: int) -> int {
    ((g * ((s[i].mass * s[j].mass) / (MASS_SCALE as int))) * 1000) / dist2(s, i, j)
}

/// Raw force that body `j` exerts on body `i`: magnitude `force_mag`
/// directed along the displacement, zero for a self-pair or below the
/// minimum separation.
pub open spec fn pair_force(s: Seq<Body>, g: int, i: int, j: int) -> (int, int) {
    if i == j || dist2(s, i, j) <= EPS2_RAW as int {
        (0, 0)
    } else {
        let r = isqrt(dist2(s, i, j));
        (
            div_trunc(force_mag(s, g, i, j) * delta_x(s, i, j), r),
            div_trunc(force_mag(s, g, i, j) * delta_y(s, i, j), r),
        )
    }
}

/// Raw acceleration contribution of body `j` to body `i`: the pair force
/// divided by `i`'s own mass.
pub open spec fn pair_accel(s: Seq<Body>, g: int, i: int, j: int) -> (int, int) {
    let f = pair_force(s, g, i, j);
    (
        div_trunc(f.0 * (ACCEL_FACTOR as int), s[i].mass as int),
        div_trunc(f.1 * (ACCEL_FACTOR as int), s[i].mass as int),
    )
}

/// Partial sum of `i`'s acceleration contributions from bodies `0 .. k`,
/// in store order.
pub open spec fn accel_upto(s: Seq<Body>, g: int, i: int, k: int) -> (int, int)
    decreases k,
{
    if k <= 0 {
        (0, 0)
    } else {
        let p = accel_upto(s, g, i, k - 1);
        let c = pair_accel(s, g, i, k - 1);
        (p.0 + c.0, p.1 + c.1)
    }
}

/// Net raw acceleration of body `i`: contributions from every body, in
/// store order (a self-pair contributes zero).
pub open spec fn net_accel(s: Seq<Body>, g: int, i: int) -> (int, int) {
    accel_upto(s, g, i, s.len() as int)
}

/// Partial sum of the forces on body `i` from bodies `0 .. k`.
pub open spec fn force_upto(s: Seq<Body>, g: int, i: int, k: int) -> (int, int)
    decreases k,
{
    if k <= 0 {
        (0, 0)
    } else {
        let p = force_upto(s, g, i, k - 1);
        let c = pair_force(s, g, i, k - 1);
        (p.0 + c.0, p.1 + c.1)
    }
}

/// Partial sum of the forces that body `j` exerts on bodies `0 .. m`.
pub open spec fn col_force_upto(s: Seq<Body>, g: int, j: int, m: int) -> (int, int)
    decreases m,
{
    if m <= 0 {
        (0, 0)
    } else {
        let p = col_force_upto(s, g, j, m - 1);
        let c = pair_force(s, g, m - 1, j);
        (p.0 + c.0, p.1 + c.1)
    }
}

/// Sum over bodies `0 .. m` of the forces each receives from bodies
/// `0 .. k`.
pub open spec fn total_force_upto(s: Seq<Body>, g: int, m: int, k: int) -> (int, int)
    decreases m,
{
    if m <= 0 {
        (0, 0)
    } else {
        let p = total_force_upto(s, g, m - 1, k);
        let c = force_upto(s, g, m - 1, k);
        (p.0 + c.0, p.1 + c.1)
    }
}

/// The sum over every body of the net force it receives (each inner sum
/// running over the whole store).
pub open spec fn total_force(s: Seq<Body>, g: int) -> (int, int) {
    total_force_upto(s, g, s.len() as int, s.len() as int)
}

/// One pair's acceleration contribution, computed exactly as the model
/// states it.
fn pair_accel_exec(bodies: &Vec<Body>, g: u64, i: usize, j: usize) -> (r: (i128, i128))
    requires
        bodies_in_range(bodies@),
        0 < g <= G_MAX,
        i < bodies@.len(),
        j < bodies@.len(),
    ensures
        (r.0 as int, r.1 as int) == pair_accel(bodies@, g as int, i as int, j as int),
        -ACCEL_ONE_BOUND <= r.0 <= ACCEL_ONE_BOUND,
        -ACCEL_ONE_BOUND <= r.1 <= ACCEL_ONE_BOUND,
{
    let ghost s = bodies@;
    let ghost gi = g as int;
    let mi: u64 = bodies[i].mass;
    proof {
        vstd::arithmetic::div_mod::lemma_div_of0(mi as int);
    }
    if i == j {
        return (0, 0);
    }
    let dx: i128 = bodies[j].pos.x as i128 - bodies[i].pos.x as i128;
    let dy: i128 = bodies[j].pos.y as i128 - bodies[i].pos.y as i128;
    proof {
        assert(dx * dx <= 4_000_000_000_000_000_000_000_000 && dx * dx >= 0) by (nonlinear_arith)
            requires
                -2_000_000_000_000 <= dx <= 2_000_000_000_000,
        ;
        assert(dy * dy <= 4_000_000_000_000_000_000_000_000 && dy * dy >= 0) by (nonlinear_arith)
            requires
                -2_000_000_000_000 <= dy <= 2_000_000_000_000,
        ;
    }
    let d2: i128 = dx * dx + dy * dy;
    if d2 <= EPS2_RAW {
        return (0, 0);
    }
    let mj: u64 = bodies[j].mass;
    proof {
        assert((mi as u128) * (mj as u128) <= 4_000_000_000_000_000_000_000_000_000_000_000_000)
            by (nonlinear_arith)
            requires
                mi <= 2_000_000_000_000_000_000u64,
                mj <= 2_000_000_000_000_000_000u64,
        ;
    }
    let mprod: u128 = (mi as u128) * (mj as u128);
    let q: u128 = mprod / (MASS_SCALE as u128);
    proof {
        lemma_div_pos_is_pos(mprod as int, MASS_SCALE as int);
        lemma_div_is_ordered(
            mprod as int,
            4_000_000_000_000_000_000_000_000_000_000_000_000,
            MASS_SCALE as int,
        );
        lemma_div_multiples_vanish(4_000_000_000_000_000_000, MASS_SCALE as int);
        assert(q <= 4_000_000_000_000_000_000);
        lemma_mul_upper_bound(g as int, G_MAX as int, q as int, 4_000_000_000_000_000_000);
        vstd::arithmetic::mul::lemma_mul_nonnegative(g as int, q as int);
    }
    let num2: u128 = (g as u128) * q;
    let num3: u128 = num2 * 1000;
    proof {
        lemma_div_pos_is_pos(num3 as int, d2 as int);
        lemma_div_is_ordered_by_denominator(num3 as int, EPS2_RAW as int, d2 as int);
        lemma_div_is_ordered(
            num3 as int,
            200_000_000_000_000_000_000_000_000_000_000,
            EPS2_RAW as int,
        );
        lemma_div_multiples_vanish(FORCE_ONE_BOUND as int, EPS2_RAW as int);
    }
    let fmag: u128 = num3 / (d2 as u128);
    assert(fmag <= FORCE_ONE_BOUND as u128);
    let rt: u128 = crate::math::isqrt_u128(d2 as u128);
    proof {
        lemma_isqrt_bounds(d2 as int);
        assert(rt >= 100_000) by (nonlinear_arith)
            requires
                rt >= 0,
                d2 > 10_000_000_000,
                (d2 as int) < (rt + 1) * (rt + 1),
        ;
        assert(rt <= 3_000_000_000_000) by (nonlinear_arith)
            requires
                rt >= 0,
                (rt as int) * (rt as int) <= d2 as int,
                d2 <= 8_000_000_000_000_000_000_000_000,
        ;
        assert(dx * dx <= d2 && dy * dy <= d2) by (nonlinear_arith)
            requires
                d2 == dx * dx + dy * dy,
        ;
        assert(-(rt as int) <= dx as int <= rt as int) by (nonlinear_arith)
            requires
                (dx as int) * (dx as int) <= d2 as int,
                (d2 as int) < (rt + 1) * (rt + 1),
                rt >= 0,
        ;
        assert(-(rt as int) <= dy as int <= rt as int) by (nonlinear_arith)
            requires
                (dy as int) * (dy as int) <= d2 as int,
                (d2 as int) < (rt + 1) * (rt + 1),
                rt >= 0,
        ;
        assert((fmag as int) * (rt as int) <= FORCE_ONE_BOUND * 3_000_000_000_000)
            by (nonlinear_arith)
            requires
                0 <= fmag as int <= FORCE_ONE_BOUND,
                0 <= rt as int <= 3_000_000_000_000,
        ;
        assert(-((fmag as int) * (rt as int)) <= (fmag as int) * (dx as int)
            <= (fmag as int) * (rt as int)) by (nonlinear_arith)
            requires
                fmag >= 0,
                -(rt as int) <= dx as int <= rt as int,
        ;
        assert(-((fmag as int) * (rt as int)) <= (fmag as int) * (dy as int)
            <= (fmag as int) * (rt as int)) by (nonlinear_arith)
            requires
                fmag >= 0,
                -(rt as int) <= dy as int <= rt as int,
        ;
        lemma_div_trunc_bound(
            (fmag as int) * (dx as int),
            rt as int,
            (fmag as int) * (rt as int),
        );
        lemma_div_trunc_bound(
            (fmag as int) * (dy as int),
            rt as int,
            (fmag as int) * (rt as int),
        );
        lemma_div_multiples_vanish(fmag as int, rt as int);
        assert((rt as int) * (fmag as int) == (fmag as int) * (rt as int));
    }
    let fx: i128 = crate::math::div_trunc_i128((fmag as i128) * dx, rt as i128);
    let fy: i128 = crate::math::div_trunc_i128((fmag as i128) * dy, rt as i128);
    assert(-FORCE_ONE_BOUND <= fx <= FORCE_ONE_BOUND);
    assert(-FORCE_ONE_BOUND <= fy <= FORCE_ONE_BOUND);
    proof {
        lemma_div_trunc_bound(
            (fx as int) * (ACCEL_FACTOR as int),
            mi as int,
            FORCE_ONE_BOUND as int * ACCEL_FACTOR as int,
        );
        lemma_div_trunc_bound(
            (fy as int) * (ACCEL_FACTOR as int),
            mi as int,
            FORCE_ONE_BOUND as int * ACCEL_FACTOR as int,
        );
        lemma_div_is_ordered_by_denominator(
            FORCE_ONE_BOUND as int * ACCEL_FACTOR as int,
            MASS_MIN as int,
            mi as int,
        );
        lemma_div_multiples_vanish(ACCEL_ONE_BOUND as int, MASS_MIN as int);
    }
    let ax: i128 = crate::math::div_trunc_i128(fx * ACCEL_FACTOR, mi as i128);
    let ay: i128 = crate::math::div_trunc_i128(fy * ACCEL_FACTOR, mi as i128);
    proof {
        assert((ax as int, ay as int) == pair_accel(s, gi, i as int, j as int));
    }
    (ax, ay)
}

/// The force-accumulation pass: one net acceleration per body, computed
/// from one consistent snapshot of positions and masses, summed in store
/// order.  This is read-only over the store.
pub fn accumulate_accels(bodies: &Vec<Body>, g: u64) -> (accs: Vec<Accel>)
    requires
        bodies_in_range(bodies@),
        0 < g <= G_MAX,
    ensures
        accs@.len() == bodies@.len(),
        forall|i: int|
            0 <= i < bodies@.len() ==> ((#[trigger] accs@[i]).x as int, accs@[i].y as int)
                == net_accel(bodies@, g as int, i),
        forall|i: int|
            0 <= i < bodies@.len() ==> -ACCEL_NET_BOUND <= (#[trigger] accs@[i]).x
                <= ACCEL_NET_BOUND && -ACCEL_NET_BOUND <= accs@[i].y <= ACCEL_NET_BOUND,
{
    let ghost s = bodies@;
    let ghost gi = g as int;
    let n = bodies.len();
    let mut accs: Vec<Accel> = Vec::new();
    let mut i: usize = 0;
    while i < n
        invariant
            bodies_in_range(s),
            s == bodies@,
            gi == g as int,
            0 < g <= G_MAX,
            n == s.len(),
            0 <= i <= n,
            accs@.len() == i as int,
            forall|k: int|
                0 <= k < i ==> ((#[trigger] accs@[k]).x as int, accs@[k].y as int)
                    == net_accel(s, gi, k),
            forall|k: int|
                0 <= k < i ==> -ACCEL_NET_BOUND <= (#[trigger] accs@[k]).x <= ACCEL_NET_BOUND
                    && -ACCEL_NET_BOUND <= accs@[k].y <= ACCEL_NET_BOUND,
        decreases n - i,
    {
        let mut ax: i128 = 0;
        let mut ay: i128 = 0;
        let mut j: usize = 0;
        while j < n
            invariant
                bodies_in_range(s),
                s == bodies@,
                gi == g as int,
                0 < g <= G_MAX,
                n == s.len(),
                i < n,
                0 <= j <= n,
                (ax as int, ay as int) == accel_upto(s, gi, i as int, j as int),
                -(j as int) * ACCEL_ONE_BOUND <= ax <= (j as int) * ACCEL_ONE_BOUND,
                -(j as int) * ACCEL_ONE_BOUND <= ay <= (j as int) * ACCEL_ONE_BOUND,
            decreases n - j,
        {
            let c = pair_accel_exec(bodies, g, i, j);
            proof {
                assert((j + 1) as int * ACCEL_ONE_BOUND == (j as int) * ACCEL_ONE_BOUND
                    + ACCEL_ONE_BOUND) by (nonlinear_arith);
                assert((j as int) * ACCEL_ONE_BOUND <= (MAX_BODIES - 1) as int
                    * ACCEL_ONE_BOUND) by (nonlinear_arith)
                    requires
                        0 <= j as int <= MAX_BODIES - 1,
                ;
            }
            ax = ax + c.0;
            ay = ay + c.1;
            j += 1;
        }
        proof {
            assert((n as int) * ACCEL_ONE_BOUND <= ACCEL_NET_BOUND) by (nonlinear_arith)
                requires
                    0 <= n as int <= MAX_BODIES as int,
            ;
            assert(-(n as int) * ACCEL_ONE_BOUND >= -ACCEL_NET_BOUND);
        }
        accs.push(Accel { x: ax, y: ay });
        i += 1;
    }
    accs
}

} // verus!
