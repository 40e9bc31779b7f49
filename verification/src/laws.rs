//! The engine's stated laws, proved against the spec model: action and
//! reaction, vanishing total force, degenerate-store stability,
//! determinism, and pause transparency.

use vstd::prelude::*;
use crate::body::{bodies_in_range, body_in_range, Body, Fix2, DT_MAX};
use crate::forces::{
    accel_upto, col_force_upto, delta_x, delta_y, dist2, force_mag, force_upto, net_accel,
    pair_accel, pair_force, total_force, total_force_upto, EPS2_RAW,
};
use crate::math::{isqrt, lemma_div_trunc_odd, lemma_isqrt_bounds};
use crate::sim::{advance_n_view, integrate_body, run_n, step_bodies};

verus! {

/// Newton's third law over the model: the force body `j` exerts on body
/// `i` is the exact negation, component by component, of the force `i`
/// exerts on `j` — for every pair, coincident and self-pairs giving zero
/// on both sides.
pub proof fn lemma_pair_force_antisymmetric(s: Seq<Body>, g: int, i: int, j: int)
    requires
        0 <= i < s.len(),
        0 <= j < s.len(),
    ensures
        pair_force(s, g, i, j).0 == -pair_force(s, g, j, i).0,
        pair_force(s, g, i, j).1 == -pair_force(s, g, j, i).1,
{
    if i != j {
        let dx = delta_x(s, i, j);
        let dy = delta_y(s, i, j);
        assert(delta_x(s, j, i) == -dx);
        assert(delta_y(s, j, i) == -dy);
        assert(dx * dx == (-dx) * (-dx) && dy * dy == (-dy) * (-dy)) by (nonlinear_arith);
        assert(dist2(s, j, i) == dist2(s, i, j));
        assert(s[i].mass * s[j].mass == s[j].mass * s[i].mass) by (nonlinear_arith);
        assert(force_mag(s, g, j, i) == force_mag(s, g, i, j));
        if dist2(s, i, j) > EPS2_RAW as int {
            let d2 = dist2(s, i, j);
            let r = isqrt(d2);
            lemma_isqrt_bounds(d2);
            assert(r >= 1) by (nonlinear_arith)
                requires
                    r >= 0,
                    d2 < (r + 1) * (r + 1),
                    d2 > EPS2_RAW as int,
            ;
            let f = force_mag(s, g, i, j);
            assert(f * (-dx) == -(f * dx) && f * (-dy) == -(f * dy)) by (nonlinear_arith);
            lemma_div_trunc_odd(f * dx, r);
            lemma_div_trunc_odd(f * dy, r);
        }
    }
}

/// The forces a body exerts on a prefix of the store sum to the exact
/// negation of the forces it receives from that prefix.
proof fn lemma_col_is_neg_row(s: Seq<Body>, g: int, j: int, m: int)
    requires
        0 <= j < s.len(),
        0 <= m <= s.len(),
    ensures
        col_force_upto(s, g, j, m).0 == -force_upto(s, g, j, m).0,
        col_force_upto(s, g, j, m).1 == -force_upto(s, g, j, m).1,
    decreases m,
{
    if m > 0 {
        lemma_col_is_neg_row(s, g, j, m - 1);
        lemma_pair_force_antisymmetric(s, g, m - 1, j);
    }
}

/// Widening the inner sum by one source body adds that body's column.
proof fn lemma_total_extend(s: Seq<Body>, g: int, m: int, k: int)
    requires
        0 <= m <= s.len(),
        1 <= k <= s.len(),
    ensures
        total_force_upto(s, g, m, k).0 == total_force_upto(s, g, m, k - 1).0 + col_force_upto(
            s,
            g,
            k - 1,
            m,
        ).0,
        total_force_upto(s, g, m, k).1 == total_force_upto(s, g, m, k - 1).1 + col_force_upto(
            s,
            g,
            k - 1,
            m,
        ).1,
    decreases m,
{
    if m > 0 {
        lemma_total_extend(s, g, m - 1, k);
    }
}

/// Over any square prefix of the pair grid the forces cancel exactly.
proof fn lemma_total_square_zero(s: Seq<Body>, g: int, k: int)
    requires
        0 <= k <= s.len(),
    ensures
        total_force_upto(s, g, k, k) == (0int, 0int),
    decreases k,
{
    if k > 0 {
        lemma_total_square_zero(s, g, k - 1);
        lemma_total_extend(s, g, k - 1, k);
        lemma_col_is_neg_row(s, g, k - 1, k - 1);
    }
}

/// With the pairwise forces exactly antisymmetric, the net forces over
/// the whole store sum to zero, component by component — the discrete
/// ground for momentum conservation of an isolated system.
pub proof fn lemma_total_force_zero(s: Seq<Body>, g: int)
    ensures
        total_force(s, g) == (0int, 0int),
{
    lemma_total_square_zero(s, g, s.len() as int);
}

/// With zero bodies a tick is a no-op.
pub proof fn lemma_empty_step(g: int, dt: int)
    ensures
        step_bodies(Seq::<Body>::empty(), g, dt) == Seq::<Body>::empty(),
{
    assert(step_bodies(Seq::<Body>::empty(), g, dt) =~= Seq::<Body>::empty());
}

/// A lone body feels exactly zero acceleration and keeps its velocity;
/// if it rests, it never moves.
pub proof fn lemma_single_body(s: Seq<Body>, g: int, dt: int)
    requires
        s.len() == 1,
        bodies_in_range(s),
        0 < dt <= DT_MAX as int,
    ensures
        net_accel(s, g, 0) == (0int, 0int),
        step_bodies(s, g, dt)[0].vel == s[0].vel,
        s[0].vel == (Fix2 { x: 0i64, y: 0i64 }) ==> step_bodies(s, g, dt) == s,
{
    assert(body_in_range(s[0]));
    vstd::arithmetic::div_mod::lemma_div_of0(s[0].mass as int);
    assert(pair_force(s, g, 0, 0) == (0int, 0int));
    assert(pair_accel(s, g, 0, 0) == (0int, 0int));
    assert(accel_upto(s, g, 0, 0) == (0int, 0int));
    assert(net_accel(s, g, 0) == (0int, 0int));
    vstd::arithmetic::div_mod::lemma_div_of0(crate::math::SCALE as int);
    let b = integrate_body(s[0], 0, 0, dt);
    assert(b.vel == s[0].vel);
    if s[0].vel == (Fix2 { x: 0i64, y: 0i64 }) {
        assert(b == s[0]);
        assert(step_bodies(s, g, dt) =~= s);
    }
}

/// Determinism: equal stores, constants and timestep give equal
/// trajectories for any number of ticks.
pub proof fn lemma_run_deterministic(s: Seq<Body>, t: Seq<Body>, g: int, dt: int, n: nat)
    requires
        s == t,
    ensures
        run_n(s, g, dt, n) == run_n(t, g, dt, n),
{
}

/// While paused, any number of advance requests leaves the store as it
/// was: pausing only gates whether a tick begins.
pub proof fn lemma_paused_advances_noop(s: Seq<Body>, g: int, dt: int, n: nat)
    ensures
        advance_n_view(s, true, g, dt, n) == s,
    decreases n,
{
    if n > 0 {
        lemma_paused_advances_noop(s, g, dt, (n - 1) as nat);
    }
}

/// After resuming, `n` advance requests land on exactly the same store
/// as `n` ticks of a run that was never paused: pause toggles store
/// nothing, so the trajectory depends only on the bodies themselves.
pub proof fn lemma_resumed_run_matches(s: Seq<Body>, g: int, dt: int, n: nat)
    ensures
        advance_n_view(s, false, g, dt, n) == run_n(s, g, dt, n),
    decreases n,
{
    if n > 0 {
        lemma_resumed_run_matches(s, g, dt, (n - 1) as nat);
    }
}

} // verus!
