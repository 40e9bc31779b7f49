//! Initial-condition loading: merge the fixed per-species table with the
//! external position/velocity source into the initial body store.

use vstd::prelude::*;
use crate::body::{
    body_in_range,
    bodies_in_range, bytes_eq, clone_name, Body, Color, Fix2, COORD_LIMIT, DT_MAX, G_MAX,
    MASS_MAX, MASS_MIN, MAX_BODIES,
};
use crate::math::div_trunc;
use crate::sim::SimState;

verus! {

/// Velocity conversion from distance-per-day to distance-per-year:
/// multiply by `365.2422` as the exact ratio `3_652_422 / 10_000`.
pub const DAYS_PER_YEAR_NUM: i64 = 3_652_422;

pub const DAYS_PER_YEAR_DEN: i64 = 10_000;

/// One row of the fixed species table: identity, mass and display payload.
pub struct Species {
    pub name: Vec<u8>,
    pub mass: u64,
    pub radius: i64,
    pub color: Color,
}

/// One record of the external source: per-body position (raw distance)
/// and velocity (raw distance per *day*).
pub struct InitEntry {
    pub name: Vec<u8>,
    pub pos: Fix2,
    pub vel: Fix2,
}

/// Why loading failed; each variant names the offending body.
#[derive(Debug)]
pub enum LoadError {
    /// More species than the engine supports.
    TooManyBodies,
    /// Two table rows share a name.
    DuplicateName(Vec<u8>),
    /// Mass outside `[MASS_MIN, MASS_MAX]` (in particular, zero).
    MassOutOfRange(Vec<u8>),
    /// Visual radius outside `[0, COORD_LIMIT]`.
    RadiusOutOfRange(Vec<u8>),
    /// A non-anchor body has no record in the external source.
    MissingBody(Vec<u8>),
    /// A sourced position or converted velocity leaves the coordinate range.
    StateOutOfRange(Vec<u8>),
    /// The gravitational constant or the timestep is out of range.
    BadConstants,
}

/// The kind of per-row failure, for stating which error is owed where.
pub enum LoadFault {
    Duplicate,
    Mass,
    Radius,
    Missing,
    State,
}

/// Raw velocity rescaled from per-day to per-year units.
pub open spec fn convert_vel(v: int) -> int {
    div_trunc(v * DAYS_PER_YEAR_NUM, DAYS_PER_YEAR_DEN as int)
}

/// Index of the first source record named `name`, scanning from `k`.
pub open spec fn find_entry(src: Seq<InitEntry>, name: Seq<u8>, k: int) -> Option<int>
    decreases src.len() - k,
{
    if k < 0 || k >= src.len() {
        None
    } else if src[k].name@ == name {
        Some(k)
    } else {
        find_entry(src, name, k + 1)
    }
}

/// The body a species row loads into, assuming its checks pass.  The
/// anchor sits at the origin with zero velocity; every other body takes
/// its sourced position and its converted velocity.
pub open spec fn is_loaded_body(b: Body, sp: Species, src: Seq<InitEntry>, anchor: Seq<u8>) -> bool {
    &&& b.name@ == sp.name@
    &&& b.mass == sp.mass
    &&& b.radius == sp.radius
    &&& b.color == sp.color
    &&& if sp.name@ == anchor {
        b.pos == (Fix2 { x: 0, y: 0 }) && b.vel == (Fix2 { x: 0, y: 0 })
    } else {
        let e = src[find_entry(src, sp.name@, 0)->Some_0];
        b.pos == e.pos && b.vel.x == convert_vel(e.vel.x as int) && b.vel.y == convert_vel(
            e.vel.y as int,
        )
    }
}

/// The first reason row `k` of the table must be rejected, if any, in the
/// order the loader checks: duplicate name, mass, radius, missing source
/// record, out-of-range sourced state.
pub open spec fn row_fault(species: Seq<Species>, src: Seq<InitEntry>, anchor: Seq<u8>, k: int) -> Option<
    LoadFault,
> {
    if exists|m: int| 0 <= m < k && (#[trigger] species[m].name@) == species[k].name@ {
        Some(LoadFault::Duplicate)
    } else if !(MASS_MIN <= species[k].mass <= MASS_MAX) {
        Some(LoadFault::Mass)
    } else if !(0 <= species[k].radius <= COORD_LIMIT) {
        Some(LoadFault::Radius)
    } else if species[k].name@ != anchor && find_entry(src, species[k].name@, 0) is None {
        Some(LoadFault::Missing)
    } else if species[k].name@ != anchor && !body_state_ok(species[k], src) {
        Some(LoadFault::State)
    } else {
        None
    }
}

/// The sourced position and converted velocity of a non-anchor row stay
/// inside the coordinate range.
pub open spec fn body_state_ok(sp: Species, src: Seq<InitEntry>) -> bool {
    let e = src[find_entry(src, sp.name@, 0)->Some_0];
    &&& -COORD_LIMIT <= e.pos.x <= COORD_LIMIT
    &&& -COORD_LIMIT <= e.pos.y <= COORD_LIMIT
    &&& -COORD_LIMIT <= convert_vel(e.vel.x as int) <= COORD_LIMIT
    &&& -COORD_LIMIT <= convert_vel(e.vel.y as int) <= COORD_LIMIT
}

/// Index of the first faulty table row, if any.
pub open spec fn first_fault(species: Seq<Species>, src: Seq<InitEntry>, anchor: Seq<u8>, k: int) -> Option<
    int,
>
    decreases species.len() - k,
{
    if k < 0 || k >= species.len() {
        None
    } else if row_fault(species, src, anchor, k) is Some {
        Some(k)
    } else {
        first_fault(species, src, anchor, k + 1)
    }
}

/// Loading succeeds exactly when the table fits and no row is faulty.
pub open spec fn load_ok(species: Seq<Species>, src: Seq<InitEntry>, anchor: Seq<u8>) -> bool {
    &&& species.len() <= MAX_BODIES
    &&& first_fault(species, src, anchor, 0) is None
}

/// The error owed for fault kind `f` on the row named `name`.
pub open spec fn fault_error(e: LoadError, f: LoadFault, name: Seq<u8>) -> bool {
    match f {
        LoadFault::Duplicate => e matches LoadError::DuplicateName(n) && n@ == name,
        LoadFault::Mass => e matches LoadError::MassOutOfRange(n) && n@ == name,
        LoadFault::Radius => e matches LoadError::RadiusOutOfRange(n) && n@ == name,
        LoadFault::Missing => e matches LoadError::MissingBody(n) && n@ == name,
        LoadFault::State => e matches LoadError::StateOutOfRange(n) && n@ == name,
    }
}

/// First source record with the given name, or `None`.
fn find_in_source<'a>(src: &'a Vec<InitEntry>, name: &Vec<u8>) -> (r: Option<&'a InitEntry>)
    ensures
        match r {
            Some(e) => {
                &&& find_entry(src@, name@, 0) is Some
                &&& *e == src@[find_entry(src@, name@, 0)->Some_0]
            },
            None => find_entry(src@, name@, 0) is None,
        },
{
    let n = src.len();
    let mut k: usize = 0;
    while k < n
        invariant
            n == src@.len(),
            0 <= k <= n,
            find_entry(src@, name@, 0) == find_entry(src@, name@, k as int),
        decreases n - k,
    {
        if bytes_eq(&src[k].name, name) {
            return Some(&src[k]);
        }
        k += 1;
    }
    None
}

/// Convert one raw per-day velocity component to per-year units.
fn convert_vel_exec(v: i64) -> (r: i128)
    ensures
        r == convert_vel(v as int),
{
    proof {
        assert(-40_000_000_000_000_000_000_000_000 <= (v as int) * (DAYS_PER_YEAR_NUM as int)
            <= 40_000_000_000_000_000_000_000_000) by (nonlinear_arith)
            requires
                i64::MIN <= v <= i64::MAX,
        ;
    }
    crate::math::div_trunc_i128((v as i128) * (DAYS_PER_YEAR_NUM as i128), DAYS_PER_YEAR_DEN as i128)
}

/// Build the initial body store from the species table and the external
/// source.  The output order is the table's order.  Exactly the first
/// faulty row's error is returned, and a store is produced exactly when
/// no row is faulty.
#[verifier::loop_isolation(false)]
pub fn load_bodies(species: &Vec<Species>, src: &Vec<InitEntry>, anchor: &Vec<u8>) -> (r: Result<
    Vec<Body>,
    LoadError,
>)
    ensures
        r is Ok <==> load_ok(species@, src@, anchor@),
        r matches Ok(bs) ==> {
            &&& bs@.len() == species@.len()
            &&& forall|k: int|
                0 <= k < species@.len() ==> is_loaded_body(
                    #[trigger] bs@[k],
                    species@[k],
                    src@,
                    anchor@,
                )
            &&& bodies_in_range(bs@)
        },
        r matches Err(e) ==> {
            ||| (species@.len() > MAX_BODIES && e is TooManyBodies)
            ||| {
                &&& first_fault(species@, src@, anchor@, 0) matches Some(k)
                &&& fault_error(e, row_fault(species@, src@, anchor@, k)->Some_0, species@[k].name@)
            }
        },
{
    if species.len() > MAX_BODIES {
        return Err(LoadError::TooManyBodies);
    }
    let n = species.len();
    let mut bodies: Vec<Body> = Vec::new();
    let mut k: usize = 0;
    while k < n
        invariant
            n == species@.len() <= MAX_BODIES,
            0 <= k <= n,
            bodies@.len() == k as int,
            first_fault(species@, src@, anchor@, 0) == first_fault(species@, src@, anchor@, k as int),
            forall|m: int|
                0 <= m < k ==> is_loaded_body(#[trigger] bodies@[m], species@[m], src@, anchor@),
            forall|m: int| 0 <= m < k ==> body_in_range(#[trigger] bodies@[m]),
            forall|a: int, b: int|
                0 <= a < b < k ==> (#[trigger] species@[a].name@) != (#[trigger] species@[b].name@),
        decreases n - k,
    {
        let sp = &species[k];
        // Duplicate-name check against earlier rows.
        let mut m: usize = 0;
        while m < k
            invariant
                0 <= m <= k < n == species@.len(),
                sp.name@ == species@[k as int].name@,
                forall|t: int| 0 <= t < m ==> (#[trigger] species@[t].name@) != species@[k as int].name@,
            decreases k - m,
        {
            if bytes_eq(&species[m].name, &sp.name) {
                proof {
                    assert(species@[m as int].name@ == species@[k as int].name@);
                    assert(row_fault(species@, src@, anchor@, k as int)
                        == Some(LoadFault::Duplicate));
                    assert(first_fault(species@, src@, anchor@, k as int) == Some(k as int));
                }
                return Err(LoadError::DuplicateName(clone_name(&sp.name)));
            }
            m += 1;
        }
        if !(sp.mass >= MASS_MIN && sp.mass <= MASS_MAX) {
            proof {
                assert(row_fault(species@, src@, anchor@, k as int) == Some(LoadFault::Mass));
                assert(first_fault(species@, src@, anchor@, k as int) == Some(k as int));
            }
            return Err(LoadError::MassOutOfRange(clone_name(&sp.name)));
        }
        if !(sp.radius >= 0 && sp.radius <= COORD_LIMIT) {
            proof {
                assert(row_fault(species@, src@, anchor@, k as int) == Some(LoadFault::Radius));
                assert(first_fault(species@, src@, anchor@, k as int) == Some(k as int));
            }
            return Err(LoadError::RadiusOutOfRange(clone_name(&sp.name)));
        }
        let is_anchor = bytes_eq(&sp.name, anchor);
        let body: Body;
        if is_anchor {
            body = Body {
                name: clone_name(&sp.name),
                mass: sp.mass,
                pos: Fix2 { x: 0, y: 0 },
                vel: Fix2 { x: 0, y: 0 },
                radius: sp.radius,
                color: sp.color,
            };
        } else {
            let entry = match find_in_source(src, &sp.name) {
                Some(e) => e,
                None => {
                    proof {
                        assert(row_fault(species@, src@, anchor@, k as int)
                            == Some(LoadFault::Missing));
                        assert(first_fault(species@, src@, anchor@, k as int)
                            == Some(k as int));
                    }
                    return Err(LoadError::MissingBody(clone_name(&sp.name)));
                },
            };
            let vx = convert_vel_exec(entry.vel.x);
            let vy = convert_vel_exec(entry.vel.y);
            if !(entry.pos.x >= -COORD_LIMIT && entry.pos.x <= COORD_LIMIT && entry.pos.y
                >= -COORD_LIMIT && entry.pos.y <= COORD_LIMIT && vx >= -COORD_LIMIT as i128 && vx
                <= COORD_LIMIT as i128 && vy >= -COORD_LIMIT as i128 && vy
                <= COORD_LIMIT as i128) {
                proof {
                    assert(!body_state_ok(species@[k as int], src@));
                    assert(row_fault(species@, src@, anchor@, k as int)
                        == Some(LoadFault::State));
                    assert(first_fault(species@, src@, anchor@, k as int) == Some(k as int));
                }
                return Err(LoadError::StateOutOfRange(clone_name(&sp.name)));
            }
            body = Body {
                name: clone_name(&sp.name),
                mass: sp.mass,
                pos: entry.pos,
                vel: Fix2 { x: vx as i64, y: vy as i64 },
                radius: sp.radius,
                color: sp.color,
            };
        }
        proof {
            assert(row_fault(species@, src@, anchor@, k as int) is None);
        }
        bodies.push(body);
        k += 1;
    }
    proof {
        assert(bodies_in_range(bodies@));
    }
    Ok(bodies)
}

impl SimState {
    /// Start a run: load the store, validate the run constants, begin
    /// unpaused.
    pub fn start(
        species: &Vec<Species>,
        src: &Vec<InitEntry>,
        anchor: &Vec<u8>,
        g: u64,
        dt: u64,
    ) -> (r: Result<SimState, LoadError>)
        ensures
            r is Ok <==> (load_ok(species@, src@, anchor@) && 0 < g <= G_MAX && 0 < dt <= DT_MAX),
            r matches Ok(st) ==> {
                &&& st.wf()
                &&& st.g == g
                &&& st.dt == dt
                &&& !st.paused
                &&& st.bodies@.len() == species@.len()
                &&& forall|k: int|
                    0 <= k < species@.len() ==> is_loaded_body(
                        #[trigger] st.bodies@[k],
                        species@[k],
                        src@,
                        anchor@,
                    )
            },
    {
        if !(g >= 1 && g <= G_MAX && dt >= 1 && dt <= DT_MAX) {
            return Err(LoadError::BadConstants);
        }
        match load_bodies(species, src, anchor) {
            Ok(bodies) => Ok(
                SimState { bodies, g, dt, paused: false },
            ),
            Err(e) => Err(e),
        }
    }
}

} // verus!
