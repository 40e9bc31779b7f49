//! Body records and the validity bounds the engine works under.

use vstd::prelude::*;

verus! {

/// Passive display colour carried through the snapshot; the dynamics never
/// read it.
#[derive(Clone, Copy, PartialEq, Eq, Structural, Debug)]
pub struct Color {
    pub red: u8,
    pub green: u8,
    pub blue: u8,
}

/// A fixed-point 2-vector: each component is `value * SCALE`.
#[derive(Clone, Copy, PartialEq, Eq, Structural, Debug)]
pub struct Fix2 {
    pub x: i64,
    pub y: i64,
}

/// One point mass: identity, dynamical state, and display payload.
/// `mass` is scaled by `MASS_SCALE`; `pos` and `vel` by `SCALE`.
#[derive(Debug)]
pub struct Body {
    pub name: Vec<u8>,
    pub mass: u64,
    pub pos: Fix2,
    pub vel: Fix2,
    pub radius: i64,
    pub color: Color,
}

/// Largest position or velocity component the engine supports.
pub const COORD_LIMIT: i64 = 1_000_000_000_000;

/// Mass bounds: from about a fifth of a Pluto up to two suns.
pub const MASS_MIN: u64 = 1_000_000_000;

pub const MASS_MAX: u64 = 2_000_000_000_000_000_000;

/// Largest supported gravitational constant (50 in simulation units).
pub const G_MAX: u64 = 50_000_000_000;

/// Largest supported timestep (a tenth of a time unit).
pub const DT_MAX: u64 = 100_000_000;

/// Most bodies a run may hold.
pub const MAX_BODIES: usize = 64;

/// The dynamical fields of one body are inside the supported ranges.
pub open spec fn body_in_range(b: Body) -> bool {
    &&& MASS_MIN <= b.mass <= MASS_MAX
    &&& -COORD_LIMIT <= b.pos.x <= COORD_LIMIT
    &&& -COORD_LIMIT <= b.pos.y <= COORD_LIMIT
    &&& -COORD_LIMIT <= b.vel.x <= COORD_LIMIT
    &&& -COORD_LIMIT <= b.vel.y <= COORD_LIMIT
    &&& 0 <= b.radius <= COORD_LIMIT
}

/// A well-formed store: few enough bodies, every record in range, and
/// names pairwise distinct, so a name resolves to exactly one record.
pub open spec fn bodies_in_range(s: Seq<Body>) -> bool {
    &&& s.len() <= MAX_BODIES
    &&& forall|i: int| 0 <= i < s.len() ==> body_in_range(#[trigger] s[i])
    &&& forall|i: int, j: int|
        0 <= i < j < s.len() ==> (#[trigger] s[i].name@) != (#[trigger] s[j].name@)
}

/// An exact copy of a name.
pub fn clone_name(v: &Vec<u8>) -> (r: Vec<u8>)
    ensures
        r@ == v@,
{
    let mut r: Vec<u8> = Vec::new();
    let n = v.len();
    let mut i: usize = 0;
    while i < n
        invariant
            n == v@.len(),
            0 <= i <= n,
            r@.len() == i as int,
            forall|k: int| 0 <= k < i ==> r@[k] == v@[k],
        decreases n - i,
    {
        r.push(v[i]);
        i += 1;
    }
    proof {
        assert(r@ =~= v@);
    }
    r
}

/// Byte-string equality, the engine's name comparison.
pub fn bytes_eq(a: &Vec<u8>, b: &Vec<u8>) -> (r: bool)
    ensures
        r == (a@ == b@),
{
    if a.len() != b.len() {
        assert(a@ != b@) by {
            assert(a@.len() != b@.len());
        }
        return false;
    }
    let n = a.len();
    let mut i: usize = 0;
    while i < n
        invariant
            n == a@.len() == b@.len(),
            0 <= i <= n,
            forall|k: int| 0 <= k < i ==> a@[k] == b@[k],
        decreases n - i,
    {
        if a[i] != b[i] {
            return false;
        }
        i += 1;
    }
    proof {
        assert(a@ =~= b@);
    }
    true
}

} // verus!
