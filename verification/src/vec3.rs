//! Fixed-point 3-vectors.  The physics collaborator owns poses as floating
//! point; the core reads them as integers in micro-units (millionths of a
//! world unit), so every geometric decision it makes is exact.

use vstd::prelude::*;

verus! {

/// Largest coordinate magnitude the core works with, in micro-units
/// (a million world units - far beyond the play area).  Keeping every
/// vector inside this range keeps all products inside `i128`.
pub const COORD_LIMIT: i64 = 1_000_000_000_000;

/// An exact position, axis or velocity: coordinates in micro-units.
#[derive(Clone, Copy, Debug, PartialEq, Eq, Structural)]
pub struct Vec3 {
    pub x: i64,
    pub y: i64,
    pub z: i64,
}

/// The same vector, seen as unbounded integers for specifications.
pub struct IVec3 {
    pub x: int,
    pub y: int,
    pub z: int,
}

impl Vec3 {
    /// The mathematical value of this vector.
    pub open spec fn view(self) -> IVec3 {
        IVec3 { x: self.x as int, y: self.y as int, z: self.z as int }
    }

    /// Every coordinate within the working range.
    pub open spec fn in_range(self) -> bool {
        -COORD_LIMIT <= self.x <= COORD_LIMIT && -COORD_LIMIT <= self.y <= COORD_LIMIT
            && -COORD_LIMIT <= self.z <= COORD_LIMIT
    }

    /// Every coordinate within twice the working range (a difference of two
    /// in-range vectors lands here).
    pub open spec fn in_wide_range(self) -> bool {
        -2 * COORD_LIMIT <= self.x <= 2 * COORD_LIMIT && -2 * COORD_LIMIT <= self.y <= 2
            * COORD_LIMIT && -2 * COORD_LIMIT <= self.z <= 2 * COORD_LIMIT
    }

    pub fn new(x: i64, y: i64, z: i64) -> (v: Vec3)
        ensures
            v.x == x && v.y == y && v.z == z,
    {
        Vec3 { x, y, z }
    }
}

/// Componentwise difference.
pub open spec fn ivsub(a: IVec3, b: IVec3) -> IVec3 {
    IVec3 { x: a.x - b.x, y: a.y - b.y, z: a.z - b.z }
}

/// Dot product.
pub open spec fn ivdot(a: IVec3, b: IVec3) -> int {
    a.x * b.x + a.y * b.y + a.z * b.z
}

/// Cross product.
pub open spec fn ivcross(a: IVec3, b: IVec3) -> IVec3 {
    IVec3 {
        x: a.y * b.z - a.z * b.y,
        y: a.z * b.x - a.x * b.z,
        z: a.x * b.y - a.y * b.x,
    }
}

/// Scalar multiple.
pub open spec fn ivscale(k: int, a: IVec3) -> IVec3 {
    IVec3 { x: k * a.x, y: k * a.y, z: k * a.z }
}

/// A product of two factors stays within the product of their bounds.
pub proof fn lemma_mul_bound(x: int, y: int, m: int, n: int)
    by (nonlinear_arith)
    requires
        -m <= x <= m,
        -n <= y <= n,
        0 <= m,
        0 <= n,
    ensures
        -(m * n) <= x * y <= m * n,
{
}

/// Exact difference of two in-range vectors.
pub fn sub(a: &Vec3, b: &Vec3) -> (r: Vec3)
    requires
        a.in_range(),
        b.in_range(),
    ensures
        r@ == ivsub(a@, b@),
        r.in_wide_range(),
{
    Vec3 { x: a.x - b.x, y: a.y - b.y, z: a.z - b.z }
}

/// Exact dot product of two vectors near the working range, widened so the
/// arithmetic cannot overflow.
pub fn dot_wide(a: &Vec3, b: &Vec3) -> (r: i128)
    requires
        a.in_wide_range(),
        b.in_wide_range(),
    ensures
        r == ivdot(a@, b@),
{
    proof {
        lemma_mul_bound(a.x as int, b.x as int, 2_000_000_000_000, 2_000_000_000_000);
        lemma_mul_bound(a.y as int, b.y as int, 2_000_000_000_000, 2_000_000_000_000);
        lemma_mul_bound(a.z as int, b.z as int, 2_000_000_000_000, 2_000_000_000_000);
        assert(2_000_000_000_000int * 2_000_000_000_000int
            == 4_000_000_000_000_000_000_000_000int) by (nonlinear_arith);
    }
    (a.x as i128) * (b.x as i128) + (a.y as i128) * (b.y as i128) + (a.z as i128) * (b.z
        as i128)
}

} // verus!
