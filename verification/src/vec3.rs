//! Integer three-vectors and the bounds the kernel works within.

use vstd::prelude::*;

verus! {

/// Largest magnitude of a caller-supplied coordinate (before the kernel
/// doubles it for storage).
pub const COORD_MAX: i64 = 0x2000;

/// Largest magnitude of a stored (doubled) coordinate.
pub const POS_MAX: i64 = 0x4000;

/// Largest magnitude of a component of a cutting-plane normal.
pub const NORM_MAX: i64 = 0x2000;

/// Largest magnitude of the plane offset parameter `rsq`.
pub const RSQ_MAX: i64 = 0xC00_0000;

/// Largest admissible classification tolerance.
pub const TOL_MAX: i64 = 0x2000_0000;

/// Largest number of vertices a cell may hold.
pub const VERT_MAX: usize = 0x1_0000;

/// Largest magnitude a classification value can reach within the bounds.
pub const PV_ABS: i128 = 0x4000_0000;

/// A three-vector with integer coordinates on the caller's grid.
#[derive(Clone, Copy, PartialEq, Eq, Structural, Debug)]
pub struct Vec3 {
    pub x: i64,
    pub y: i64,
    pub z: i64,
}

impl Vec3 {
    /// All three coordinates lie within `m` of zero.
    pub open spec fn spec_bounded(self, m: int) -> bool {
        &&& -m <= self.x <= m
        &&& -m <= self.y <= m
        &&& -m <= self.z <= m
    }

    pub fn new(x: i64, y: i64, z: i64) -> (r: Vec3)
        ensures
            r == (Vec3 { x, y, z }),
    {
        Vec3 { x, y, z }
    }
}

/// Mathematical dot product of two integer vectors.
pub open spec fn spec_dot(a: Vec3, b: Vec3) -> int {
    a.x * b.x + a.y * b.y + a.z * b.z
}

/// The signed classification value of a stored (doubled) position `p`
/// against the plane with normal `n` and offset `rsq`: negative keeps the
/// vertex, positive cuts it away.
pub open spec fn spec_plane_val(p: Vec3, n: Vec3, rsq: int) -> int {
    spec_dot(p, n) - rsq
}

/// Magnitude of an integer.
pub open spec fn spec_abs(a: int) -> int {
    if a >= 0 {
        a
    } else {
        -a
    }
}

/// The one-norm of a vector: the rounding grain of classification against
/// a plane with that normal is half of it.
pub open spec fn spec_l1(v: Vec3) -> int {
    spec_abs(v.x as int) + spec_abs(v.y as int) + spec_abs(v.z as int)
}

/// Scaling a bounded value by a non-negative weight stays within the
/// weight times the bound.
pub proof fn lemma_mul_nonneg_bound(w: int, x: int, m: int)
    requires
        0 <= w,
        -m <= x <= m,
    ensures
        -(w * m) <= w * x <= w * m,
{
    assert(-(w * m) <= w * x <= w * m) by (nonlinear_arith)
        requires
            0 <= w,
            -m <= x <= m,
    ;
}

/// Scaling a value bounded by `d` keeps the product within `|n| * d`.
pub proof fn lemma_mul_abs_bound(n: int, e: int, d: int)
    requires
        -d <= e <= d,
        0 <= d,
    ensures
        -(spec_abs(n) * d) <= n * e <= spec_abs(n) * d,
{
    assert(-(spec_abs(n) * d) <= n * e <= spec_abs(n) * d) by (nonlinear_arith)
        requires
            -d <= e <= d,
            0 <= d,
            spec_abs(n) == (if n >= 0 { n } else { -n }),
    ;
}

/// `|a * b| <= bound_a * bound_b` whenever the factors are bounded.
pub proof fn lemma_mul_bounds(a: int, b: int, ba: int, bb: int)
    requires
        -ba <= a <= ba,
        -bb <= b <= bb,
        0 <= ba,
        0 <= bb,
    ensures
        -(ba * bb) <= a * b <= ba * bb,
{
    assert(-(ba * bb) <= a * b <= ba * bb) by (nonlinear_arith)
        requires
            -ba <= a <= ba,
            -bb <= b <= bb,
            0 <= ba,
            0 <= bb,
    ;
}

/// Dot product, computed exactly in 128-bit arithmetic.
pub fn dot_wide(a: Vec3, b: Vec3) -> (r: i128)
    requires
        a.spec_bounded(POS_MAX as int),
        b.spec_bounded(POS_MAX as int),
    ensures
        r as int == spec_dot(a, b),
{
    proof {
        lemma_mul_bounds(a.x as int, b.x as int, POS_MAX as int, POS_MAX as int);
        lemma_mul_bounds(a.y as int, b.y as int, POS_MAX as int, POS_MAX as int);
        lemma_mul_bounds(a.z as int, b.z as int, POS_MAX as int, POS_MAX as int);
    }
    (a.x as i128) * (b.x as i128) + (a.y as i128) * (b.y as i128) + (a.z as i128) * (b.z as i128)
}

/// Classification value of a stored position against a cutting plane,
/// computed exactly.
pub fn plane_val(p: Vec3, n: Vec3, rsq: i64) -> (r: i128)
    requires
        p.spec_bounded(POS_MAX as int),
        n.spec_bounded(NORM_MAX as int),
        -RSQ_MAX <= rsq <= RSQ_MAX,
    ensures
        r as int == spec_plane_val(p, n, rsq as int),
        -PV_ABS < r < PV_ABS,
{
    proof {
        lemma_mul_bounds(p.x as int, n.x as int, POS_MAX as int, NORM_MAX as int);
        lemma_mul_bounds(p.y as int, n.y as int, POS_MAX as int, NORM_MAX as int);
        lemma_mul_bounds(p.z as int, n.z as int, POS_MAX as int, NORM_MAX as int);
    }
    (p.x as i128) * (n.x as i128) + (p.y as i128) * (n.y as i128) + (p.z as i128) * (n.z as i128)
        - (rsq as i128)
}

} // verus!
