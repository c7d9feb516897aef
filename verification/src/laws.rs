//! The global laws of the cell kernel, stated as proof functions.
//!
//! Every operation of the kernel promises `wf` of its result, so each law
//! stated over `wf` holds of any cell after any sequence of operations.

use vstd::prelude::*;
use crate::vec3::{Vec3, spec_plane_val};
use crate::cell::CellSgl;

verus! {

/// Euler's identity: for any live well-formed cell, the vertex count
/// minus the edge count plus the face count is two.  Every constructor
/// and every successful cut yields a well-formed cell, so this holds
/// after any sequence of cuts.
pub proof fn lemma_euler_invariant(c: CellSgl)
    requires
        c.wf(),
        !c.spec_is_empty(),
    ensures
        c.n() - c.ed.total_order() / 2 + c.faces@.len() == 2,
{
    assert(c.euler_ok());
}

/// Edge-table consistency: in any live well-formed cell, following the
/// neighbour stored in a slot and then its reciprocal slot leads straight
/// back: `ed[ed[v][j]][re[v][j]] == v`, and the reciprocal of the
/// reciprocal is the slot itself.
pub proof fn lemma_edge_table_consistent(c: CellSgl, v: int, j: int)
    requires
        c.wf(),
        !c.spec_is_empty(),
        0 <= v < c.n(),
        0 <= j < c.order(v),
    ensures
        c.nbr(c.nbr(v, j), c.rec(v, j)) == v,
        c.rec(c.nbr(v, j), c.rec(v, j)) == j,
{
    assert(c.ed.slot_ok(v, j));
}

/// Every survivor of a cut classifies within the keep side of the plane
/// that made the cut.
pub proof fn lemma_kept_within_tolerance(c: CellSgl, nv: Vec3, rsq: int, k: int)
    requires
        0 <= k <= c.n(),
    ensures
        forall|i: int|
            0 <= i < c.spec_kept_upto(nv, rsq, k).len() ==> spec_plane_val(
                #[trigger] c.spec_kept_upto(nv, rsq, k)[i],
                nv,
                rsq,
            ) <= c.tol,
    decreases k,
{
    if k > 0 {
        lemma_kept_within_tolerance(c, nv, rsq, k - 1);
        let rest = c.spec_kept_upto(nv, rsq, k - 1);
        let cur = c.spec_kept_upto(nv, rsq, k);
        assert forall|i: int|
            0 <= i < cur.len() implies spec_plane_val(#[trigger] cur[i], nv, rsq) <= c.tol by {
            if c.spec_cut(nv, rsq, k - 1) {
                assert(cur == rest);
                assert(spec_plane_val(rest[i], nv, rsq) <= c.tol);
            } else {
                assert(cur == rest.push(c.pt@[k - 1]));
                if i < rest.len() {
                    assert(cur[i] == rest[i]);
                    assert(spec_plane_val(rest[i], nv, rsq) <= c.tol);
                } else {
                    assert(cur[i] == c.pt@[k - 1]);
                    assert(spec_plane_val(c.pt@[k - 1], nv, rsq) <= c.tol);
                }
            }
        }
    }
}

/// A plane cuts a cell at most once: after a committed rewrite by the
/// plane `(nv, rsq)`, every vertex of the result lies on the keep side of
/// that same plane, so cutting again with the same plane parameters
/// leaves the cell unchanged, and two such cuts give the same result in
/// either order.  Two coplanar planes written with differently scaled
/// parameters share the zero set but not the width of the tolerance
/// band, so with a nonzero tolerance their order can matter within that
/// band; the exact tie-break there is left open by design.
pub proof fn lemma_coplanar_cut_is_stable(a: CellSgl, b: CellSgl, nv: Vec3, rsq: int, p_id: i32)
    requires
        a.spec_cut_result(b, nv, rsq, p_id),
        b.tol == a.tol,
    ensures
        b.spec_no_cut(nv, rsq),
{
    let kept = a.spec_kept(nv, rsq);
    lemma_kept_within_tolerance(a, nv, rsq, a.n());
    assert forall|v: int| 0 <= v < b.n() implies !b.spec_cut(nv, rsq, v) by {
        if v < kept.len() {
            assert(b.pt@[v] == b.pt@.subrange(0, kept.len() as int)[v]);
            assert(b.pt@[v] == kept[v]);
            assert(spec_plane_val(kept[v], nv, rsq) <= a.tol);
        } else {
            assert(-a.tol <= spec_plane_val(b.pt@[v], nv, rsq) <= a.tol);
        }
    }
}

} // verus!
