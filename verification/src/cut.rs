//! The cutting engine: intersect a cell with a half-space.
//!
//! A cutting plane is given by a normal `n` (the offset from this cell's
//! particle to a candidate neighbour, in grid units) and `rsq` (the squared
//! length of that offset).  A stored position `p` classifies by the exact
//! integer value `p . n - rsq`: at most the tolerance keeps the vertex,
//! more cuts it away.  Marginal vertices (within the tolerance band of the
//! plane) are kept and the new cut vertices land on top of them, so exactly
//! coplanar repeated cuts leave the cell unchanged.
//!
//! The rewrite is built aside and committed only after the full invariant
//! check passes, so a cell is never left malformed.

use vstd::prelude::*;
use crate::vec3::{
    Vec3, lemma_mul_abs_bound, lemma_mul_nonneg_bound, plane_val, spec_abs, spec_l1,
    spec_plane_val, NORM_MAX, POS_MAX, PV_ABS, RSQ_MAX, VERT_MAX,
};
use vstd::arithmetic::div_mod::{lemma_fundamental_div_mod, lemma_remainder_lower, lemma_remainder_upper};
use crate::cell::{CellSgl, FaceEntry};
use crate::edges::Edges;

verus! {

/// What one cutting plane did to a cell.
#[derive(Clone, Copy, PartialEq, Eq, Structural, Debug)]
pub enum CutOutcome {
    /// No vertex lay beyond the plane; the cell is untouched.
    Missed,
    /// Some vertices lay beyond the plane and the rewrite committed: the
    /// survivors kept their order, a ring of new on-plane vertices closes
    /// the new face.
    Cut,
    /// Every vertex lay beyond the plane (or the cell was already empty);
    /// the cell is now empty.
    Consumed,
    /// The plane separates the vertices, but the rewrite did not pass the
    /// invariant check and the cell was left untouched.  Rounding cannot
    /// cause this when twice the tolerance covers the normal's one-norm
    /// (the new vertices then provably classify on-plane); what remains
    /// are graphs inconsistent with a convex polyhedron and the vertex
    /// capacity.  The kernel prefers a skipped cut to a malformed graph.
    Degenerate,
}

impl CellSgl {
    /// Vertex `v` lies strictly beyond the cutting plane.
    pub open spec fn spec_cut(self, nv: Vec3, rsq: int, v: int) -> bool {
        spec_plane_val(self.pt@[v], nv, rsq) > self.tol
    }

    /// The plane misses the cell: no vertex lies beyond it.
    pub open spec fn spec_no_cut(self, nv: Vec3, rsq: int) -> bool {
        forall|v: int| 0 <= v < self.n() ==> !self.spec_cut(nv, rsq, v)
    }

    /// The plane consumes the cell: every vertex lies beyond it.
    pub open spec fn spec_all_cut(self, nv: Vec3, rsq: int) -> bool {
        forall|v: int| 0 <= v < self.n() ==> self.spec_cut(nv, rsq, v)
    }

    /// The surviving vertices among the first `k`, in index order.
    pub open spec fn spec_kept_upto(self, nv: Vec3, rsq: int, k: int) -> Seq<Vec3>
        decreases k,
    {
        if k <= 0 {
            Seq::empty()
        } else {
            let rest = self.spec_kept_upto(nv, rsq, k - 1);
            if self.spec_cut(nv, rsq, k - 1) {
                rest
            } else {
                rest.push(self.pt@[k - 1])
            }
        }
    }

    /// All surviving vertices, in index order.
    pub open spec fn spec_kept(self, nv: Vec3, rsq: int) -> Seq<Vec3> {
        self.spec_kept_upto(nv, rsq, self.n())
    }

    /// Classify every vertex against the plane.  Returns the exact
    /// classification values and whether any vertex is beyond the plane
    /// and whether any is kept.
    fn classify(&self, nv: Vec3, rsq: i64) -> (res: (Vec<i128>, bool, bool))
        requires
            self.wf(),
            !self.spec_is_empty(),
            nv.spec_bounded(NORM_MAX as int),
            -RSQ_MAX <= rsq <= RSQ_MAX,
        ensures
            res.0@.len() == self.n(),
            forall|v: int|
                0 <= v < self.n() ==> #[trigger] res.0@[v] as int == spec_plane_val(
                    self.pt@[v],
                    nv,
                    rsq as int,
                ) && -PV_ABS < res.0@[v] < PV_ABS,
            res.1 <==> exists|v: int| 0 <= v < self.n() && self.spec_cut(nv, rsq as int, v),
            res.2 <==> exists|v: int| 0 <= v < self.n() && !self.spec_cut(nv, rsq as int, v),
    {
        let n: usize = self.pt.len();
        let mut pv: Vec<i128> = Vec::new();
        let mut any_cut: bool = false;
        let mut any_keep: bool = false;
        let mut v: usize = 0;
        while v < n
            invariant
                n == self.n(),
                self.wf(),
                nv.spec_bounded(NORM_MAX as int),
                -RSQ_MAX <= rsq <= RSQ_MAX,
                v <= n,
                pv@.len() == v,
                forall|w: int|
                    0 <= w < v ==> #[trigger] pv@[w] as int == spec_plane_val(
                        self.pt@[w],
                        nv,
                        rsq as int,
                    ) && -PV_ABS < pv@[w] < PV_ABS,
                any_cut <==> exists|w: int| 0 <= w < v && self.spec_cut(nv, rsq as int, w),
                any_keep <==> exists|w: int| 0 <= w < v && !self.spec_cut(nv, rsq as int, w),
            decreases n - v,
        {
            assert(self.pt@[v as int].spec_bounded(POS_MAX as int));
            let w: i128 = plane_val(self.pt[v], nv, rsq);
            pv.push(w);
            if w > self.tol as i128 {
                assert(self.spec_cut(nv, rsq as int, v as int));
                any_cut = true;
            } else {
                assert(!self.spec_cut(nv, rsq as int, v as int));
                any_keep = true;
            }
            v += 1;
        }
        (pv, any_cut, any_keep)
    }

    /// Build the survivor tables: for each old vertex its new index (or
    /// `-1` if cut away), the old index of each survivor, and the survivor
    /// positions in order.
    fn build_kept(&self, nv: Vec3, rsq: i64, pv: &Vec<i128>) -> (res: (
        Vec<i64>,
        Vec<usize>,
        Vec<Vec3>,
    ))
        requires
            self.wf(),
            pv@.len() == self.n(),
            forall|v: int|
                0 <= v < self.n() ==> #[trigger] pv@[v] as int == spec_plane_val(
                    self.pt@[v],
                    nv,
                    rsq as int,
                ),
        ensures
            res.0@.len() == self.n(),
            res.1@.len() == res.2@.len(),
            res.2@ == self.spec_kept(nv, rsq as int),
            forall|v: int|
                0 <= v < self.n() && self.spec_cut(nv, rsq as int, v) ==> #[trigger] res.0@[v]
                    == -1,
            forall|v: int|
                0 <= v < self.n() && !self.spec_cut(nv, rsq as int, v) ==> 0 <= #[trigger] res.0@[v]
                    < res.1@.len(),
            forall|k: int|
                0 <= k < res.1@.len() ==> (#[trigger] res.1@[k] as int) < self.n() && !self.spec_cut(
                    nv,
                    rsq as int,
                    res.1@[k] as int,
                ) && res.0@[res.1@[k] as int] == k && res.2@[k] == self.pt@[res.1@[k] as int],
    {
        let n: usize = self.pt.len();
        let mut map: Vec<i64> = Vec::new();
        let mut oldidx: Vec<usize> = Vec::new();
        let mut newpt: Vec<Vec3> = Vec::new();
        let mut v: usize = 0;
        while v < n
            invariant
                n == self.n(),
                self.wf(),
                pv@.len() == self.n(),
                forall|w: int|
                    0 <= w < self.n() ==> #[trigger] pv@[w] as int == spec_plane_val(
                        self.pt@[w],
                        nv,
                        rsq as int,
                    ),
                v <= n,
                map@.len() == v,
                oldidx@.len() == newpt@.len(),
                newpt@ == self.spec_kept_upto(nv, rsq as int, v as int),
                oldidx@.len() <= v,
                forall|w: int|
                    0 <= w < v && self.spec_cut(nv, rsq as int, w) ==> #[trigger] map@[w] == -1,
                forall|w: int|
                    0 <= w < v && !self.spec_cut(nv, rsq as int, w) ==> 0 <= #[trigger] map@[w]
                        < oldidx@.len(),
                forall|k: int|
                    0 <= k < oldidx@.len() ==> (#[trigger] oldidx@[k] as int) < v
                        && !self.spec_cut(nv, rsq as int, oldidx@[k] as int) && map@[oldidx@[k] as int]
                        == k && newpt@[k] == self.pt@[oldidx@[k] as int],
            decreases n - v,
        {
            if pv[v] > self.tol as i128 {
                map.push(-1);
            } else {
                map.push(oldidx.len() as i64);
                oldidx.push(v);
                newpt.push(self.pt[v]);
            }
            v += 1;
        }
        (map, oldidx, newpt)
    }

    /// Find one boundary edge: a kept vertex with a cut neighbour.
    fn find_crossing(&self, nv: Vec3, rsq: i64, pv: &Vec<i128>) -> (res: Option<(usize, usize)>)
        requires
            self.wf(),
            !self.spec_is_empty(),
            pv@.len() == self.n(),
            forall|v: int|
                0 <= v < self.n() ==> #[trigger] pv@[v] as int == spec_plane_val(
                    self.pt@[v],
                    nv,
                    rsq as int,
                ),
        ensures
            res is Some ==> {
                let (v, j) = res->Some_0;
                &&& (v as int) < self.n()
                &&& (j as int) < self.order(v as int)
                &&& !self.spec_cut(nv, rsq as int, v as int)
                &&& self.spec_cut(nv, rsq as int, self.nbr(v as int, j as int))
            },
    {
        let n: usize = self.pt.len();
        let mut v: usize = 0;
        while v < n
            invariant
                n == self.n(),
                self.wf(),
                pv@.len() == self.n(),
                forall|w: int|
                    0 <= w < self.n() ==> #[trigger] pv@[w] as int == spec_plane_val(
                        self.pt@[w],
                        nv,
                        rsq as int,
                    ),
                v <= n,
            decreases n - v,
        {
            if pv[v] <= self.tol as i128 {
                assert(self.ed.row_ok(v as int));
                let m: usize = self.ed.vertex_order(v);
                let mut j: usize = 0;
                while j < m
                    invariant
                        n == self.n(),
                        self.wf(),
                        pv@.len() == self.n(),
                        forall|w: int|
                            0 <= w < self.n() ==> #[trigger] pv@[w] as int == spec_plane_val(
                                self.pt@[w],
                                nv,
                                rsq as int,
                            ),
                        v < n,
                        m == self.order(v as int),
                        j <= m,
                        !self.spec_cut(nv, rsq as int, v as int),
                    decreases m - j,
                {
                    assert(self.ed.slot_ok(v as int, j as int));
                    let t: usize = self.ed.rows[v][j] as usize;
                    if pv[t] > self.tol as i128 {
                        return Some((v, j));
                    }
                    j += 1;
                }
            }
            v += 1;
        }
        None
    }

    /// From the boundary crossing `(cv, cj)` (kept vertex `cv`, slot `cj`
    /// to a cut neighbour), follow the face shared with the cut region
    /// until the next boundary crossing.
    fn next_crossing(&self, pv: &Vec<i128>, cv: usize, cj: usize) -> (res: Option<(usize, usize)>)
        requires
            self.wf(),
            !self.spec_is_empty(),
            pv@.len() == self.n(),
            (cv as int) < self.n(),
            (cj as int) < self.order(cv as int),
            pv@[self.nbr(cv as int, cj as int)] > self.tol,
        ensures
            res is Some ==> {
                let (t, s) = res->Some_0;
                &&& (t as int) < self.n()
                &&& (s as int) < self.order(t as int)
                &&& pv@[t as int] <= self.tol
                &&& pv@[self.nbr(t as int, s as int)] > self.tol
            },
    {
        assert(self.ed.slot_ok(cv as int, cj as int));
        assert(self.ed.row_ok(cv as int));
        let mcv: usize = self.ed.vertex_order(cv);
        let mut c: usize = self.ed.rows[cv][cj] as usize;
        let rec0: usize = self.ed.rows[cv][mcv + cj] as usize;
        assert(self.ed.row_ok(c as int));
        let mc0: usize = self.ed.vertex_order(c);
        let mut l: usize = if rec0 == mc0 - 1 {
            0
        } else {
            rec0 + 1
        };
        let mut fuel: u64 = 0x2_0000_0000;
        while fuel > 0
            invariant
                self.wf(),
                !self.spec_is_empty(),
                pv@.len() == self.n(),
                (c as int) < self.n(),
                (l as int) < self.order(c as int),
                pv@[c as int] > self.tol,
            decreases fuel,
        {
            assert(self.ed.slot_ok(c as int, l as int));
            let t: usize = self.ed.rows[c][l] as usize;
            let mc: usize = self.ed.vertex_order(c);
            let rl: usize = self.ed.rows[c][mc + l] as usize;
            if pv[t] <= self.tol as i128 {
                assert(self.ed.rec(c as int, l as int) == rl as int);
                assert(self.nbr(t as int, rl as int) == c);
                return Some((t, rl));
            }
            assert(self.ed.row_ok(t as int));
            let mt: usize = self.ed.vertex_order(t);
            c = t;
            l = if rl == mt - 1 {
                0
            } else {
                rl + 1
            };
            fuel -= 1;
        }
        None
    }

    /// Walk the ring of boundary crossings around the cut region, starting
    /// from one crossing, in the cyclic order the new face will take.
    fn walk_ring(&self, pv: &Vec<i128>, v0: usize, j0: usize) -> (res: Option<Vec<(usize, usize)>>)
        requires
            self.wf(),
            !self.spec_is_empty(),
            pv@.len() == self.n(),
            (v0 as int) < self.n(),
            (j0 as int) < self.order(v0 as int),
            pv@[v0 as int] <= self.tol,
            pv@[self.nbr(v0 as int, j0 as int)] > self.tol,
        ensures
            res is Some ==> {
                let ring = res->Some_0;
                &&& 3 <= ring@.len() <= VERT_MAX as int
                &&& forall|r: int|
                    0 <= r < ring@.len() ==> {
                        let (v, j) = #[trigger] ring@[r];
                        &&& (v as int) < self.n()
                        &&& (j as int) < self.order(v as int)
                        &&& pv@[v as int] <= self.tol
                        &&& pv@[self.nbr(v as int, j as int)] > self.tol
                    }
            },
    {
        let mut ring: Vec<(usize, usize)> = Vec::new();
        ring.push((v0, j0));
        let mut cv: usize = v0;
        let mut cj: usize = j0;
        let mut fuel: u64 = 0x2_0000_0000;
        while fuel > 0
            invariant
                self.wf(),
                !self.spec_is_empty(),
                pv@.len() == self.n(),
                (cv as int) < self.n(),
                (cj as int) < self.order(cv as int),
                pv@[cv as int] <= self.tol,
                pv@[self.nbr(cv as int, cj as int)] > self.tol,
                1 <= ring@.len() <= VERT_MAX as int,
                forall|r: int|
                    0 <= r < ring@.len() ==> {
                        let (v, j) = #[trigger] ring@[r];
                        &&& (v as int) < self.n()
                        &&& (j as int) < self.order(v as int)
                        &&& pv@[v as int] <= self.tol
                        &&& pv@[self.nbr(v as int, j as int)] > self.tol
                    },
            decreases fuel,
        {
            let nxt: Option<(usize, usize)> = self.next_crossing(pv, cv, cj);
            match nxt {
                None => {
                    return None;
                },
                Some((tv, tj)) => {
                    if tv == v0 && tj == j0 {
                        if ring.len() < 3 {
                            return None;
                        }
                        return Some(ring);
                    }
                    if ring.len() >= VERT_MAX {
                        return None;
                    }
                    ring.push((tv, tj));
                    cv = tv;
                    cj = tj;
                },
            }
            fuel -= 1;
        }
        None
    }

    /// Place one new vertex on each crossing edge, at the rounded
    /// plane/edge intersection, and accept the rewrite only if every new
    /// vertex classifies as on-plane.  Whenever twice the tolerance covers
    /// the normal's one-norm, every rounded vertex provably does, so the
    /// placement cannot fail.
    fn interpolate(&self, nv: Vec3, rsq: i64, pv: &Vec<i128>, ring: &Vec<(usize, usize)>) -> (res:
        Option<Vec<Vec3>>)
        requires
            self.wf(),
            !self.spec_is_empty(),
            nv.spec_bounded(NORM_MAX as int),
            -RSQ_MAX <= rsq <= RSQ_MAX,
            pv@.len() == self.n(),
            forall|v: int|
                0 <= v < self.n() ==> #[trigger] pv@[v] as int == spec_plane_val(
                    self.pt@[v],
                    nv,
                    rsq as int,
                ) && -PV_ABS < pv@[v] < PV_ABS,
            forall|r: int|
                0 <= r < ring@.len() ==> {
                    let (v, j) = #[trigger] ring@[r];
                    &&& (v as int) < self.n()
                    &&& (j as int) < self.order(v as int)
                    &&& pv@[v as int] <= self.tol
                    &&& pv@[self.nbr(v as int, j as int)] > self.tol
                },
        ensures
            res is Some ==> {
                let ps = res->Some_0;
                &&& ps@.len() == ring@.len()
                &&& forall|i: int|
                    0 <= i < ps@.len() ==> (#[trigger] ps@[i]).spec_bounded(POS_MAX as int)
                        && -self.tol <= spec_plane_val(ps@[i], nv, rsq as int) <= self.tol
            },
            2 * self.tol >= spec_l1(nv) ==> res is Some,
    {
        let nr: usize = ring.len();
        let mut ps: Vec<Vec3> = Vec::new();
        let mut r: usize = 0;
        while r < nr
            invariant
                self.wf(),
                !self.spec_is_empty(),
                nv.spec_bounded(NORM_MAX as int),
                -RSQ_MAX <= rsq <= RSQ_MAX,
                nr == ring@.len(),
                pv@.len() == self.n(),
                forall|v: int|
                    0 <= v < self.n() ==> #[trigger] pv@[v] as int == spec_plane_val(
                        self.pt@[v],
                        nv,
                        rsq as int,
                    ) && -PV_ABS < pv@[v] < PV_ABS,
                forall|rr: int|
                    0 <= rr < ring@.len() ==> {
                        let (v, j) = #[trigger] ring@[rr];
                        &&& (v as int) < self.n()
                        &&& (j as int) < self.order(v as int)
                        &&& pv@[v as int] <= self.tol
                        &&& pv@[self.nbr(v as int, j as int)] > self.tol
                    },
                r <= nr,
                ps@.len() == r,
                forall|i: int|
                    0 <= i < r ==> (#[trigger] ps@[i]).spec_bounded(POS_MAX as int) && -self.tol
                        <= spec_plane_val(ps@[i], nv, rsq as int) <= self.tol,
            decreases nr - r,
        {
            let (kv, kj) = ring[r];
            assert(self.ed.slot_ok(kv as int, kj as int));
            let cvx: usize = self.ed.rows[kv][kj] as usize;
            let wk: i128 = pv[kv];
            let wc: i128 = pv[cvx];
            let wk2: i128 = if wk > 0 {
                0
            } else {
                wk
            };
            let den: i128 = wc - wk2;
            let pk: Vec3 = self.pt[kv];
            let pc: Vec3 = self.pt[cvx];
            proof {
                assert(self.pt@[kv as int].spec_bounded(POS_MAX as int));
                assert(self.pt@[cvx as int].spec_bounded(POS_MAX as int));
                assert(self.sizes_ok());
                assert(0 < wc < PV_ABS && -PV_ABS < wk2 <= 0);
            }
            let x: i128 = round_coord(wc, wk2, den, pk.x, pc.x);
            let y: i128 = round_coord(wc, wk2, den, pk.y, pc.y);
            let z: i128 = round_coord(wc, wk2, den, pk.z, pc.z);
            let p: Vec3 = Vec3::new(x as i64, y as i64, z as i64);
            let w: i128 = plane_val(p, nv, rsq);
            proof {
                // The rounded point is within half a grain of the plane,
                // or exactly on the marginal endpoint: either way its
                // classification is within `l1/2` of the keep band.
                if wk2 == 0 {
                    assert(p == pk);
                    assert(0 <= w as int <= self.tol);
                } else {
                    lemma_round_pv(nv, rsq as int, pk, pc, p, wk as int, wc as int, den as int);
                }
            }
            if w < -(self.tol as i128) || w > self.tol as i128 {
                proof {
                    if wk2 == 0 {
                        assert(w == wk);
                        assert(false);
                    } else {
                        assert(2 * (w as int) > 2 * self.tol || 2 * (w as int) < -2 * self.tol);
                        assert(!(2 * self.tol >= spec_l1(nv)));
                    }
                }
                return None;
            }
            ps.push(p);
            r += 1;
        }
        Some(ps)
    }
}

impl CellSgl {
    /// Build the adjacency rows of the cell after the cut: survivors keep
    /// their slot layout with cut neighbours replaced by the ring vertex on
    /// that edge, and each ring vertex links its two ring neighbours and
    /// its surviving endpoint.
    fn build_rows(
        &self,
        map: &Vec<i64>,
        oldidx: &Vec<usize>,
        ring: &Vec<(usize, usize)>,
        kcount: usize,
    ) -> (res: Option<Vec<Vec<i64>>>)
        requires
            self.wf(),
            !self.spec_is_empty(),
            map@.len() == self.n(),
            kcount == oldidx@.len(),
            kcount + ring@.len() <= VERT_MAX,
            3 <= ring@.len(),
            forall|k: int| 0 <= k < oldidx@.len() ==> (#[trigger] oldidx@[k] as int) < self.n(),
            forall|v: int| 0 <= v < self.n() ==> -1 <= #[trigger] map@[v] < kcount as i64,
            forall|r: int|
                0 <= r < ring@.len() ==> (#[trigger] ring@[r].0 as int) < self.n() && (
                ring@[r].1 as int) < self.order(ring@[r].0 as int),
    {
        let nring: usize = ring.len();
        let mut rows: Vec<Vec<i64>> = Vec::new();
        let mut k: usize = 0;
        while k < kcount
            invariant
                self.wf(),
                !self.spec_is_empty(),
                map@.len() == self.n(),
                kcount == oldidx@.len(),
                kcount + nring <= VERT_MAX,
                nring == ring@.len(),
                forall|kk: int|
                    0 <= kk < oldidx@.len() ==> (#[trigger] oldidx@[kk] as int) < self.n(),
                forall|v: int| 0 <= v < self.n() ==> -1 <= #[trigger] map@[v] < kcount as i64,
                forall|r: int|
                    0 <= r < ring@.len() ==> (#[trigger] ring@[r].0 as int) < self.n() && (
                    ring@[r].1 as int) < self.order(ring@[r].0 as int),
                k <= kcount,
            decreases kcount - k,
        {
            let ov: usize = oldidx[k];
            assert(self.ed.row_ok(ov as int));
            let m: usize = self.ed.vertex_order(ov);
            let mut nb: Vec<i64> = Vec::new();
            let mut rc: Vec<i64> = Vec::new();
            let mut j: usize = 0;
            while j < m
                invariant
                    self.wf(),
                    !self.spec_is_empty(),
                    map@.len() == self.n(),
                    kcount == oldidx@.len(),
                    kcount + nring <= VERT_MAX,
                    nring == ring@.len(),
                    forall|v: int| 0 <= v < self.n() ==> -1 <= #[trigger] map@[v] < kcount as i64,
                    k < kcount,
                    (ov as int) < self.n(),
                    m == self.order(ov as int),
                    j <= m,
                decreases m - j,
            {
                assert(self.ed.slot_ok(ov as int, j as int));
                let t: usize = self.ed.rows[ov][j] as usize;
                let mv: i64 = map[t];
                if mv >= 0 {
                    nb.push(mv);
                    rc.push(self.ed.rows[ov][m + j]);
                } else {
                    match ring_find(ring, ov, j) {
                        None => {
                            return None;
                        },
                        Some(rr) => {
                            nb.push((kcount + rr) as i64);
                            rc.push(1);
                        },
                    }
                }
                j += 1;
            }
            let mut row: Vec<i64> = nb;
            let mut jj: usize = 0;
            while jj < rc.len()
                invariant
                    jj <= rc.len(),
                decreases rc.len() - jj,
            {
                let e: i64 = rc[jj];
                row.push(e);
                jj += 1;
            }
            row.push(k as i64);
            rows.push(row);
            k += 1;
        }
        let mut r: usize = 0;
        while r < nring
            invariant
                self.wf(),
                !self.spec_is_empty(),
                map@.len() == self.n(),
                kcount + nring <= VERT_MAX,
                3 <= nring,
                nring == ring@.len(),
                forall|v: int| 0 <= v < self.n() ==> -1 <= #[trigger] map@[v] < kcount as i64,
                forall|rr: int|
                    0 <= rr < ring@.len() ==> (#[trigger] ring@[rr].0 as int) < self.n() && (
                    ring@[rr].1 as int) < self.order(ring@[rr].0 as int),
                r <= nring,
            decreases nring - r,
        {
            let (rv, rj) = ring[r];
            let mv: i64 = map[rv];
            if mv < 0 {
                return None;
            }
            let prev: usize = if r == 0 {
                nring - 1
            } else {
                r - 1
            };
            let next: usize = if r + 1 == nring {
                0
            } else {
                r + 1
            };
            assert(self.ed.row_ok(rv as int));
            let mut row: Vec<i64> = Vec::new();
            row.push((kcount + prev) as i64);
            row.push(mv);
            row.push((kcount + next) as i64);
            row.push(2);
            row.push(rj as i64);
            row.push(0);
            row.push((kcount + r) as i64);
            rows.push(row);
            r += 1;
        }
        Some(rows)
    }

    /// Choose a plane id for every traced face: a face that still touches
    /// a surviving vertex keeps the id of the old face on that edge; a
    /// face made only of ring vertices is the new plane face and gets
    /// `p_id`.  Fails if no face got `p_id`.
    fn assign_fids(
        &self,
        oldidx: &Vec<usize>,
        faces: &Vec<Vec<FaceEntry>>,
        kcount: usize,
        p_id: i32,
    ) -> (res: Option<Vec<i32>>)
        requires
            self.wf(),
            !self.spec_is_empty(),
            kcount == oldidx@.len(),
            forall|k: int| 0 <= k < oldidx@.len() ==> (#[trigger] oldidx@[k] as int) < self.n(),
        ensures
            res is Some ==> {
                let fid = res->Some_0;
                &&& fid@.len() == faces@.len()
                &&& exists|f: int| 0 <= f < fid@.len() && fid@[f] == p_id
                &&& forall|f: int|
                    0 <= f < fid@.len() ==> #[trigger] fid@[f] == p_id || self.fid@.contains(
                        fid@[f],
                    )
            },
    {
        let nf: usize = faces.len();
        let mut fid: Vec<i32> = Vec::new();
        let mut found: bool = false;
        let ghost mut widx: int = 0;
        let mut f: usize = 0;
        while f < nf
            invariant
                self.wf(),
                !self.spec_is_empty(),
                kcount == oldidx@.len(),
                forall|k: int| 0 <= k < oldidx@.len() ==> (#[trigger] oldidx@[k] as int) < self.n(),
                nf == faces@.len(),
                f <= nf,
                fid@.len() == f,
                found ==> 0 <= widx < fid@.len() && fid@[widx] == p_id,
                forall|ff: int|
                    0 <= ff < fid@.len() ==> #[trigger] fid@[ff] == p_id || self.fid@.contains(
                        fid@[ff],
                    ),
            decreases nf - f,
        {
            let fl: usize = faces[f].len();
            let mut assigned: bool = false;
            let mut val: i32 = p_id;
            let mut c: usize = 0;
            while c < fl && !assigned
                invariant
                    val == p_id || self.fid@.contains(val),
                    self.wf(),
                    !self.spec_is_empty(),
                    kcount == oldidx@.len(),
                    forall|k: int|
                        0 <= k < oldidx@.len() ==> (#[trigger] oldidx@[k] as int) < self.n(),
                    nf == faces@.len(),
                    f < nf,
                    fl == faces@[f as int]@.len(),
                    c <= fl,
                decreases fl - c,
            {
                let e: FaceEntry = faces[f][c];
                if e.0 < kcount {
                    let ov: usize = oldidx[e.0];
                    if e.1 < self.eface[ov].len() {
                        let fe: FaceEntry = self.eface[ov][e.1];
                        if fe.0 < self.fid.len() {
                            val = self.fid[fe.0];
                            assert(self.fid@.contains(val));
                            assigned = true;
                        }
                    }
                }
                c += 1;
            }
            if !assigned {
                val = p_id;
                found = true;
                proof {
                    widx = fid@.len() as int;
                }
            }
            fid.push(val);
            f += 1;
        }
        if !found {
            return None;
        }
        assert(exists|ff: int| 0 <= ff < fid@.len() && fid@[ff] == p_id);
        Some(fid)
    }
}

/// Trace one face orbit of the rotation system, marking each directed
/// edge as seen and recording its face entry, until the walk returns to
/// its start.
fn trace_one(
    ed: &Edges,
    seen: &mut Vec<Vec<bool>>,
    eface: &mut Vec<Vec<FaceEntry>>,
    fidx: usize,
    v0: usize,
    j0: usize,
) -> (res: Option<Vec<FaceEntry>>)
    requires
        ed.edges_ok(),
        old(seen)@.len() == ed.n(),
        forall|v: int| 0 <= v < ed.n() ==> (#[trigger] old(seen)@[v]@.len()) == ed.order(v),
        old(eface)@.len() == ed.n(),
        forall|v: int| 0 <= v < ed.n() ==> (#[trigger] old(eface)@[v]@.len()) == ed.order(v),
        (v0 as int) < ed.n(),
        (j0 as int) < ed.order(v0 as int),
    ensures
        final(seen)@.len() == ed.n(),
        forall|v: int| 0 <= v < ed.n() ==> (#[trigger] final(seen)@[v]@.len()) == ed.order(v),
        final(eface)@.len() == ed.n(),
        forall|v: int| 0 <= v < ed.n() ==> (#[trigger] final(eface)@[v]@.len()) == ed.order(v),
        res is Some ==> 3 <= res->Some_0@.len() <= VERT_MAX as int,
{
    let mut cycle: Vec<FaceEntry> = Vec::new();
    let mut cv: usize = v0;
    let mut cj: usize = j0;
    let mut fuel: u64 = 0x2_0000_0000;
    while fuel > 0
        invariant
            ed.edges_ok(),
            seen@.len() == ed.n(),
            forall|v: int| 0 <= v < ed.n() ==> (#[trigger] seen@[v]@.len()) == ed.order(v),
            eface@.len() == ed.n(),
            forall|v: int| 0 <= v < ed.n() ==> (#[trigger] eface@[v]@.len()) == ed.order(v),
            (v0 as int) < ed.n(),
            (j0 as int) < ed.order(v0 as int),
            (cv as int) < ed.n(),
            (cj as int) < ed.order(cv as int),
            cycle@.len() <= VERT_MAX as int,
        decreases fuel,
    {
        if seen[cv][cj] {
            return None;
        }
        if cycle.len() >= VERT_MAX {
            return None;
        }
        set_flag(seen, cv, cj);
        set_entry(eface, cv, cj, (fidx, cycle.len()));
        cycle.push((cv, cj));
        assert(ed.slot_ok(cv as int, cj as int));
        assert(ed.row_ok(cv as int));
        let m: usize = ed.vertex_order(cv);
        let b: usize = ed.rows[cv][cj] as usize;
        let rc: usize = ed.rows[cv][m + cj] as usize;
        assert(ed.row_ok(b as int));
        let mb: usize = ed.vertex_order(b);
        let nj: usize = if rc == mb - 1 {
            0
        } else {
            rc + 1
        };
        if b == v0 && nj == j0 {
            if cycle.len() < 3 {
                return None;
            }
            return Some(cycle);
        }
        cv = b;
        cj = nj;
        fuel -= 1;
    }
    None
}

/// Trace every face of the rotation system: each directed edge lies on
/// exactly one traced orbit.  The caller validates the result as part of
/// the whole-cell invariant check before using it.
fn trace_faces(ed: &Edges) -> (res: Option<(Vec<Vec<FaceEntry>>, Vec<Vec<FaceEntry>>)>)
    requires
        ed.edges_ok(),
{
    let n: usize = ed.rows.len();
    let mut seen: Vec<Vec<bool>> = Vec::new();
    let mut eface: Vec<Vec<FaceEntry>> = Vec::new();
    let mut v: usize = 0;
    while v < n
        invariant
            n == ed.n(),
            ed.edges_ok(),
            v <= n,
            seen@.len() == v,
            eface@.len() == v,
            forall|w: int| 0 <= w < v ==> (#[trigger] seen@[w]@.len()) == ed.order(w),
            forall|w: int| 0 <= w < v ==> (#[trigger] eface@[w]@.len()) == ed.order(w),
        decreases n - v,
    {
        assert(ed.row_ok(v as int));
        let m: usize = ed.vertex_order(v);
        let mut srow: Vec<bool> = Vec::new();
        let mut erow: Vec<FaceEntry> = Vec::new();
        let mut j: usize = 0;
        while j < m
            invariant
                j <= m,
                srow@.len() == j,
                erow@.len() == j,
            decreases m - j,
        {
            srow.push(false);
            erow.push((0, 0));
            j += 1;
        }
        seen.push(srow);
        eface.push(erow);
        v += 1;
    }
    let mut faces: Vec<Vec<FaceEntry>> = Vec::new();
    let mut v: usize = 0;
    while v < n
        invariant
            n == ed.n(),
            ed.edges_ok(),
            v <= n,
            seen@.len() == ed.n(),
            forall|w: int| 0 <= w < ed.n() ==> (#[trigger] seen@[w]@.len()) == ed.order(w),
            eface@.len() == ed.n(),
            forall|w: int| 0 <= w < ed.n() ==> (#[trigger] eface@[w]@.len()) == ed.order(w),
            faces@.len() <= 4 * (VERT_MAX as int),
        decreases n - v,
    {
        assert(ed.row_ok(v as int));
        let m: usize = ed.vertex_order(v);
        let mut j: usize = 0;
        while j < m
            invariant
                n == ed.n(),
                ed.edges_ok(),
                v < n,
                m == ed.order(v as int),
                j <= m,
                seen@.len() == ed.n(),
                forall|w: int| 0 <= w < ed.n() ==> (#[trigger] seen@[w]@.len()) == ed.order(w),
                eface@.len() == ed.n(),
                forall|w: int| 0 <= w < ed.n() ==> (#[trigger] eface@[w]@.len()) == ed.order(w),
                faces@.len() <= 4 * (VERT_MAX as int),
            decreases m - j,
        {
            if !seen[v][j] {
                if faces.len() >= 4 * VERT_MAX {
                    return None;
                }
                match trace_one(ed, &mut seen, &mut eface, faces.len(), v, j) {
                    None => {
                        return None;
                    },
                    Some(cy) => {
                        faces.push(cy);
                    },
                }
            }
            j += 1;
        }
        v += 1;
    }
    Some((faces, eface))
}

impl CellSgl {
    /// What a successful rewrite guarantees: the survivors (every old
    /// vertex not beyond the plane) keep their order at the front of the
    /// vertex list, at least three new vertices follow, each lying on the
    /// cutting plane within the tolerance band, and some face carries the
    /// cutting plane's id.
    pub open spec fn spec_cut_result(self, new: CellSgl, nv: Vec3, rsq: int, p_id: i32) -> bool {
        let kept = self.spec_kept(nv, rsq);
        &&& kept.len() + 3 <= new.n()
        &&& new.n() <= VERT_MAX as int
        &&& new.pt@.subrange(0, kept.len() as int) == kept
        &&& forall|i: int|
            kept.len() <= i < new.n() ==> -self.tol <= spec_plane_val(
                #[trigger] new.pt@[i],
                nv,
                rsq,
            ) <= self.tol
        &&& exists|f: int| 0 <= f < new.fid@.len() && new.fid@[f] == p_id
        &&& forall|f: int|
            0 <= f < new.fid@.len() ==> #[trigger] new.fid@[f] == p_id || self.fid@.contains(
                new.fid@[f],
            )
    }

    /// Cut the cell by the half-space of the plane with normal `nv` and
    /// offset `rsq` (the perpendicular bisector between this cell's
    /// particle and a neighbour at offset `nv` of squared distance
    /// `rsq`), reporting exactly what happened.
    ///
    /// The outcome pins the cell's state with no escape: a missed plane
    /// and a degenerate cut leave the cell bit-for-bit unchanged, a
    /// consuming plane empties it, and a committed cut establishes
    /// [`Self::spec_cut_result`].  The degenerate outcome marks a
    /// separating plane whose rewrite did not pass the invariant check;
    /// for convex cells with a tolerance at least the rounding grain of
    /// the normal it does not arise.
    pub fn nplane_outcome(&mut self, nv: Vec3, rsq: i64, p_id: i32) -> (r: CutOutcome)
        requires
            old(self).wf(),
            nv.spec_bounded(NORM_MAX as int),
            -RSQ_MAX <= rsq <= RSQ_MAX,
        ensures
            final(self).wf(),
            final(self).tol == old(self).tol,
            (r is Consumed) <==> old(self).spec_all_cut(nv, rsq as int),
            (r is Missed) <==> old(self).spec_no_cut(nv, rsq as int) && !old(
                self,
            ).spec_is_empty(),
            r is Missed ==> *final(self) == *old(self),
            r is Consumed ==> final(self).spec_is_empty(),
            r is Degenerate ==> *final(self) == *old(self),
            r is Cut ==> old(self).spec_cut_result(*final(self), nv, rsq as int, p_id),
            old(self).spec_is_empty() ==> *final(self) == *old(self),
    {
        let n0: usize = self.pt.len();
        if n0 == 0 {
            return CutOutcome::Consumed;
        }
        let (pv, any_cut, any_keep) = self.classify(nv, rsq);
        if !any_cut {
            assert(!self.spec_cut(nv, rsq as int, 0));
            return CutOutcome::Missed;
        }
        if !any_keep {
            assert(self.spec_all_cut(nv, rsq as int));
            self.pt = Vec::new();
            self.ed = Edges { rows: Vec::new() };
            self.faces = Vec::new();
            self.eface = Vec::new();
            self.fid = Vec::new();
            return CutOutcome::Consumed;
        }
        proof {
            assert(!self.spec_all_cut(nv, rsq as int));
            assert(!self.spec_no_cut(nv, rsq as int));
        }
        let (map, oldidx, newpt) = self.build_kept(nv, rsq, &pv);
        let kcount: usize = oldidx.len();
        let start: (usize, usize) = match self.find_crossing(nv, rsq, &pv) {
            None => {
                return CutOutcome::Degenerate;
            },
            Some(s) => s,
        };
        proof {
            assert(!self.spec_cut(nv, rsq as int, start.0 as int));
            assert(pv@[start.0 as int] as int == spec_plane_val(
                self.pt@[start.0 as int],
                nv,
                rsq as int,
            ));
            assert(pv@[start.0 as int] <= self.tol);
            let tgt = self.nbr(start.0 as int, start.1 as int);
            assert(self.ed.slot_ok(start.0 as int, start.1 as int));
            assert(self.spec_cut(nv, rsq as int, tgt));
            assert(pv@[tgt] as int == spec_plane_val(self.pt@[tgt], nv, rsq as int));
            assert(pv@[tgt] > self.tol);
        }
        let ring: Vec<(usize, usize)> = match self.walk_ring(&pv, start.0, start.1) {
            None => {
                return CutOutcome::Degenerate;
            },
            Some(rg) => rg,
        };
        if kcount > VERT_MAX || ring.len() > VERT_MAX || kcount + ring.len() > VERT_MAX {
            return CutOutcome::Degenerate;
        }
        let interp: Vec<Vec3> = match self.interpolate(nv, rsq, &pv, &ring) {
            None => {
                return CutOutcome::Degenerate;
            },
            Some(ps) => ps,
        };
        proof {
            assert forall|v: int| 0 <= v < self.n() implies -1 <= #[trigger] map@[v]
                < kcount as i64 by {
                if self.spec_cut(nv, rsq as int, v) {
                    assert(map@[v] == -1);
                } else {
                    assert(0 <= map@[v] < oldidx@.len());
                }
            }
        }
        let rows: Vec<Vec<i64>> = match self.build_rows(&map, &oldidx, &ring, kcount) {
            None => {
                return CutOutcome::Degenerate;
            },
            Some(rw) => rw,
        };
        let ned: Edges = Edges { rows };
        if !ned.consistent() {
            return CutOutcome::Degenerate;
        }
        let traced: (Vec<Vec<FaceEntry>>, Vec<Vec<FaceEntry>>) = match trace_faces(&ned) {
            None => {
                return CutOutcome::Degenerate;
            },
            Some(t) => t,
        };
        let nfid: Vec<i32> = match self.assign_fids(&oldidx, &traced.0, kcount, p_id) {
            None => {
                return CutOutcome::Degenerate;
            },
            Some(fd) => fd,
        };
        let ghost keptseq = newpt@;
        let mut fullpt: Vec<Vec3> = newpt;
        let nring: usize = ring.len();
        let mut i: usize = 0;
        while i < nring
            invariant
                nring == interp@.len(),
                i <= nring,
                fullpt@.len() == keptseq.len() + i,
                fullpt@.subrange(0, keptseq.len() as int) == keptseq,
                forall|idx: int|
                    keptseq.len() <= idx < fullpt@.len() ==> fullpt@[idx] == interp@[idx - keptseq.len()],
            decreases nring - i,
        {
            fullpt.push(interp[i]);
            assert(fullpt@.subrange(0, keptseq.len() as int) =~= keptseq);
            i += 1;
        }
        let candidate: CellSgl = CellSgl {
            pt: fullpt,
            ed: ned,
            faces: traced.0,
            eface: traced.1,
            fid: nfid,
            tol: self.tol,
        };
        if candidate.consistent() {
            proof {
                assert(keptseq == self.spec_kept(nv, rsq as int));
                assert(self.spec_cut_result(candidate, nv, rsq as int, p_id));
            }
            *self = candidate;
            return CutOutcome::Cut;
        }
        CutOutcome::Degenerate
    }

    /// Cut the cell by the half-space of the plane with normal `nv` and
    /// offset `rsq`.  Returns `false` exactly when nothing of the cell is
    /// left (every vertex was beyond the plane, or the cell was already
    /// empty); [`Self::nplane_outcome`] reports in addition whether a
    /// returned `true` committed a cut, missed, or skipped a degenerate
    /// rewrite.
    pub fn nplane(&mut self, nv: Vec3, rsq: i64, p_id: i32) -> (r: bool)
        requires
            old(self).wf(),
            nv.spec_bounded(NORM_MAX as int),
            -RSQ_MAX <= rsq <= RSQ_MAX,
        ensures
            final(self).wf(),
            final(self).tol == old(self).tol,
            r == !old(self).spec_all_cut(nv, rsq as int),
            r == !final(self).spec_is_empty(),
            old(self).spec_no_cut(nv, rsq as int) && !old(self).spec_is_empty() ==> *final(self)
                == *old(self),
            old(self).spec_all_cut(nv, rsq as int) ==> final(self).spec_is_empty(),
            old(self).spec_is_empty() ==> *final(self) == *old(self),
            !old(self).spec_all_cut(nv, rsq as int) && !old(self).spec_no_cut(nv, rsq as int)
                ==> *final(self) == *old(self) || old(self).spec_cut_result(
                *final(self),
                nv,
                rsq as int,
                p_id,
            ),
    {
        let oc: CutOutcome = self.nplane_outcome(nv, rsq, p_id);
        match oc {
            CutOutcome::Consumed => false,
            _ => true,
        }
    }

    /// Whether the plane with normal `nv` and offset `rsq` would cut the
    /// cell: true exactly when some vertex lies beyond it.
    pub fn plane_intersects(&self, nv: Vec3, rsq: i64) -> (r: bool)
        requires
            self.wf(),
            nv.spec_bounded(NORM_MAX as int),
            -RSQ_MAX <= rsq <= RSQ_MAX,
        ensures
            r == !self.spec_no_cut(nv, rsq as int),
    {
        if self.pt.len() == 0 {
            return false;
        }
        let (_, any_cut, _) = self.classify(nv, rsq);
        any_cut
    }

    /// Whether the plane would cut the cell, told from a cached starting
    /// guess in the searching variants of the kernel; exact classification
    /// scans every vertex, so the guess changes nothing and the answer is
    /// the same as [`Self::plane_intersects`].
    pub fn plane_intersects_guess(&self, nv: Vec3, rsq: i64) -> (r: bool)
        requires
            self.wf(),
            nv.spec_bounded(NORM_MAX as int),
            -RSQ_MAX <= rsq <= RSQ_MAX,
        ensures
            r == !self.spec_no_cut(nv, rsq as int),
    {
        self.plane_intersects(nv, rsq)
    }

    /// Cut by the bisector plane of a neighbour at offset `nv`, computing
    /// the squared distance itself, recording the conventional id `-99`:
    /// the same return value and the same final state as `nplane` with
    /// that offset.
    pub fn plane(&mut self, nv: Vec3) -> (r: bool)
        requires
            old(self).wf(),
            nv.spec_bounded(NORM_MAX as int),
        ensures
            final(self).wf(),
            final(self).tol == old(self).tol,
            r == !old(self).spec_all_cut(nv, crate::measure::spec_rsq(nv)),
            r == !final(self).spec_is_empty(),
            old(self).spec_no_cut(nv, crate::measure::spec_rsq(nv)) && !old(self).spec_is_empty()
                ==> *final(self) == *old(self),
            old(self).spec_all_cut(nv, crate::measure::spec_rsq(nv))
                ==> final(self).spec_is_empty(),
            old(self).spec_is_empty() ==> *final(self) == *old(self),
            !old(self).spec_all_cut(nv, crate::measure::spec_rsq(nv)) && !old(self).spec_no_cut(
                nv,
                crate::measure::spec_rsq(nv),
            ) ==> *final(self) == *old(self) || old(self).spec_cut_result(
                *final(self),
                nv,
                crate::measure::spec_rsq(nv),
                -99i32,
            ),
    {
        proof {
            crate::vec3::lemma_mul_bounds(nv.x as int, nv.x as int, NORM_MAX as int, NORM_MAX as int);
            crate::vec3::lemma_mul_bounds(nv.y as int, nv.y as int, NORM_MAX as int, NORM_MAX as int);
            crate::vec3::lemma_mul_bounds(nv.z as int, nv.z as int, NORM_MAX as int, NORM_MAX as int);
        }
        let rsq_wide: i128 = (nv.x as i128) * (nv.x as i128) + (nv.y as i128) * (nv.y as i128) + (
        nv.z as i128) * (nv.z as i128);
        let rsq: i64 = rsq_wide as i64;
        self.nplane(nv, rsq, -99)
    }
}

/// Look up a crossing in the ring.
fn ring_find(ring: &Vec<(usize, usize)>, v: usize, j: usize) -> (res: Option<usize>)
    ensures
        res is Some ==> (res->Some_0 as int) < ring@.len(),
{
    let n: usize = ring.len();
    let mut r: usize = 0;
    while r < n
        invariant
            n == ring@.len(),
            r <= n,
        decreases n - r,
    {
        let e: (usize, usize) = ring[r];
        if e.0 == v && e.1 == j {
            return Some(r);
        }
        r += 1;
    }
    None
}

/// Overwrite one entry of a nested table, keeping its shape.
fn set_entry(t: &mut Vec<Vec<FaceEntry>>, v: usize, j: usize, val: FaceEntry)
    requires
        (v as int) < old(t)@.len(),
        (j as int) < old(t)@[v as int]@.len(),
    ensures
        final(t)@.len() == old(t)@.len(),
        forall|w: int| 0 <= w < old(t)@.len() ==> final(t)@[w]@.len() == old(t)@[w]@.len(),
        final(t)@[v as int]@[j as int] == val,
        forall|w: int, c: int|
            0 <= w < old(t)@.len() && 0 <= c < old(t)@[w]@.len() && !(w == v as int && c
                == j as int) ==> final(t)@[w]@[c] == old(t)@[w]@[c],
{
    let len: usize = t[v].len();
    let mut row: Vec<FaceEntry> = Vec::new();
    let mut c: usize = 0;
    while c < len
        invariant
            (v as int) < t@.len(),
            t@ == old(t)@,
            len == t@[v as int]@.len(),
            c <= len,
            row@.len() == c,
            forall|cc: int|
                0 <= cc < c ==> row@[cc] == (if cc == j as int {
                    val
                } else {
                    t@[v as int]@[cc]
                }),
        decreases len - c,
    {
        if c == j {
            row.push(val);
        } else {
            row.push(t[v][c]);
        }
        c += 1;
    }
    t.set(v, row);
}

/// Mark one flag of a nested table, keeping its shape.
fn set_flag(t: &mut Vec<Vec<bool>>, v: usize, j: usize)
    requires
        (v as int) < old(t)@.len(),
        (j as int) < old(t)@[v as int]@.len(),
    ensures
        final(t)@.len() == old(t)@.len(),
        forall|w: int| 0 <= w < old(t)@.len() ==> final(t)@[w]@.len() == old(t)@[w]@.len(),
        final(t)@[v as int]@[j as int] == true,
        forall|w: int, c: int|
            0 <= w < old(t)@.len() && 0 <= c < old(t)@[w]@.len() && !(w == v as int && c
                == j as int) ==> final(t)@[w]@[c] == old(t)@[w]@[c],
{
    let len: usize = t[v].len();
    let mut row: Vec<bool> = Vec::new();
    let mut c: usize = 0;
    while c < len
        invariant
            (v as int) < t@.len(),
            t@ == old(t)@,
            len == t@[v as int]@.len(),
            c <= len,
            row@.len() == c,
            forall|cc: int|
                0 <= cc < c ==> row@[cc] == (if cc == j as int {
                    true
                } else {
                    t@[v as int]@[cc]
                }),
        decreases len - c,
    {
        if c == j {
            row.push(true);
        } else {
            row.push(t[v][c]);
        }
        c += 1;
    }
    t.set(v, row);
}

/// One axis of the rounding-error expansion: scaling the error term by
/// the normal component regroups it over axis-by-normal products.
proof fn lemma_axis_expand(n: int, e: int, den: int, px: int, wc: int, kx: int, wk: int, cx: int)
    requires
        e == 2 * (den * px - (wc * kx - wk * cx)),
    ensures
        n * e == 2 * (den * (px * n)) - 2 * (wc * (kx * n)) + 2 * (wk * (cx * n)),
{
    let u = den * px;
    let v = wc * kx - wk * cx;
    assert(n * e == 2 * (n * u) - 2 * (n * v)) by (nonlinear_arith)
        requires
            e == 2 * (u - v),
    ;
    assert(n * u == den * (px * n)) by (nonlinear_arith)
        requires
            u == den * px,
    ;
    assert(n * v == wc * (kx * n) - wk * (cx * n)) by (nonlinear_arith)
        requires
            v == wc * kx - wk * cx,
    ;
}

/// A rounded intersection point on an edge from a strictly kept vertex
/// to a cut vertex classifies within half the normal's one-norm of the
/// plane: the exact intersection lies on the plane, and each coordinate
/// moved by at most half a grid unit.
proof fn lemma_round_pv(nv: Vec3, rsq: int, pk: Vec3, pc: Vec3, p: Vec3, wk: int, wc: int, den: int)
    requires
        wk == spec_plane_val(pk, nv, rsq),
        wc == spec_plane_val(pc, nv, rsq),
        wk <= 0,
        0 < wc,
        den == wc - wk,
        -den <= 2 * (den * p.x - (wc * pk.x - wk * pc.x)) <= den,
        -den <= 2 * (den * p.y - (wc * pk.y - wk * pc.y)) <= den,
        -den <= 2 * (den * p.z - (wc * pk.z - wk * pc.z)) <= den,
    ensures
        -spec_l1(nv) <= 2 * spec_plane_val(p, nv, rsq) <= spec_l1(nv),
{
    let ex = 2 * (den * p.x - (wc * pk.x - wk * pc.x));
    let ey = 2 * (den * p.y - (wc * pk.y - wk * pc.y));
    let ez = 2 * (den * p.z - (wc * pk.z - wk * pc.z));
    lemma_mul_abs_bound(nv.x as int, ex, den);
    lemma_mul_abs_bound(nv.y as int, ey, den);
    lemma_mul_abs_bound(nv.z as int, ez, den);
    let ssum = nv.x * ex + nv.y * ey + nv.z * ez;
    assert(spec_l1(nv) * den == spec_abs(nv.x as int) * den + spec_abs(nv.y as int) * den
        + spec_abs(nv.z as int) * den) by (nonlinear_arith)
        requires
            spec_l1(nv) == spec_abs(nv.x as int) + spec_abs(nv.y as int) + spec_abs(nv.z as int),
    ;
    assert(-(spec_l1(nv) * den) <= ssum <= spec_l1(nv) * den);
    // Expand the weighted sum of the per-axis rounding errors into the
    // dot products of the three points with the normal.
    let dp = p.x * nv.x + p.y * nv.y + p.z * nv.z;
    let dk = pk.x * nv.x + pk.y * nv.y + pk.z * nv.z;
    let dc = pc.x * nv.x + pc.y * nv.y + pc.z * nv.z;
    lemma_axis_expand(nv.x as int, ex, den, p.x as int, wc, pk.x as int, wk, pc.x as int);
    lemma_axis_expand(nv.y as int, ey, den, p.y as int, wc, pk.y as int, wk, pc.y as int);
    lemma_axis_expand(nv.z as int, ez, den, p.z as int, wc, pk.z as int, wk, pc.z as int);
    assert(den * (p.x * nv.x) + den * (p.y * nv.y) + den * (p.z * nv.z) == den * dp)
        by (nonlinear_arith)
        requires
            dp == p.x * nv.x + p.y * nv.y + p.z * nv.z,
    ;
    assert(wc * (pk.x * nv.x) + wc * (pk.y * nv.y) + wc * (pk.z * nv.z) == wc * dk)
        by (nonlinear_arith)
        requires
            dk == pk.x * nv.x + pk.y * nv.y + pk.z * nv.z,
    ;
    assert(wk * (pc.x * nv.x) + wk * (pc.y * nv.y) + wk * (pc.z * nv.z) == wk * dc)
        by (nonlinear_arith)
        requires
            dc == pc.x * nv.x + pc.y * nv.y + pc.z * nv.z,
    ;
    assert(ssum == 2 * (den * dp) - 2 * (wc * dk) + 2 * (wk * dc));
    // With `dk == wk + rsq` and `dc == wc + rsq`, the endpoint terms
    // collapse to `den * rsq`.
    assert(dk == wk + rsq);
    assert(dc == wc + rsq);
    assert(wc * dk - wk * dc == den * rsq) by (nonlinear_arith)
        requires
            dk == wk + rsq,
            dc == wc + rsq,
            den == wc - wk,
    ;
    assert(den * dp - den * rsq == den * spec_plane_val(p, nv, rsq)) by (nonlinear_arith)
        requires
            spec_plane_val(p, nv, rsq) == dp - rsq,
    ;
    assert(ssum == 2 * (den * spec_plane_val(p, nv, rsq)));
    assert(-spec_l1(nv) <= 2 * spec_plane_val(p, nv, rsq) <= spec_l1(nv)) by (nonlinear_arith)
        requires
            -(spec_l1(nv) * den) <= 2 * (den * spec_plane_val(p, nv, rsq)) <= spec_l1(nv) * den,
            0 < den,
    ;
}

/// The plane/edge intersection coordinate, rounded to the nearest grid
/// point: the exact coordinate is the convex combination of the two
/// endpoints' coordinates with weights `wc` and `-wk2`, and the rounded
/// value stays within half a grain of it and within the coordinate
/// bounds.  When the kept endpoint lies on or past the plane (`wk2 == 0`)
/// the division is exact and the new vertex lands on that endpoint.
fn round_coord(wc: i128, wk2: i128, den: i128, a: i64, b: i64) -> (r: i128)
    requires
        0 < wc < PV_ABS,
        -PV_ABS < wk2 <= 0,
        den == wc - wk2,
        -POS_MAX <= a <= POS_MAX,
        -POS_MAX <= b <= POS_MAX,
    ensures
        -(POS_MAX as int) <= r <= POS_MAX as int,
        -den <= 2 * (den * r - (wc * a - wk2 * b)) <= den,
        wk2 == 0 ==> r == a as int,
{
    proof {
        lemma_mul_nonneg_bound(wc as int, a as int, POS_MAX as int);
        lemma_mul_nonneg_bound(-(wk2 as int), b as int, POS_MAX as int);
        assert((-wk2) * (b as int) == -(wk2 * b)) by (nonlinear_arith);
        assert((wc + (-wk2)) * (POS_MAX as int) == wc * (POS_MAX as int) + (-wk2) * (
        POS_MAX as int)) by (nonlinear_arith);
    }
    let num: i128 = wc * (a as i128) - wk2 * (b as i128);
    let shifted: i128 = num + den * (POS_MAX as i128);
    let t: i128 = 2 * shifted + den;
    let d: i128 = 2 * den;
    let q: i128 = t / d;
    proof {
        assert(0 <= shifted);
        lemma_remainder_lower(t as int, d as int);
        lemma_remainder_upper(t as int, d as int);
        lemma_fundamental_div_mod(t as int, d as int);
    }
    let r: i128 = q - POS_MAX as i128;
    proof {
        // `d * q` brackets `t`, so `den * r` is within half a grain of
        // `num`, and the coordinate bound follows by cancelling `den`.
        assert(d * q <= t < d * q + d);
        assert(d * q == 2 * (den * q)) by (nonlinear_arith)
            requires
                d == 2 * den,
        ;
        assert(den * r == den * q - den * (POS_MAX as int)) by (nonlinear_arith)
            requires
                r == q - POS_MAX as int,
        ;
        assert(-den <= 2 * (den * r - num) <= den);
        assert(-(POS_MAX as int) <= r <= POS_MAX as int) by (nonlinear_arith)
            requires
                -den <= 2 * (den * r - num) <= den,
                -(den * (POS_MAX as int)) <= num <= den * (POS_MAX as int),
                0 < den,
        ;
        if wk2 == 0 {
            assert(num == den * (a as int)) by (nonlinear_arith)
                requires
                    num == wc * (a as int) - wk2 * (b as int),
                    wk2 == 0,
                    den == wc,
            ;
            assert(r == a as int) by (nonlinear_arith)
                requires
                    -den <= 2 * (den * r - den * (a as int)) <= den,
                    0 < den,
            ;
        }
    }
    r
}

} // verus!
