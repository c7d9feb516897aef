//! Measurement and motion routines on a finished cell.

use vstd::prelude::*;
use crate::vec3::{Vec3, COORD_MAX, POS_MAX, VERT_MAX, lemma_mul_bounds};
use crate::cell::{CellSgl, FaceEntry, lemma_wf_same_topology};

verus! {

/// Largest magnitude of one triangle's determinant over bounded positions.
pub const TRI_ABS: i128 = 0x2000_0000_0000;

/// Largest magnitude of one centroid term over bounded positions.
pub const CENT_ABS: i128 = 0x2000_0000_0000_0000;

/// Largest magnitude of one face's centroid numerator.
pub const CENT_FACE_ABS: i128 = 0x2000_0000_0000_0000_0000;

/// A position shifted by twice a translation vector.
pub open spec fn spec_translated(p: Vec3, t: Vec3) -> Vec3 {
    Vec3 { x: (p.x + 2 * t.x) as i64, y: (p.y + 2 * t.y) as i64, z: (p.z + 2 * t.z) as i64 }
}

/// The opposite of a translation vector.
pub open spec fn spec_neg(t: Vec3) -> Vec3 {
    Vec3 { x: (-t.x) as i64, y: (-t.y) as i64, z: (-t.z) as i64 }
}

/// The determinant of three position vectors: six times the signed volume
/// of the tetrahedron they span with the origin.
pub open spec fn spec_triple(a: Vec3, b: Vec3, c: Vec3) -> int {
    a.x * (b.y * c.z - b.z * c.y) + a.y * (b.z * c.x - b.x * c.z) + a.z * (b.x * c.y - b.y * c.x)
}

/// Squared distance of a position from the cell's particle.
pub open spec fn spec_rsq(p: Vec3) -> int {
    p.x * p.x + p.y * p.y + p.z * p.z
}

/// Largest squared vertex distance among the first `k` vertices.
pub open spec fn spec_max_rsq_upto(s: Seq<Vec3>, k: int) -> int
    decreases k,
{
    if k <= 1 {
        spec_rsq(s[0])
    } else if spec_rsq(s[k - 1]) > spec_max_rsq_upto(s, k - 1) {
        spec_rsq(s[k - 1])
    } else {
        spec_max_rsq_upto(s, k - 1)
    }
}

/// Bound on one triangle determinant over in-bounds positions.
pub proof fn lemma_triple_bound(a: Vec3, b: Vec3, c: Vec3)
    requires
        a.spec_bounded(POS_MAX as int),
        b.spec_bounded(POS_MAX as int),
        c.spec_bounded(POS_MAX as int),
    ensures
        -TRI_ABS < spec_triple(a, b, c) < TRI_ABS,
{
    let m = POS_MAX as int;
    lemma_mul_bounds(b.y as int, c.z as int, m, m);
    lemma_mul_bounds(b.z as int, c.y as int, m, m);
    lemma_mul_bounds(b.z as int, c.x as int, m, m);
    lemma_mul_bounds(b.x as int, c.z as int, m, m);
    lemma_mul_bounds(b.x as int, c.y as int, m, m);
    lemma_mul_bounds(b.y as int, c.x as int, m, m);
    lemma_mul_bounds(a.x as int, (b.y * c.z - b.z * c.y) as int, m, 2 * m * m);
    lemma_mul_bounds(a.y as int, (b.z * c.x - b.x * c.z) as int, m, 2 * m * m);
    lemma_mul_bounds(a.z as int, (b.x * c.y - b.y * c.x) as int, m, 2 * m * m);
}

impl CellSgl {
    /// Signed determinant contributions of face `f`, fanned from its first
    /// vertex, over its first `k` entries.
    pub open spec fn spec_face_vol_upto(self, f: int, k: int) -> int
        decreases k,
    {
        if k <= 2 {
            0
        } else {
            self.spec_face_vol_upto(f, k - 1) + spec_triple(
                self.pt@[self.faces@[f]@[0].0 as int],
                self.pt@[self.faces@[f]@[k - 1].0 as int],
                self.pt@[self.faces@[f]@[k - 2].0 as int],
            )
        }
    }

    /// Determinant contributions of the first `k` faces.
    pub open spec fn spec_vol_upto(self, k: int) -> int
        decreases k,
    {
        if k <= 0 {
            0
        } else {
            self.spec_vol_upto(k - 1) + self.spec_face_vol_upto(k - 1, self.faces@[k - 1]@.len() as int)
        }
    }

    /// Forty-eight times the cell's volume in grid units: stored
    /// coordinates are doubled (a factor eight) and each triangle
    /// determinant is six times a tetrahedron volume.
    pub open spec fn spec_volume48(self) -> int {
        self.spec_vol_upto(self.faces@.len() as int)
    }

    /// Every position can be shifted by twice `t` without leaving the
    /// coordinate bounds.
    pub open spec fn spec_can_translate(self, t: Vec3) -> bool {
        forall|v: int|
            0 <= v < self.n() ==> -POS_MAX <= (#[trigger] self.pt@[v]).x + 2 * t.x <= POS_MAX
                && -POS_MAX <= self.pt@[v].y + 2 * t.y <= POS_MAX && -POS_MAX <= self.pt@[v].z + 2
                * t.z <= POS_MAX
    }

    /// Translate every vertex of the cell by `t` (doubled in storage).
    /// Only the positions change; the topology, faces and ids stay as they
    /// were.
    pub fn translate(&mut self, t: Vec3)
        requires
            old(self).wf(),
            t.spec_bounded(COORD_MAX as int),
            old(self).spec_can_translate(t),
        ensures
            final(self).wf(),
            final(self).n() == old(self).n(),
            final(self).ed == old(self).ed,
            final(self).faces == old(self).faces,
            final(self).eface == old(self).eface,
            final(self).fid == old(self).fid,
            final(self).tol == old(self).tol,
            forall|v: int|
                0 <= v < old(self).n() ==> final(self).pt@[v] == spec_translated(
                    #[trigger] old(self).pt@[v],
                    t,
                ),
    {
        let n: usize = self.pt.len();
        let mut v: usize = 0;
        while v < n
            invariant
                n == self.n(),
                n == old(self).n(),
                v <= n,
                t.spec_bounded(COORD_MAX as int),
                old(self).spec_can_translate(t),
                self.ed == old(self).ed,
                self.faces == old(self).faces,
                self.eface == old(self).eface,
                self.fid == old(self).fid,
                self.tol == old(self).tol,
                forall|w: int| v <= w < n ==> self.pt@[w] == old(self).pt@[w],
                forall|w: int|
                    0 <= w < v ==> self.pt@[w] == spec_translated(#[trigger] old(self).pt@[w], t),
            decreases n - v,
        {
            let p: Vec3 = self.pt[v];
            assert(p == old(self).pt@[v as int]);
            assert(-POS_MAX <= old(self).pt@[v as int].x + 2 * t.x <= POS_MAX);
            self.pt.set(v, Vec3::new(p.x + 2 * t.x, p.y + 2 * t.y, p.z + 2 * t.z));
            v += 1;
        }
        proof {
            assert forall|w: int|
                0 <= w < self.n() implies (#[trigger] self.pt@[w]).spec_bounded(
                POS_MAX as int,
            ) by {
                assert(self.pt@[w] == spec_translated(old(self).pt@[w], t));
                assert(-POS_MAX <= old(self).pt@[w].x + 2 * t.x <= POS_MAX);
            }
            assert(self.pos_ok());
            lemma_wf_same_topology(*old(self), *self);
        }
    }

    /// The largest squared distance of any vertex from the particle, in
    /// stored (doubled) units: four times the physical squared radius.
    pub fn max_radius_sq(&self) -> (r: i128)
        requires
            self.wf(),
            !self.spec_is_empty(),
        ensures
            r as int == spec_max_rsq_upto(self.pt@, self.n()),
    {
        let n: usize = self.pt.len();
        let mut best: i128 = rsq_wide(self.pt[0]);
        let mut v: usize = 1;
        while v < n
            invariant
                n == self.n(),
                self.wf(),
                1 <= v <= n,
                best as int == spec_max_rsq_upto(self.pt@, v as int),
            decreases n - v,
        {
            let r: i128 = rsq_wide(self.pt[v]);
            if r > best {
                best = r;
            }
            v += 1;
        }
        best
    }

    /// Forty-eight times the cell volume in grid units, computed exactly
    /// by summing triangle determinants over every face fan.
    pub fn volume(&self) -> (r: i128)
        requires
            self.wf(),
        ensures
            r as int == self.spec_volume48(),
    {
        let nf: usize = self.faces.len();
        let mut acc: i128 = 0;
        let mut f: usize = 0;
        while f < nf
            invariant
                nf == self.faces@.len(),
                self.wf(),
                f <= nf,
                acc as int == self.spec_vol_upto(f as int),
                -(f as int) * (VERT_MAX as int) * TRI_ABS <= acc as int <= (f as int) * (
                VERT_MAX as int) * TRI_ABS,
            decreases nf - f,
        {
            let k: usize = self.faces[f].len();
            let a0: usize = self.faces[f][0].0;
            assert(self.face_entry_ok(f as int, 0));
            let p0: Vec3 = self.pt[a0];
            let mut c: usize = 2;
            let mut facc: i128 = 0;
            while c < k
                invariant
                    nf == self.faces@.len(),
                    self.wf(),
                    f < nf,
                    k == self.faces@[f as int]@.len(),
                    3 <= k <= VERT_MAX,
                    p0 == self.pt@[self.faces@[f as int]@[0].0 as int],
                    2 <= c <= k,
                    facc as int == self.spec_face_vol_upto(f as int, c as int),
                    -(c as int) * TRI_ABS <= facc as int <= (c as int) * TRI_ABS,
                decreases k - c,
            {
                assert(self.face_entry_ok(f as int, c as int));
                assert(self.face_entry_ok(f as int, c - 1));
                let pb: Vec3 = self.pt[self.faces[f][c].0];
                let pc: Vec3 = self.pt[self.faces[f][c - 1].0];
                proof {
                    assert(self.face_entry_ok(f as int, 0));
                    assert(self.pt@[self.faces@[f as int]@[0].0 as int].spec_bounded(
                        POS_MAX as int,
                    ));
                    assert(self.pt@[self.faces@[f as int]@[c as int].0 as int].spec_bounded(
                        POS_MAX as int,
                    ));
                    assert(self.pt@[self.faces@[f as int]@[c - 1].0 as int].spec_bounded(
                        POS_MAX as int,
                    ));
                }
                let t: i128 = triple_wide(p0, pb, pc);
                facc = facc + t;
                c += 1;
            }
            proof {
                lemma_vol_step_bound(*self, f as int);
            }
            acc = acc + facc;
            f += 1;
        }
        acc
    }

    /// Number of faces of the cell.
    pub fn number_of_faces(&self) -> (r: usize)
        ensures
            r == self.faces@.len(),
    {
        self.faces.len()
    }

    /// Number of edges of the cell: half the total vertex order.
    pub fn number_of_edges(&self) -> (r: u64)
        requires
            self.wf(),
        ensures
            r as int == self.ed.total_order() / 2,
    {
        if self.pt.len() == 0 {
            return 0;
        }
        let so: u64 = self.sum_orders();
        so / 2
    }
}

/// Exact squared length in wide arithmetic.
fn rsq_wide(p: Vec3) -> (r: i128)
    requires
        p.spec_bounded(POS_MAX as int),
    ensures
        r as int == spec_rsq(p),
{
    proof {
        lemma_mul_bounds(p.x as int, p.x as int, POS_MAX as int, POS_MAX as int);
        lemma_mul_bounds(p.y as int, p.y as int, POS_MAX as int, POS_MAX as int);
        lemma_mul_bounds(p.z as int, p.z as int, POS_MAX as int, POS_MAX as int);
    }
    (p.x as i128) * (p.x as i128) + (p.y as i128) * (p.y as i128) + (p.z as i128) * (p.z as i128)
}

/// Exact triangle determinant in wide arithmetic.
fn triple_wide(a: Vec3, b: Vec3, c: Vec3) -> (r: i128)
    requires
        a.spec_bounded(POS_MAX as int),
        b.spec_bounded(POS_MAX as int),
        c.spec_bounded(POS_MAX as int),
    ensures
        r as int == spec_triple(a, b, c),
        -TRI_ABS < r < TRI_ABS,
{
    proof {
        lemma_triple_bound(a, b, c);
        let m = POS_MAX as int;
        lemma_mul_bounds(b.y as int, c.z as int, m, m);
        lemma_mul_bounds(b.z as int, c.y as int, m, m);
        lemma_mul_bounds(b.z as int, c.x as int, m, m);
        lemma_mul_bounds(b.x as int, c.z as int, m, m);
        lemma_mul_bounds(b.x as int, c.y as int, m, m);
        lemma_mul_bounds(b.y as int, c.x as int, m, m);
        lemma_mul_bounds(a.x as int, (b.y * c.z - b.z * c.y) as int, m, 2 * m * m);
        lemma_mul_bounds(a.y as int, (b.z * c.x - b.x * c.z) as int, m, 2 * m * m);
        lemma_mul_bounds(a.z as int, (b.x * c.y - b.y * c.x) as int, m, 2 * m * m);
    }
    (a.x as i128) * ((b.y as i128) * (c.z as i128) - (b.z as i128) * (c.y as i128)) + (
    a.y as i128) * ((b.z as i128) * (c.x as i128) - (b.x as i128) * (c.z as i128)) + (
    a.z as i128) * ((b.x as i128) * (c.y as i128) - (b.y as i128) * (c.x as i128))
}

/// One face's fan sum is bounded by its length times the triangle bound.
proof fn lemma_face_vol_bound(cell: CellSgl, f: int, k: int)
    requires
        cell.wf(),
        0 <= f < cell.faces@.len(),
        0 <= k <= cell.faces@[f]@.len(),
    ensures
        -k * TRI_ABS <= cell.spec_face_vol_upto(f, k) <= k * TRI_ABS,
    decreases k,
{
    if k <= 2 {
    } else {
        lemma_face_vol_bound(cell, f, k - 1);
        assert(cell.face_entry_ok(f, 0));
        assert(cell.face_entry_ok(f, k - 1));
        assert(cell.face_entry_ok(f, k - 2));
        lemma_triple_bound(
            cell.pt@[cell.faces@[f]@[0].0 as int],
            cell.pt@[cell.faces@[f]@[k - 1].0 as int],
            cell.pt@[cell.faces@[f]@[k - 2].0 as int],
        );
    }
}

/// Adding face `f`'s fan keeps the running volume bound.
proof fn lemma_vol_step_bound(cell: CellSgl, f: int)
    requires
        cell.wf(),
        0 <= f < cell.faces@.len(),
    ensures
        -(VERT_MAX as int) * TRI_ABS <= cell.spec_face_vol_upto(
            f,
            cell.faces@[f]@.len() as int,
        ) <= (VERT_MAX as int) * TRI_ABS,
{
    lemma_face_vol_bound(cell, f, cell.faces@[f]@.len() as int);
    assert(cell.faces@[f]@.len() <= VERT_MAX as int);
}

/// Translating by `t` and then by its opposite restores every position:
/// the round trip over a whole position sequence is the identity.
pub proof fn lemma_translate_round_trip(pts: Seq<Vec3>, t: Vec3)
    requires
        forall|v: int| 0 <= v < pts.len() ==> (#[trigger] pts[v]).spec_bounded(POS_MAX as int),
        t.spec_bounded(COORD_MAX as int),
        forall|v: int|
            0 <= v < pts.len() ==> -POS_MAX <= (#[trigger] pts[v]).x + 2 * t.x <= POS_MAX
                && -POS_MAX <= pts[v].y + 2 * t.y <= POS_MAX && -POS_MAX <= pts[v].z + 2 * t.z
                <= POS_MAX,
    ensures
        forall|v: int|
            0 <= v < pts.len() ==> spec_translated(
                spec_translated(#[trigger] pts[v], t),
                spec_neg(t),
            ) == pts[v],
{
    assert forall|v: int| 0 <= v < pts.len() implies spec_translated(
        spec_translated(#[trigger] pts[v], t),
        spec_neg(t),
    ) == pts[v] by {
        let p = pts[v];
        let q = spec_translated(p, t);
        assert(q.x == p.x + 2 * t.x);
        assert(q.y == p.y + 2 * t.y);
        assert(q.z == p.z + 2 * t.z);
        assert(spec_translated(q, spec_neg(t)).x == p.x);
        assert(spec_translated(q, spec_neg(t)).y == p.y);
        assert(spec_translated(q, spec_neg(t)).z == p.z);
    }
}

impl CellSgl {
    /// Flat coordinate list of the first `k` vertices, in storage (doubled)
    /// units, shifted by twice the given offset.
    pub open spec fn spec_vertices_upto(self, ox: int, oy: int, oz: int, k: int) -> Seq<i64>
        decreases k,
    {
        if k <= 0 {
            Seq::empty()
        } else {
            self.spec_vertices_upto(ox, oy, oz, k - 1) + seq![
                (self.pt@[k - 1].x + 2 * ox) as i64,
                (self.pt@[k - 1].y + 2 * oy) as i64,
                (self.pt@[k - 1].z + 2 * oz) as i64,
            ]
        }
    }

    /// Vertex ids of the first `c` entries of face `f`.
    pub open spec fn spec_face_ids_upto(self, f: int, c: int) -> Seq<i64>
        decreases c,
    {
        if c <= 0 {
            Seq::empty()
        } else {
            self.spec_face_ids_upto(f, c - 1).push(self.faces@[f]@[c - 1].0 as i64)
        }
    }

    /// The flat face-vertex list of the first `k` faces: for each face its
    /// cycle length, then its vertex ids in cyclic order.
    pub open spec fn spec_face_vertices_upto(self, k: int) -> Seq<i64>
        decreases k,
    {
        if k <= 0 {
            Seq::empty()
        } else {
            self.spec_face_vertices_upto(k - 1) + seq![self.faces@[k - 1]@.len() as i64]
                + self.spec_face_ids_upto(k - 1, self.faces@[k - 1]@.len() as int)
        }
    }

    /// The order of every vertex, by vertex id.
    pub fn vertex_orders(&self) -> (r: Vec<usize>)
        requires
            self.wf(),
        ensures
            r@.len() == self.n(),
            forall|v: int| 0 <= v < self.n() ==> #[trigger] r@[v] as int == self.order(v),
    {
        let n: usize = self.pt.len();
        let mut r: Vec<usize> = Vec::new();
        let mut v: usize = 0;
        while v < n
            invariant
                n == self.n(),
                self.wf(),
                v <= n,
                r@.len() == v,
                forall|w: int| 0 <= w < v ==> #[trigger] r@[w] as int == self.order(w),
            decreases n - v,
        {
            proof {
                if self.n() > 0 {
                    assert(self.ed.row_ok(v as int));
                }
            }
            r.push(self.ed.vertex_order(v));
            v += 1;
        }
        r
    }

    /// The number of edges of every face, by face index.
    pub fn face_orders(&self) -> (r: Vec<usize>)
        requires
            self.wf(),
        ensures
            r@.len() == self.faces@.len(),
            forall|f: int|
                0 <= f < self.faces@.len() ==> #[trigger] r@[f] as int == self.faces@[f]@.len(),
    {
        let nf: usize = self.faces.len();
        let mut r: Vec<usize> = Vec::new();
        let mut f: usize = 0;
        while f < nf
            invariant
                nf == self.faces@.len(),
                f <= nf,
                r@.len() == f,
                forall|g: int| 0 <= g < f ==> #[trigger] r@[g] as int == self.faces@[g]@.len(),
            decreases nf - f,
        {
            r.push(self.faces[f].len());
            f += 1;
        }
        r
    }

    /// The flat face-vertex list: for each face its cycle length followed
    /// by its vertex ids in cyclic order.
    pub fn face_vertices(&self) -> (r: Vec<i64>)
        requires
            self.wf(),
        ensures
            r@ == self.spec_face_vertices_upto(self.faces@.len() as int),
    {
        let nf: usize = self.faces.len();
        let mut r: Vec<i64> = Vec::new();
        let mut f: usize = 0;
        while f < nf
            invariant
                self.wf(),
                nf == self.faces@.len(),
                f <= nf,
                r@ == self.spec_face_vertices_upto(f as int),
            decreases nf - f,
        {
            let k: usize = self.faces[f].len();
            proof {
                assert(3 <= self.faces@[f as int]@.len() <= VERT_MAX as int);
            }
            r.push(k as i64);
            let mut c: usize = 0;
            while c < k
                invariant
                    self.wf(),
                    nf == self.faces@.len(),
                    f < nf,
                    k == self.faces@[f as int]@.len(),
                    c <= k,
                    r@ == self.spec_face_vertices_upto(f as int) + seq![k as i64]
                        + self.spec_face_ids_upto(f as int, c as int),
                decreases k - c,
            {
                proof {
                    assert(self.face_entry_ok(f as int, c as int));
                }
                r.push(self.faces[f][c].0 as i64);
                proof {
                    assert(r@ =~= self.spec_face_vertices_upto(f as int) + seq![k as i64]
                        + self.spec_face_ids_upto(f as int, (c + 1) as int));
                }
                c += 1;
            }
            proof {
                assert(r@ =~= self.spec_face_vertices_upto((f + 1) as int));
            }
            f += 1;
        }
        r
    }

    /// The vertex coordinates relative to the particle, flattened, in
    /// storage (doubled) units.
    pub fn vertices_local(&self) -> (r: Vec<i64>)
        requires
            self.wf(),
        ensures
            r@ == self.spec_vertices_upto(0, 0, 0, self.n()),
    {
        self.vertices_global(0, 0, 0)
    }

    /// The vertex coordinates shifted to a particle at `(ox, oy, oz)`,
    /// flattened, in storage (doubled) units.
    pub fn vertices_global(&self, ox: i64, oy: i64, oz: i64) -> (r: Vec<i64>)
        requires
            self.wf(),
            -COORD_MAX <= ox <= COORD_MAX,
            -COORD_MAX <= oy <= COORD_MAX,
            -COORD_MAX <= oz <= COORD_MAX,
        ensures
            r@ == self.spec_vertices_upto(ox as int, oy as int, oz as int, self.n()),
    {
        let n: usize = self.pt.len();
        let mut r: Vec<i64> = Vec::new();
        let mut v: usize = 0;
        while v < n
            invariant
                self.wf(),
                n == self.n(),
                -COORD_MAX <= ox <= COORD_MAX,
                -COORD_MAX <= oy <= COORD_MAX,
                -COORD_MAX <= oz <= COORD_MAX,
                v <= n,
                r@ == self.spec_vertices_upto(ox as int, oy as int, oz as int, v as int),
            decreases n - v,
        {
            let p: Vec3 = self.pt[v];
            proof {
                assert(self.pt@[v as int].spec_bounded(POS_MAX as int));
            }
            r.push(p.x + 2 * ox);
            r.push(p.y + 2 * oy);
            r.push(p.z + 2 * oz);
            proof {
                assert(r@ =~= self.spec_vertices_upto(ox as int, oy as int, oz as int, (v
                    + 1) as int));
            }
            v += 1;
        }
        r
    }

    /// The plane id recorded on each face: for a face made by a cut, the
    /// id passed to that cut; for a seed face, the seed's wall id.
    pub fn neighbors(&self) -> (r: Vec<i32>)
        ensures
            r@ == self.fid@,
    {
        let nf: usize = self.fid.len();
        let mut r: Vec<i32> = Vec::new();
        let mut f: usize = 0;
        while f < nf
            invariant
                nf == self.fid@.len(),
                f <= nf,
                r@ == self.fid@.subrange(0, f as int),
            decreases nf - f,
        {
            r.push(self.fid[f]);
            proof {
                assert(r@ =~= self.fid@.subrange(0, (f + 1) as int));
            }
            f += 1;
        }
        proof {
            assert(r@ =~= self.fid@);
        }
        r
    }
}

impl CellSgl {
    /// Centroid numerators of face `f`'s fan over its first `k` entries:
    /// each triangle weighs its three corners' coordinate sum by its
    /// determinant.
    pub open spec fn spec_face_cent_upto(self, f: int, k: int) -> (int, int, int)
        decreases k,
    {
        if k <= 2 {
            (0, 0, 0)
        } else {
            let r = self.spec_face_cent_upto(f, k - 1);
            let a = self.pt@[self.faces@[f]@[0].0 as int];
            let b = self.pt@[self.faces@[f]@[k - 1].0 as int];
            let c = self.pt@[self.faces@[f]@[k - 2].0 as int];
            let t = spec_triple(a, b, c);
            (r.0 + t * (a.x + b.x + c.x), r.1 + t * (a.y + b.y + c.y), r.2 + t * (a.z + b.z + c.z))
        }
    }

    /// Centroid numerators of the first `k` faces.
    pub open spec fn spec_cent_upto(self, k: int) -> (int, int, int)
        decreases k,
    {
        if k <= 0 {
            (0, 0, 0)
        } else {
            let r = self.spec_cent_upto(k - 1);
            let s = self.spec_face_cent_upto(k - 1, self.faces@[k - 1]@.len() as int);
            (r.0 + s.0, r.1 + s.1, r.2 + s.2)
        }
    }

    /// The centroid of the cell, exactly, as three numerators and one
    /// denominator: the centroid's stored (doubled) coordinates are the
    /// numerators divided by the denominator, which is four times the
    /// scaled volume that [`Self::volume`] returns.
    pub fn centroid(&self) -> (r: (i128, i128, i128, i128))
        requires
            self.wf(),
        ensures
            r.0 as int == self.spec_cent_upto(self.faces@.len() as int).0,
            r.1 as int == self.spec_cent_upto(self.faces@.len() as int).1,
            r.2 as int == self.spec_cent_upto(self.faces@.len() as int).2,
            r.3 as int == 4 * self.spec_volume48(),
    {
        let nf: usize = self.faces.len();
        let mut ax: i128 = 0;
        let mut ay: i128 = 0;
        let mut az: i128 = 0;
        let mut f: usize = 0;
        while f < nf
            invariant
                nf == self.faces@.len(),
                self.wf(),
                f <= nf,
                ax as int == self.spec_cent_upto(f as int).0,
                ay as int == self.spec_cent_upto(f as int).1,
                az as int == self.spec_cent_upto(f as int).2,
                -(f as int) * CENT_FACE_ABS <= ax as int <= (f as int) * CENT_FACE_ABS,
                -(f as int) * CENT_FACE_ABS <= ay as int <= (f as int) * CENT_FACE_ABS,
                -(f as int) * CENT_FACE_ABS <= az as int <= (f as int) * CENT_FACE_ABS,
            decreases nf - f,
        {
            let k: usize = self.faces[f].len();
            proof {
                assert(self.face_entry_ok(f as int, 0));
                assert(self.pt@[self.faces@[f as int]@[0].0 as int].spec_bounded(POS_MAX as int));
            }
            let a0: usize = self.faces[f][0].0;
            let p0: Vec3 = self.pt[a0];
            let mut fx: i128 = 0;
            let mut fy: i128 = 0;
            let mut fz: i128 = 0;
            let mut c: usize = 2;
            while c < k
                invariant
                    nf == self.faces@.len(),
                    self.wf(),
                    f < nf,
                    k == self.faces@[f as int]@.len(),
                    3 <= k <= VERT_MAX,
                    p0 == self.pt@[self.faces@[f as int]@[0].0 as int],
                    p0.spec_bounded(POS_MAX as int),
                    2 <= c <= k,
                    fx as int == self.spec_face_cent_upto(f as int, c as int).0,
                    fy as int == self.spec_face_cent_upto(f as int, c as int).1,
                    fz as int == self.spec_face_cent_upto(f as int, c as int).2,
                    -(c as int) * CENT_ABS <= fx as int <= (c as int) * CENT_ABS,
                    -(c as int) * CENT_ABS <= fy as int <= (c as int) * CENT_ABS,
                    -(c as int) * CENT_ABS <= fz as int <= (c as int) * CENT_ABS,
                decreases k - c,
            {
                proof {
                    assert(self.face_entry_ok(f as int, c as int));
                    assert(self.face_entry_ok(f as int, c - 1));
                    assert(self.pt@[self.faces@[f as int]@[c as int].0 as int].spec_bounded(
                        POS_MAX as int,
                    ));
                    assert(self.pt@[self.faces@[f as int]@[c - 1].0 as int].spec_bounded(
                        POS_MAX as int,
                    ));
                }
                let pb: Vec3 = self.pt[self.faces[f][c].0];
                let pc: Vec3 = self.pt[self.faces[f][c - 1].0];
                let t: i128 = triple_wide(p0, pb, pc);
                proof {
                    assert((TRI_ABS as int) * (3 * (POS_MAX as int)) <= CENT_ABS);
                    lemma_mul_bounds(
                        t as int,
                        p0.x as int + pb.x as int + pc.x as int,
                        TRI_ABS as int,
                        3 * (POS_MAX as int),
                    );
                    lemma_mul_bounds(
                        t as int,
                        p0.y as int + pb.y as int + pc.y as int,
                        TRI_ABS as int,
                        3 * (POS_MAX as int),
                    );
                    lemma_mul_bounds(
                        t as int,
                        p0.z as int + pb.z as int + pc.z as int,
                        TRI_ABS as int,
                        3 * (POS_MAX as int),
                    );
                }
                fx = fx + t * ((p0.x as i128) + (pb.x as i128) + (pc.x as i128));
                fy = fy + t * ((p0.y as i128) + (pb.y as i128) + (pc.y as i128));
                fz = fz + t * ((p0.z as i128) + (pb.z as i128) + (pc.z as i128));
                proof {
                    let pre = self.spec_face_cent_upto(f as int, c as int);
                    let post = self.spec_face_cent_upto(f as int, (c + 1) as int);
                    let tt = spec_triple(p0, pb, pc);
                    assert(post.0 == pre.0 + tt * (p0.x + pb.x + pc.x));
                    assert(post.1 == pre.1 + tt * (p0.y + pb.y + pc.y));
                    assert(post.2 == pre.2 + tt * (p0.z + pb.z + pc.z));
                }
                c += 1;
            }
            proof {
                assert(self.sizes_ok());
                assert(nf <= 4 * VERT_MAX);
                assert((VERT_MAX as int) * CENT_ABS == CENT_FACE_ABS);
                assert(-CENT_FACE_ABS <= fx as int <= CENT_FACE_ABS);
                assert(-CENT_FACE_ABS <= fy as int <= CENT_FACE_ABS);
                assert(-CENT_FACE_ABS <= fz as int <= CENT_FACE_ABS);
            }
            ax = ax + fx;
            ay = ay + fy;
            az = az + fz;
            f += 1;
        }
        let vol: i128 = self.volume();
        proof {
            lemma_vol_total_bound(*self);
        }
        (ax, ay, az, 4 * vol)
    }
}

/// One face's centroid numerators are bounded by its length times the
/// per-term bound.
proof fn lemma_face_cent_bound(cell: CellSgl, f: int, k: int)
    requires
        cell.wf(),
        0 <= f < cell.faces@.len(),
        0 <= k <= cell.faces@[f]@.len(),
    ensures
        -k * CENT_ABS <= cell.spec_face_cent_upto(f, k).0 <= k * CENT_ABS,
        -k * CENT_ABS <= cell.spec_face_cent_upto(f, k).1 <= k * CENT_ABS,
        -k * CENT_ABS <= cell.spec_face_cent_upto(f, k).2 <= k * CENT_ABS,
    decreases k,
{
    if k <= 2 {
    } else {
        lemma_face_cent_bound(cell, f, k - 1);
        assert(cell.face_entry_ok(f, 0));
        assert(cell.face_entry_ok(f, k - 1));
        assert(cell.face_entry_ok(f, k - 2));
        let a = cell.pt@[cell.faces@[f]@[0].0 as int];
        let b = cell.pt@[cell.faces@[f]@[k - 1].0 as int];
        let c = cell.pt@[cell.faces@[f]@[k - 2].0 as int];
        lemma_triple_bound(a, b, c);
        assert((TRI_ABS as int) * (3 * (POS_MAX as int)) <= CENT_ABS);
        lemma_mul_bounds(
            spec_triple(a, b, c),
            a.x + b.x + c.x,
            TRI_ABS as int,
            3 * (POS_MAX as int),
        );
        lemma_mul_bounds(
            spec_triple(a, b, c),
            a.y + b.y + c.y,
            TRI_ABS as int,
            3 * (POS_MAX as int),
        );
        lemma_mul_bounds(
            spec_triple(a, b, c),
            a.z + b.z + c.z,
            TRI_ABS as int,
            3 * (POS_MAX as int),
        );
    }
}

/// Adding face `f`'s centroid numerators keeps the running bound.
proof fn lemma_cent_step_bound(cell: CellSgl, f: int)
    requires
        cell.wf(),
        0 <= f < cell.faces@.len(),
    ensures
        -(VERT_MAX as int) * CENT_ABS <= cell.spec_face_cent_upto(
            f,
            cell.faces@[f]@.len() as int,
        ).0 <= (VERT_MAX as int) * CENT_ABS,
        -(VERT_MAX as int) * CENT_ABS <= cell.spec_face_cent_upto(
            f,
            cell.faces@[f]@.len() as int,
        ).1 <= (VERT_MAX as int) * CENT_ABS,
        -(VERT_MAX as int) * CENT_ABS <= cell.spec_face_cent_upto(
            f,
            cell.faces@[f]@.len() as int,
        ).2 <= (VERT_MAX as int) * CENT_ABS,
{
    lemma_face_cent_bound(cell, f, cell.faces@[f]@.len() as int);
    assert(cell.faces@[f]@.len() <= VERT_MAX as int);
}

/// The total volume sum is bounded by the face count times the per-face
/// bound.
proof fn lemma_vol_upto_bound(cell: CellSgl, k: int)
    requires
        cell.wf(),
        0 <= k <= cell.faces@.len(),
    ensures
        -k * (VERT_MAX as int) * TRI_ABS <= cell.spec_vol_upto(k) <= k * (VERT_MAX as int)
            * TRI_ABS,
    decreases k,
{
    if k > 0 {
        lemma_vol_upto_bound(cell, k - 1);
        lemma_vol_step_bound(cell, k - 1);
    }
}

/// The whole volume sum stays well inside the wide-integer range.
proof fn lemma_vol_total_bound(cell: CellSgl)
    requires
        cell.wf(),
    ensures
        -(4 * (VERT_MAX as int)) * (VERT_MAX as int) * TRI_ABS <= cell.spec_volume48() <= (4 * (
        VERT_MAX as int)) * (VERT_MAX as int) * TRI_ABS,
{
    lemma_vol_upto_bound(cell, cell.faces@.len() as int);
    if cell.faces@.len() > 0 {
        assert(cell.sizes_ok());
    }
}

/// How many of the first `upto` faces have exactly `k` edges.
pub open spec fn spec_order_count(faces: Seq<Vec<FaceEntry>>, k: int, upto: int) -> int
    decreases upto,
{
    if upto <= 0 {
        0
    } else {
        spec_order_count(faces, k, upto - 1) + if faces[upto - 1].len() == k {
            1int
        } else {
            0
        }
    }
}

impl CellSgl {
    /// A histogram of face orders: entry `k` counts the faces with `k`
    /// edges, and every face's order is within the table.
    pub fn face_freq_table(&self) -> (r: Vec<i64>)
        requires
            self.wf(),
        ensures
            forall|k: int|
                0 <= k < r@.len() ==> #[trigger] r@[k] as int == spec_order_count(
                    self.faces@,
                    k,
                    self.faces@.len() as int,
                ),
            forall|f: int|
                0 <= f < self.faces@.len() ==> (#[trigger] self.faces@[f]@.len() as int)
                    < r@.len(),
            self.faces@.len() == 0 ==> r@.len() == 0,
    {
        let nf: usize = self.faces.len();
        if nf == 0 {
            return Vec::new();
        }
        let mut m: usize = 0;
        let mut f: usize = 0;
        while f < nf
            invariant
                self.wf(),
                nf == self.faces@.len(),
                f <= nf,
                m <= VERT_MAX,
                forall|g: int| 0 <= g < f ==> (#[trigger] self.faces@[g]@.len()) <= m,
            decreases nf - f,
        {
            proof {
                assert(3 <= self.faces@[f as int]@.len() <= VERT_MAX as int);
            }
            let l: usize = self.faces[f].len();
            if l > m {
                m = l;
            }
            f += 1;
        }
        let mut r: Vec<i64> = Vec::new();
        while r.len() < m + 1
            invariant
                m <= VERT_MAX,
                r@.len() <= m + 1,
                forall|k: int| 0 <= k < r@.len() ==> #[trigger] r@[k] == 0,
            decreases m + 1 - r.len(),
        {
            r.push(0);
        }
        let mut f: usize = 0;
        while f < nf
            invariant
                self.wf(),
                nf == self.faces@.len(),
                f <= nf,
                m <= VERT_MAX,
                r@.len() == m + 1,
                forall|g: int| 0 <= g < nf ==> (#[trigger] self.faces@[g]@.len()) <= m,
                forall|k: int|
                    0 <= k < r@.len() ==> #[trigger] r@[k] as int == spec_order_count(
                        self.faces@,
                        k,
                        f as int,
                    ) && 0 <= r@[k] <= f,
            decreases nf - f,
        {
            let idx: usize = self.faces[f].len();
            let cur: i64 = r[idx];
            r.set(idx, cur + 1);
            proof {
                assert forall|k: int|
                    0 <= k < r@.len() implies #[trigger] r@[k] as int == spec_order_count(
                    self.faces@,
                    k,
                    (f + 1) as int,
                ) && 0 <= r@[k] <= f + 1 by {
                    if k == idx {
                        assert(self.faces@[f as int]@.len() == k);
                    } else {
                        assert(self.faces@[f as int]@.len() != k);
                    }
                }
            }
            f += 1;
        }
        r
    }
}

} // verus!
