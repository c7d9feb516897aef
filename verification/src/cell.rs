//! The Voronoi cell: vertex positions, adjacency table and face table,
//! with the well-formedness invariant every operation preserves.

use vstd::prelude::*;
use crate::vec3::{Vec3, POS_MAX, TOL_MAX, VERT_MAX};
use crate::edges::{Edges, spec_ccw};

verus! {

/// One stop of a face cycle: a vertex id and the slot of the directed edge
/// leaving it along the face.
pub type FaceEntry = (usize, usize);

/// A convex polyhedral cell.
///
/// `pt[v]` is the position of vertex `v`, stored at twice the
/// particle-relative offset.  `ed` holds the adjacency rows.  `faces[f]`
/// lists the directed edges of face `f` in cyclic order, `eface[v][j]`
/// points back to the face entry that uses slot `j` of vertex `v`, and
/// `fid[f]` is the id of the cutting plane (or seed wall) that made face
/// `f`.  `tol` is the classification tolerance of the cutting engine.
#[derive(Clone, Debug)]
pub struct CellSgl {
    pub pt: Vec<Vec3>,
    pub ed: Edges,
    pub faces: Vec<Vec<FaceEntry>>,
    pub eface: Vec<Vec<FaceEntry>>,
    pub fid: Vec<i32>,
    pub tol: i64,
}

/// Sum of the cycle lengths of the first `k` faces.
pub open spec fn sum_face_len_upto(faces: Seq<Vec<FaceEntry>>, k: int) -> int
    decreases k,
{
    if k <= 0 {
        0
    } else {
        sum_face_len_upto(faces, k - 1) + faces[k - 1].len()
    }
}

impl Edges {
    /// Sum of the orders of the first `k` vertices.
    pub open spec fn sum_order_upto(self, k: int) -> int
        decreases k,
    {
        if k <= 0 {
            0
        } else {
            self.sum_order_upto(k - 1) + self.order(k - 1)
        }
    }

    /// Sum of all vertex orders: twice the number of edges.
    pub open spec fn total_order(self) -> int {
        self.sum_order_upto(self.n())
    }
}

impl CellSgl {
    /// Number of vertices.
    pub open spec fn n(self) -> int {
        self.pt@.len() as int
    }

    /// The cell has been cut away entirely.
    pub open spec fn spec_is_empty(self) -> bool {
        self.n() == 0
    }

    /// Order of vertex `v`.
    pub open spec fn order(self, v: int) -> int {
        self.ed.order(v)
    }

    /// Neighbour id in slot `j` of vertex `v`.
    pub open spec fn nbr(self, v: int, j: int) -> int {
        self.ed.nbr(v, j)
    }

    /// Reciprocal slot in slot `j` of vertex `v`.
    pub open spec fn rec(self, v: int, j: int) -> int {
        self.ed.rec(v, j)
    }

    /// The fields agree on the number of vertices and faces.
    pub open spec fn sizes_ok(self) -> bool {
        &&& self.ed.n() == self.n()
        &&& self.eface@.len() == self.n()
        &&& self.fid@.len() == self.faces@.len()
        &&& self.n() <= VERT_MAX as int
        &&& self.faces@.len() <= 4 * (VERT_MAX as int)
        &&& 0 <= self.tol <= TOL_MAX
    }

    /// Entry `c` of face `f` names a real vertex and one of its slots.
    pub open spec fn face_entry_ok(self, f: int, c: int) -> bool {
        &&& (self.faces@[f]@[c].0 as int) < self.n()
        &&& (self.faces@[f]@[c].1 as int) < self.order(self.faces@[f]@[c].0 as int)
    }

    /// Entry `c` of face `f` is followed by the directed edge the rotation
    /// system prescribes: the next entry starts at the neighbour this one
    /// points to, one slot counterclockwise past the reciprocal slot.
    pub open spec fn face_step_ok(self, f: int, c: int) -> bool {
        let a = self.faces@[f]@[c].0 as int;
        let ja = self.faces@[f]@[c].1 as int;
        let c2 = if c + 1 == self.faces@[f]@.len() {
            0
        } else {
            c + 1
        };
        let b = self.faces@[f]@[c2].0 as int;
        let jb = self.faces@[f]@[c2].1 as int;
        &&& b == self.nbr(a, ja)
        &&& jb == spec_ccw(self.rec(a, ja), self.order(b))
    }

    /// Entry `c` of face `f` is the entry `eface` points back to from the
    /// slot it names.
    pub open spec fn face_inverse_ok(self, f: int, c: int) -> bool {
        let v = self.faces@[f]@[c].0 as int;
        let j = self.faces@[f]@[c].1 as int;
        &&& (self.eface@[v]@[j].0 as int) == f
        &&& (self.eface@[v]@[j].1 as int) == c
    }

    /// Slot `j` of vertex `v` is named by the face entry `eface` points to.
    pub open spec fn slot_face_ok(self, v: int, j: int) -> bool {
        let f = self.eface@[v]@[j].0 as int;
        let c = self.eface@[v]@[j].1 as int;
        &&& f < self.faces@.len()
        &&& c < self.faces@[f]@.len()
        &&& self.faces@[f]@[c].0 == v
        &&& self.faces@[f]@[c].1 == j
    }

    /// The face table is sound: every face is a cycle of at least three
    /// directed edges following the rotation system, and `faces` and
    /// `eface` are mutually inverse, so that every slot of every vertex
    /// lies on exactly one face.
    pub open spec fn faces_good(self) -> bool {
        &&& forall|v: int| 0 <= v < self.n() ==> self.eface@[v]@.len() == self.order(v)
        &&& forall|f: int|
            0 <= f < self.faces@.len() ==> 3 <= #[trigger] self.faces@[f]@.len()
                <= VERT_MAX as int
        &&& forall|f: int, c: int|
            0 <= f < self.faces@.len() && 0 <= c < self.faces@[f]@.len() ==> self.face_entry_ok(
                f,
                c,
            )
        &&& forall|f: int, c: int|
            0 <= f < self.faces@.len() && 0 <= c < self.faces@[f]@.len() ==> self.face_step_ok(
                f,
                c,
            )
        &&& forall|f: int, c: int|
            0 <= f < self.faces@.len() && 0 <= c < self.faces@[f]@.len() ==> self.face_inverse_ok(
                f,
                c,
            )
        &&& forall|v: int, j: int|
            0 <= v < self.n() && 0 <= j < self.order(v) ==> self.slot_face_ok(v, j)
        &&& sum_face_len_upto(self.faces@, self.faces@.len() as int) == self.ed.total_order()
    }

    /// Euler's identity `V - E + F == 2`, with `E` half the total order.
    pub open spec fn euler_ok(self) -> bool {
        &&& self.ed.total_order() % 2 == 0
        &&& self.n() + self.faces@.len() == 2 + self.ed.total_order() / 2
    }

    /// Every stored position is within the coordinate bounds.
    pub open spec fn pos_ok(self) -> bool {
        forall|v: int| 0 <= v < self.n() ==> self.pt@[v].spec_bounded(POS_MAX as int)
    }

    /// The full cell invariant.  An empty cell (everything cut away) has no
    /// vertices and no faces; a live cell is a sound polyhedral graph with
    /// a sound face table satisfying Euler's identity.
    pub open spec fn wf(self) -> bool {
        &&& self.sizes_ok()
        &&& self.pos_ok()
        &&& if self.n() == 0 {
            self.faces@.len() == 0
        } else {
            &&& self.ed.edges_ok()
            &&& self.faces_good()
            &&& self.euler_ok()
        }
    }
    /// Every stored position lies within the coordinate bounds.
    fn check_positions(&self) -> (r: bool)
        ensures
            r == self.pos_ok(),
    {
        let n: usize = self.pt.len();
        let mut v: usize = 0;
        while v < n
            invariant
                n == self.n(),
                v <= n,
                forall|w: int| 0 <= w < v ==> self.pt@[w].spec_bounded(POS_MAX as int),
            decreases n - v,
        {
            let p: Vec3 = self.pt[v];
            if p.x < -POS_MAX || p.x > POS_MAX || p.y < -POS_MAX || p.y > POS_MAX || p.z < -POS_MAX
                || p.z > POS_MAX {
                assert(!self.pt@[v as int].spec_bounded(POS_MAX as int));
                return false;
            }
            v += 1;
        }
        true
    }

    /// `eface` has one row per vertex, of the vertex's order.
    fn check_eface_shape(&self) -> (r: bool)
        requires
            self.ed.edges_ok(),
            self.ed.n() == self.n(),
            self.eface@.len() == self.n(),
        ensures
            r == forall|v: int| 0 <= v < self.n() ==> self.eface@[v]@.len() == self.order(v),
    {
        let n: usize = self.pt.len();
        let mut v: usize = 0;
        while v < n
            invariant
                n == self.n(),
                self.ed.edges_ok(),
                self.ed.n() == self.n(),
                self.eface@.len() == self.n(),
                v <= n,
                forall|w: int| 0 <= w < v ==> self.eface@[w]@.len() == self.order(w),
            decreases n - v,
        {
            let m: usize = self.ed.vertex_order(v);
            if self.eface[v].len() != m {
                assert(self.eface@[v as int]@.len() != self.order(v as int));
                return false;
            }
            v += 1;
        }
        true
    }

    /// Every face is a short cycle whose entries are real slots, follow the
    /// rotation system, and are pointed back at by `eface`.
    fn check_face_cycles(&self) -> (r: bool)
        requires
            self.ed.edges_ok(),
            self.ed.n() == self.n(),
            self.eface@.len() == self.n(),
            forall|v: int| 0 <= v < self.n() ==> self.eface@[v]@.len() == self.order(v),
        ensures
            r == {
                &&& forall|f: int|
                    0 <= f < self.faces@.len() ==> 3 <= #[trigger] self.faces@[f]@.len()
                        <= VERT_MAX as int
                &&& forall|f: int, c: int|
                    0 <= f < self.faces@.len() && 0 <= c < self.faces@[f]@.len()
                        ==> self.face_entry_ok(f, c) && self.face_step_ok(f, c)
                            && self.face_inverse_ok(f, c)
            },
    {
        let nf: usize = self.faces.len();
        let mut f: usize = 0;
        while f < nf
            invariant
                nf == self.faces@.len(),
                self.ed.edges_ok(),
                self.ed.n() == self.n(),
                self.eface@.len() == self.n(),
                forall|v: int| 0 <= v < self.n() ==> self.eface@[v]@.len() == self.order(v),
                f <= nf,
                forall|ff: int| 0 <= ff < f ==> 3 <= #[trigger] self.faces@[ff]@.len()
                    <= VERT_MAX as int,
                forall|ff: int, cc: int|
                    0 <= ff < f && 0 <= cc < self.faces@[ff]@.len() ==> self.face_entry_ok(ff, cc)
                        && self.face_step_ok(ff, cc) && self.face_inverse_ok(ff, cc),
            decreases nf - f,
        {
            let k: usize = self.faces[f].len();
            if k < 3 || k > VERT_MAX {
                return false;
            }
            let mut c: usize = 0;
            while c < k
                invariant
                    nf == self.faces@.len(),
                    self.ed.edges_ok(),
                    self.ed.n() == self.n(),
                    self.eface@.len() == self.n(),
                    forall|v: int| 0 <= v < self.n() ==> self.eface@[v]@.len() == self.order(v),
                    f < nf,
                    k == self.faces@[f as int]@.len(),
                    3 <= k <= VERT_MAX,
                    c <= k,
                    forall|cc: int|
                        0 <= cc < c ==> self.face_entry_ok(f as int, cc) && self.face_step_ok(
                            f as int,
                            cc,
                        ) && self.face_inverse_ok(f as int, cc),
                decreases k - c,
            {
                let a: usize = self.faces[f][c].0;
                let ja: usize = self.faces[f][c].1;
                if a >= self.pt.len() {
                    assert(!self.face_entry_ok(f as int, c as int));
                    return false;
                }
                let ma: usize = self.ed.vertex_order(a);
                if ja >= ma {
                    assert(!self.face_entry_ok(f as int, c as int));
                    return false;
                }
                assert(self.face_entry_ok(f as int, c as int));
                assert(self.ed.slot_ok(a as int, ja as int));
                let b: i64 = self.ed.rows[a][ja];
                let bu: usize = b as usize;
                let rec: i64 = self.ed.rows[a][ma + ja];
                let mb: usize = self.ed.vertex_order(bu);
                let c2: usize = if c + 1 == k {
                    0
                } else {
                    c + 1
                };
                let ru: usize = rec as usize;
                let want_slot: usize = if ru == mb - 1 {
                    0
                } else {
                    ru + 1
                };
                if self.faces[f][c2].0 != bu || self.faces[f][c2].1 != want_slot {
                    assert(!self.face_step_ok(f as int, c as int));
                    return false;
                }
                assert(self.face_step_ok(f as int, c as int));
                let e: FaceEntry = self.eface[a][ja];
                if e.0 != f || e.1 != c {
                    assert(!self.face_inverse_ok(f as int, c as int));
                    return false;
                }
                assert(self.face_inverse_ok(f as int, c as int));
                c += 1;
            }
            f += 1;
        }
        true
    }

    /// Every slot of every vertex is named by the face entry its `eface`
    /// record points to.
    fn check_slot_faces(&self) -> (r: bool)
        requires
            self.ed.edges_ok(),
            self.ed.n() == self.n(),
            self.eface@.len() == self.n(),
            forall|v: int| 0 <= v < self.n() ==> self.eface@[v]@.len() == self.order(v),
        ensures
            r == forall|v: int, j: int|
                0 <= v < self.n() && 0 <= j < self.order(v) ==> self.slot_face_ok(v, j),
    {
        let n: usize = self.pt.len();
        let mut v: usize = 0;
        while v < n
            invariant
                n == self.n(),
                self.ed.edges_ok(),
                self.ed.n() == self.n(),
                self.eface@.len() == self.n(),
                forall|w: int| 0 <= w < self.n() ==> self.eface@[w]@.len() == self.order(w),
                v <= n,
                forall|w: int, j: int|
                    0 <= w < v && 0 <= j < self.order(w) ==> self.slot_face_ok(w, j),
            decreases n - v,
        {
            let m: usize = self.ed.vertex_order(v);
            let mut j: usize = 0;
            while j < m
                invariant
                    n == self.n(),
                    self.ed.edges_ok(),
                    self.ed.n() == self.n(),
                    self.eface@.len() == self.n(),
                    forall|w: int| 0 <= w < self.n() ==> self.eface@[w]@.len() == self.order(w),
                    v < n,
                    m == self.order(v as int),
                    j <= m,
                    forall|jj: int| 0 <= jj < j ==> self.slot_face_ok(v as int, jj),
                decreases m - j,
            {
                let e: FaceEntry = self.eface[v][j];
                if e.0 >= self.faces.len() || e.1 >= self.faces[e.0].len() {
                    assert(!self.slot_face_ok(v as int, j as int));
                    return false;
                }
                let back: FaceEntry = self.faces[e.0][e.1];
                if back.0 != v || back.1 != j {
                    assert(!self.slot_face_ok(v as int, j as int));
                    return false;
                }
                assert(self.slot_face_ok(v as int, j as int));
                j += 1;
            }
            v += 1;
        }
        true
    }

    /// Total vertex order, exactly.
    pub(crate) fn sum_orders(&self) -> (r: u64)
        requires
            self.ed.edges_ok(),
            self.ed.n() == self.n(),
            self.n() <= VERT_MAX as int,
        ensures
            r as int == self.ed.total_order(),
            r <= 0x1_0000_0000,
    {
        let n: usize = self.pt.len();
        let mut acc: u64 = 0;
        let mut v: usize = 0;
        while v < n
            invariant
                n == self.n(),
                n == self.ed.n(),
                n <= VERT_MAX,
                self.ed.edges_ok(),
                v <= n,
                acc as int == self.ed.sum_order_upto(v as int),
                acc as int <= v * 0x1_0000,
            decreases n - v,
        {
            let m: usize = self.ed.vertex_order(v);
            assert(self.ed.row_ok(v as int));
            acc = acc + m as u64;
            v += 1;
        }
        acc
    }

    /// Total face cycle length, exactly.
    fn sum_face_lens(&self) -> (r: u64)
        requires
            self.faces@.len() <= 4 * (VERT_MAX as int),
            forall|f: int|
                0 <= f < self.faces@.len() ==> 3 <= #[trigger] self.faces@[f]@.len()
                    <= VERT_MAX as int,
        ensures
            r as int == sum_face_len_upto(self.faces@, self.faces@.len() as int),
    {
        let nf: usize = self.faces.len();
        let mut acc: u64 = 0;
        let mut f: usize = 0;
        while f < nf
            invariant
                nf == self.faces@.len(),
                nf <= 4 * VERT_MAX,
                forall|ff: int|
                    0 <= ff < nf ==> 3 <= #[trigger] self.faces@[ff]@.len() <= VERT_MAX as int,
                f <= nf,
                acc as int == sum_face_len_upto(self.faces@, f as int),
                acc as int <= f * 0x1_0000,
            decreases nf - f,
        {
            acc = acc + self.faces[f].len() as u64;
            f += 1;
        }
        acc
    }

    /// Decide whether the whole cell satisfies the invariant [`Self::wf`]:
    /// consistent sizes, bounded positions, a sound edge table, a sound
    /// face table, and Euler's identity.
    pub fn consistent(&self) -> (r: bool)
        ensures
            r == self.wf(),
    {
        let n: usize = self.pt.len();
        if self.ed.rows.len() != n || self.eface.len() != n || self.fid.len() != self.faces.len() {
            return false;
        }
        if n > VERT_MAX || self.faces.len() > 4 * VERT_MAX || self.tol < 0 || self.tol > TOL_MAX {
            return false;
        }
        if !self.check_positions() {
            return false;
        }
        if n == 0 {
            return self.faces.len() == 0;
        }
        if !self.ed.consistent() {
            return false;
        }
        if !self.check_eface_shape() {
            return false;
        }
        if !self.check_face_cycles() {
            return false;
        }
        if !self.check_slot_faces() {
            return false;
        }
        let so: u64 = self.sum_orders();
        let sf: u64 = self.sum_face_lens();
        if sf != so {
            return false;
        }
        if so % 2 != 0 {
            return false;
        }
        if n as u64 + self.faces.len() as u64 != 2 + so / 2 {
            return false;
        }
        true
    }
}

/// A cell that differs from a well-formed one only in vertex positions
/// (same count, still in bounds) is well formed too: the invariant's
/// topological clauses never read the positions.
pub proof fn lemma_wf_same_topology(a: CellSgl, b: CellSgl)
    requires
        a.wf(),
        b.ed == a.ed,
        b.faces == a.faces,
        b.eface == a.eface,
        b.fid == a.fid,
        b.tol == a.tol,
        b.pt@.len() == a.pt@.len(),
        b.pos_ok(),
    ensures
        b.wf(),
{
    assert(b.sizes_ok());
    if b.n() != 0 {
        assert(b.ed.edges_ok());
        assert forall|v: int| 0 <= v < b.n() implies b.eface@[v]@.len() == b.order(v) by {
            assert(a.eface@[v]@.len() == a.order(v));
        }
        assert forall|f: int|
            0 <= f < b.faces@.len() implies 3 <= #[trigger] b.faces@[f]@.len()
                <= VERT_MAX as int by {
            assert(3 <= a.faces@[f]@.len() <= VERT_MAX as int);
        }
        assert forall|f: int, c: int|
            0 <= f < b.faces@.len() && 0 <= c < b.faces@[f]@.len() implies b.face_entry_ok(
            f,
            c,
        ) && b.face_step_ok(f, c) && b.face_inverse_ok(f, c) by {
            assert(a.face_entry_ok(f, c));
            assert(a.face_step_ok(f, c));
            assert(a.face_inverse_ok(f, c));
        }
        assert forall|v: int, j: int|
            0 <= v < b.n() && 0 <= j < b.order(v) implies b.slot_face_ok(v, j) by {
            assert(a.slot_face_ok(v, j));
        }
        assert(b.faces_good());
        assert(b.euler_ok());
    }
}

} // verus!
