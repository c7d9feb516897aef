//! The edge table of a cell: per-vertex adjacency rows.
//!
//! Row `v` holds `2*m + 1` integers for a vertex of order `m`: the `m`
//! neighbouring vertex ids, then the `m` reciprocal slots, then the vertex's
//! own id.  The reciprocal slot `re[v][j]` is the position of `v` in the row
//! of `ed[v][j]`, so that `ed[ed[v][j]][re[v][j]] == v` and traversal never
//! has to search.

use vstd::prelude::*;
use crate::vec3::VERT_MAX;

verus! {

/// The adjacency rows of a cell.
#[derive(Clone, Debug)]
pub struct Edges {
    pub rows: Vec<Vec<i64>>,
}

/// The next slot counterclockwise after `a` at a vertex of order `m`.
pub open spec fn spec_ccw(a: int, m: int) -> int {
    if a == m - 1 {
        0
    } else {
        a + 1
    }
}

/// The next slot clockwise before `a` at a vertex of order `m`.
pub open spec fn spec_cw(a: int, m: int) -> int {
    if a == 0 {
        m - 1
    } else {
        a - 1
    }
}

impl Edges {
    /// Number of vertices.
    pub open spec fn n(self) -> int {
        self.rows@.len() as int
    }

    /// Order (degree) of vertex `v`.
    pub open spec fn order(self, v: int) -> int {
        (self.rows@[v].len() - 1) / 2
    }

    /// Neighbour id stored in slot `j` of vertex `v`.
    pub open spec fn nbr(self, v: int, j: int) -> int {
        self.rows@[v][j] as int
    }

    /// Reciprocal slot stored in slot `j` of vertex `v`.
    pub open spec fn rec(self, v: int, j: int) -> int {
        self.rows@[v][self.order(v) + j] as int
    }

    /// Shape of one row: odd length `2m + 1` with `m >= 3`, the trailing
    /// entry the vertex's own id, and `m` bounded.
    pub open spec fn row_ok(self, v: int) -> bool {
        &&& self.rows@[v].len() == 2 * self.order(v) + 1
        &&& 3 <= self.order(v) <= VERT_MAX as int
        &&& self.rows@[v][2 * self.order(v)] == v
    }

    /// One adjacency slot is sound: the neighbour id is another vertex, the
    /// reciprocal slot is in range at the neighbour, and following it leads
    /// straight back to this slot.
    pub open spec fn slot_ok(self, v: int, j: int) -> bool {
        &&& 0 <= self.nbr(v, j) < self.n()
        &&& self.nbr(v, j) != v
        &&& 0 <= self.rec(v, j) < self.order(self.nbr(v, j))
        &&& self.nbr(self.nbr(v, j), self.rec(v, j)) == v
        &&& self.rec(self.nbr(v, j), self.rec(v, j)) == j
    }

    /// The whole table is sound: every row is well shaped, every slot obeys
    /// the reciprocal-edge invariant, and no vertex lists a neighbour twice.
    pub open spec fn edges_ok(self) -> bool {
        &&& self.n() <= VERT_MAX as int
        &&& forall|v: int| 0 <= v < self.n() ==> self.row_ok(v)
        &&& forall|v: int, j: int|
            0 <= v < self.n() && 0 <= j < self.order(v) ==> self.slot_ok(v, j)
        &&& forall|v: int, j: int, k: int|
            0 <= v < self.n() && 0 <= j < k < self.order(v) ==> self.nbr(v, j) != self.nbr(v, k)
    }

    /// An empty table.
    pub fn new_empty() -> (r: Edges)
        ensures
            r.n() == 0,
            r.edges_ok(),
    {
        Edges { rows: Vec::new() }
    }

    /// Get the number of edges connected to this vertex.
    pub fn vertex_order(&self, v: usize) -> (r: usize)
        requires
            self.edges_ok(),
            v < self.n(),
        ensures
            r == self.order(v as int),
    {
        assert(self.row_ok(v as int));
        (self.rows[v].len() - 1) / 2
    }

    /// Shorthand for [`Self::vertex_order`].
    pub fn len(&self, v: usize) -> (r: usize)
        requires
            self.edges_ok(),
            v < self.n(),
        ensures
            r == self.order(v as int),
    {
        self.vertex_order(v)
    }

    /// Pick out the index of the next edge counterclockwise at vertex `v`.
    pub fn ccw(&self, a: i64, v: i64) -> (r: i64)
        requires
            self.edges_ok(),
            0 <= v < self.n(),
            0 <= a < self.order(v as int),
        ensures
            r == spec_ccw(a as int, self.order(v as int)),
    {
        let m: usize = self.vertex_order(v as usize);
        if a == m as i64 - 1 {
            0
        } else {
            a + 1
        }
    }

    /// Pick out the index of the next edge clockwise at vertex `v`.
    pub fn cw(&self, a: i64, v: i64) -> (r: i64)
        requires
            self.edges_ok(),
            0 <= v < self.n(),
            0 <= a < self.order(v as int),
        ensures
            r == spec_cw(a as int, self.order(v as int)),
    {
        let m: usize = self.vertex_order(v as usize);
        if a == 0 {
            m as i64 - 1
        } else {
            a - 1
        }
    }

    /// Decide whether the whole table is sound, in the sense of
    /// [`Self::edges_ok`]: well-shaped rows, the reciprocal-edge invariant
    /// `ed[ed[v][j]][re[v][j]] == v` at every slot, and no duplicated
    /// neighbour.
    pub fn consistent(&self) -> (r: bool)
        ensures
            r == self.edges_ok(),
    {
        let n: usize = self.rows.len();
        if n > VERT_MAX {
            return false;
        }
        // Row shapes first, so that later indexing is in bounds.
        let mut v: usize = 0;
        while v < n
            invariant
                n == self.n(),
                n <= VERT_MAX,
                v <= n,
                forall|w: int| 0 <= w < v ==> self.row_ok(w),
            decreases n - v,
        {
            let len: usize = self.rows[v].len();
            if len < 7 || len % 2 == 0 {
                assert(!self.row_ok(v as int));
                return false;
            }
            let m: usize = (len - 1) / 2;
            if m > VERT_MAX || self.rows[v][2 * m] != v as i64 {
                assert(!self.row_ok(v as int));
                return false;
            }
            assert(self.row_ok(v as int));
            v += 1;
        }
        // Every slot: neighbour in range, reciprocal slot leading back, and
        // no neighbour listed twice.
        let mut v: usize = 0;
        while v < n
            invariant
                n == self.n(),
                n <= VERT_MAX,
                v <= n,
                forall|w: int| 0 <= w < n ==> self.row_ok(w),
                forall|w: int, j: int| 0 <= w < v && 0 <= j < self.order(w) ==> self.slot_ok(w, j),
                forall|w: int, j: int, k: int|
                    0 <= w < v && 0 <= j < k < self.order(w) ==> self.nbr(w, j) != self.nbr(w, k),
            decreases n - v,
        {
            assert(self.row_ok(v as int));
            let m: usize = (self.rows[v].len() - 1) / 2;
            let mut j: usize = 0;
            while j < m
                invariant
                    n == self.n(),
                    n <= VERT_MAX,
                    v < n,
                    forall|w: int| 0 <= w < n ==> self.row_ok(w),
                    m == self.order(v as int),
                    j <= m,
                    forall|jj: int| 0 <= jj < j ==> self.slot_ok(v as int, jj),
                    forall|jj: int, kk: int|
                        0 <= jj < kk < j ==> self.nbr(v as int, jj) != self.nbr(v as int, kk),
                decreases m - j,
            {
                let t: i64 = self.rows[v][j];
                if t < 0 || t >= n as i64 || t == v as i64 {
                    assert(!self.slot_ok(v as int, j as int));
                    return false;
                }
                let tu: usize = t as usize;
                assert(self.row_ok(tu as int));
                let mt: usize = (self.rows[tu].len() - 1) / 2;
                let rs: i64 = self.rows[v][m + j];
                if rs < 0 || rs >= mt as i64 {
                    assert(!self.slot_ok(v as int, j as int));
                    return false;
                }
                let ru: usize = rs as usize;
                if self.rows[tu][ru] != v as i64 || self.rows[tu][mt + ru] != j as i64 {
                    assert(!self.slot_ok(v as int, j as int));
                    return false;
                }
                assert(self.slot_ok(v as int, j as int));
                let mut k: usize = 0;
                while k < j
                    invariant
                        n == self.n(),
                        n <= VERT_MAX,
                        v < n,
                        forall|w: int| 0 <= w < n ==> self.row_ok(w),
                        m == self.order(v as int),
                        j < m,
                        k <= j,
                        t as int == self.nbr(v as int, j as int),
                        forall|kk: int| 0 <= kk < k ==> self.nbr(v as int, kk) != self.nbr(
                            v as int,
                            j as int,
                        ),
                    decreases j - k,
                {
                    if self.rows[v][k] == t {
                        assert(self.nbr(v as int, k as int) == self.nbr(v as int, j as int));
                        return false;
                    }
                    k += 1;
                }
                j += 1;
            }
            v += 1;
        }
        true
    }

    /// Restore every neighbour entry that a traversal left sign-marked:
    /// a negative entry `e` stands for the unmarked value `-1 - e`.
    pub fn reset(&mut self)
        requires
            forall|v: int| 0 <= v < old(self).n() ==> old(self).row_ok(v),
        ensures
            final(self).n() == old(self).n(),
            forall|v: int|
                0 <= v < final(self).n() ==> final(self).rows@[v].len() == old(self).rows@[v].len(),
            forall|v: int, j: int|
                0 <= v < final(self).n() && 0 <= j < final(self).rows@[v].len()
                    ==> final(self).rows@[v][j] as int == (
                if j < old(self).order(v) && old(self).rows@[v][j] < 0 {
                    -1 - old(self).rows@[v][j] as int
                } else {
                    old(self).rows@[v][j] as int
                }),
    {
        let n: usize = self.rows.len();
        let mut v: usize = 0;
        while v < n
            invariant
                n == self.n(),
                n == old(self).n(),
                v <= n,
                forall|w: int| 0 <= w < n ==> old(self).row_ok(w),
                forall|w: int| v <= w < n ==> self.rows@[w] == old(self).rows@[w],
                forall|w: int| 0 <= w < n ==> self.rows@[w].len() == old(self).rows@[w].len(),
                forall|w: int, j: int|
                    0 <= w < v && 0 <= j < self.rows@[w].len() ==> self.rows@[w][j] as int == (
                    if j < old(self).order(w) && old(self).rows@[w][j] < 0 {
                        -1 - old(self).rows@[w][j] as int
                    } else {
                        old(self).rows@[w][j] as int
                    }),
            decreases n - v,
        {
            assert(old(self).row_ok(v as int));
            let row_len: usize = self.rows[v].len();
            let m: usize = (row_len - 1) / 2;
            let mut fixed: Vec<i64> = Vec::new();
            let mut j: usize = 0;
            while j < row_len
                invariant
                    v < n,
                    n == self.n(),
                    row_len == self.rows@[v as int].len(),
                    self.rows@[v as int] == old(self).rows@[v as int],
                    old(self).row_ok(v as int),
                    m == old(self).order(v as int),
                    j <= row_len,
                    fixed@.len() == j,
                    forall|k: int|
                        0 <= k < j ==> fixed@[k] as int == (
                        if k < m && self.rows@[v as int][k] < 0 {
                            -1 - self.rows@[v as int][k] as int
                        } else {
                            self.rows@[v as int][k] as int
                        }),
                decreases row_len - j,
            {
                let e: i64 = self.rows[v][j];
                if j < m && e < 0 {
                    fixed.push(-1 - e);
                } else {
                    fixed.push(e);
                }
                j += 1;
            }
            self.rows.set(v, fixed);
            v += 1;
        }
    }
}

} // verus!
