//! Seed shapes: the convex polyhedra a cell starts from.

use vstd::prelude::*;
use crate::vec3::{Vec3, COORD_MAX, TOL_MAX};
use crate::cell::{CellSgl, FaceEntry, sum_face_len_upto};
use crate::edges::Edges;

verus! {

/// Build a seven-entry adjacency row (a vertex of order three).
fn row7(a: i64, b: i64, c: i64, d: i64, e: i64, f: i64, g: i64) -> (r: Vec<i64>)
    ensures
        r@ =~= seq![a, b, c, d, e, f, g],
{
    let mut r: Vec<i64> = Vec::new();
    r.push(a);
    r.push(b);
    r.push(c);
    r.push(d);
    r.push(e);
    r.push(f);
    r.push(g);
    r
}

/// Build a nine-entry adjacency row (a vertex of order four).
fn row9(a: i64, b: i64, c: i64, d: i64, e: i64, f: i64, g: i64, h: i64, i: i64) -> (r: Vec<i64>)
    ensures
        r@ =~= seq![a, b, c, d, e, f, g, h, i],
{
    let mut r: Vec<i64> = Vec::new();
    r.push(a);
    r.push(b);
    r.push(c);
    r.push(d);
    r.push(e);
    r.push(f);
    r.push(g);
    r.push(h);
    r.push(i);
    r
}

/// Build a three-entry face or slot row.
fn trip(a: FaceEntry, b: FaceEntry, c: FaceEntry) -> (r: Vec<FaceEntry>)
    ensures
        r@ =~= seq![a, b, c],
{
    let mut r: Vec<FaceEntry> = Vec::new();
    r.push(a);
    r.push(b);
    r.push(c);
    r
}

/// Build a four-entry face or slot row.
fn quad(a: FaceEntry, b: FaceEntry, c: FaceEntry, d: FaceEntry) -> (r: Vec<FaceEntry>)
    ensures
        r@ =~= seq![a, b, c, d],
{
    let mut r: Vec<FaceEntry> = Vec::new();
    r.push(a);
    r.push(b);
    r.push(c);
    r.push(d);
    r
}

impl CellSgl {
    /// Create an empty cell: no vertices, no faces.
    ///
    /// `tol` is the classification tolerance the cutting engine will use,
    /// in plane-value units (the dot product of a stored position with a
    /// plane normal); choose at least half the largest cutting normal's
    /// one-norm, so that rounded cut vertices classify as on-plane.
    pub fn new_empty(tol: i64) -> (r: CellSgl)
        requires
            0 <= tol <= TOL_MAX,
        ensures
            r.wf(),
            r.spec_is_empty(),
            r.tol == tol,
    {
        CellSgl {
            pt: Vec::new(),
            ed: Edges { rows: Vec::new() },
            faces: Vec::new(),
            eface: Vec::new(),
            fid: Vec::new(),
            tol,
        }
    }

    /// Initialize a cell as the rectangular box spanning `min` to `max`,
    /// with six quadrilateral faces carrying the conventional wall ids
    /// `-1..-6`.  Coordinates are doubled for storage.
    pub fn new_cuboid(min: Vec3, max: Vec3, tol: i64) -> (r: CellSgl)
        requires
            min.spec_bounded(COORD_MAX as int),
            max.spec_bounded(COORD_MAX as int),
            0 <= tol <= TOL_MAX,
        ensures
            r.wf(),
            !r.spec_is_empty(),
            r.tol == tol,
            r.n() == 8,
            r.faces@.len() == 6,
            forall|v: int| 0 <= v < 8 ==> #[trigger] r.order(v) == 3,
            r.fid@ =~= seq![-5i32, -3i32, -1i32, -2i32, -4i32, -6i32],
            r.ed.rows@.len() == 8,
            r.ed.rows@[0]@ =~= seq![1i64, 4, 2, 2, 1, 0, 0],
            r.ed.rows@[1]@ =~= seq![3i64, 5, 0, 2, 1, 0, 1],
            r.ed.rows@[2]@ =~= seq![0i64, 6, 3, 2, 1, 0, 2],
            r.ed.rows@[3]@ =~= seq![2i64, 7, 1, 2, 1, 0, 3],
            r.ed.rows@[4]@ =~= seq![6i64, 0, 5, 2, 1, 0, 4],
            r.ed.rows@[5]@ =~= seq![4i64, 1, 7, 2, 1, 0, 5],
            r.ed.rows@[6]@ =~= seq![7i64, 2, 4, 2, 1, 0, 6],
            r.ed.rows@[7]@ =~= seq![5i64, 3, 6, 2, 1, 0, 7],
            r.faces@[0]@ =~= seq![(0usize, 0usize), (1, 0), (3, 0), (2, 0)],
            r.faces@[1]@ =~= seq![(0usize, 1usize), (4, 2), (5, 1), (1, 2)],
            r.faces@[2]@ =~= seq![(0usize, 2usize), (2, 1), (6, 2), (4, 1)],
            r.faces@[3]@ =~= seq![(1usize, 1usize), (5, 2), (7, 1), (3, 2)],
            r.faces@[4]@ =~= seq![(2usize, 2usize), (3, 1), (7, 2), (6, 1)],
            r.faces@[5]@ =~= seq![(4usize, 0usize), (6, 0), (7, 0), (5, 0)],
            r.pt@ =~= seq![
                Vec3 { x: (2 * min.x) as i64, y: (2 * min.y) as i64, z: (2 * min.z) as i64 },
                Vec3 { x: (2 * max.x) as i64, y: (2 * min.y) as i64, z: (2 * min.z) as i64 },
                Vec3 { x: (2 * min.x) as i64, y: (2 * max.y) as i64, z: (2 * min.z) as i64 },
                Vec3 { x: (2 * max.x) as i64, y: (2 * max.y) as i64, z: (2 * min.z) as i64 },
                Vec3 { x: (2 * min.x) as i64, y: (2 * min.y) as i64, z: (2 * max.z) as i64 },
                Vec3 { x: (2 * max.x) as i64, y: (2 * min.y) as i64, z: (2 * max.z) as i64 },
                Vec3 { x: (2 * min.x) as i64, y: (2 * max.y) as i64, z: (2 * max.z) as i64 },
                Vec3 { x: (2 * max.x) as i64, y: (2 * max.y) as i64, z: (2 * max.z) as i64 },
            ],
    {
        let mut pt: Vec<Vec3> = Vec::new();
        pt.push(Vec3::new(2 * min.x, 2 * min.y, 2 * min.z));
        pt.push(Vec3::new(2 * max.x, 2 * min.y, 2 * min.z));
        pt.push(Vec3::new(2 * min.x, 2 * max.y, 2 * min.z));
        pt.push(Vec3::new(2 * max.x, 2 * max.y, 2 * min.z));
        pt.push(Vec3::new(2 * min.x, 2 * min.y, 2 * max.z));
        pt.push(Vec3::new(2 * max.x, 2 * min.y, 2 * max.z));
        pt.push(Vec3::new(2 * min.x, 2 * max.y, 2 * max.z));
        pt.push(Vec3::new(2 * max.x, 2 * max.y, 2 * max.z));

        let mut rows: Vec<Vec<i64>> = Vec::new();
        rows.push(row7(1, 4, 2, 2, 1, 0, 0));
        rows.push(row7(3, 5, 0, 2, 1, 0, 1));
        rows.push(row7(0, 6, 3, 2, 1, 0, 2));
        rows.push(row7(2, 7, 1, 2, 1, 0, 3));
        rows.push(row7(6, 0, 5, 2, 1, 0, 4));
        rows.push(row7(4, 1, 7, 2, 1, 0, 5));
        rows.push(row7(7, 2, 4, 2, 1, 0, 6));
        rows.push(row7(5, 3, 6, 2, 1, 0, 7));

        let mut faces: Vec<Vec<FaceEntry>> = Vec::new();
        faces.push(quad((0, 0), (1, 0), (3, 0), (2, 0)));
        faces.push(quad((0, 1), (4, 2), (5, 1), (1, 2)));
        faces.push(quad((0, 2), (2, 1), (6, 2), (4, 1)));
        faces.push(quad((1, 1), (5, 2), (7, 1), (3, 2)));
        faces.push(quad((2, 2), (3, 1), (7, 2), (6, 1)));
        faces.push(quad((4, 0), (6, 0), (7, 0), (5, 0)));

        let mut eface: Vec<Vec<FaceEntry>> = Vec::new();
        eface.push(trip((0, 0), (1, 0), (2, 0)));
        eface.push(trip((0, 1), (3, 0), (1, 3)));
        eface.push(trip((0, 3), (2, 1), (4, 0)));
        eface.push(trip((0, 2), (4, 1), (3, 3)));
        eface.push(trip((5, 0), (2, 3), (1, 1)));
        eface.push(trip((5, 3), (1, 2), (3, 1)));
        eface.push(trip((5, 1), (4, 3), (2, 2)));
        eface.push(trip((5, 2), (3, 2), (4, 2)));

        let mut fid: Vec<i32> = Vec::new();
        fid.push(-5);
        fid.push(-3);
        fid.push(-1);
        fid.push(-2);
        fid.push(-4);
        fid.push(-6);

        let cell = CellSgl { pt, ed: Edges { rows }, faces, eface, fid, tol };
        proof {
            assert(cell.sizes_ok());
            assert(cell.pos_ok());
            assert(cell.ed.edges_ok());
            assert(cell.ed.total_order() == 24) by {
                assert(cell.ed.sum_order_upto(0) == 0);
                assert(cell.ed.sum_order_upto(1) == 3);
                assert(cell.ed.sum_order_upto(2) == 6);
                assert(cell.ed.sum_order_upto(3) == 9);
                assert(cell.ed.sum_order_upto(4) == 12);
                assert(cell.ed.sum_order_upto(5) == 15);
                assert(cell.ed.sum_order_upto(6) == 18);
                assert(cell.ed.sum_order_upto(7) == 21);
                assert(cell.ed.sum_order_upto(8) == 24);
            }
            assert(sum_face_len_upto(cell.faces@, 6) == 24) by {
                assert(sum_face_len_upto(cell.faces@, 0) == 0);
                assert(sum_face_len_upto(cell.faces@, 1) == 4);
                assert(sum_face_len_upto(cell.faces@, 2) == 8);
                assert(sum_face_len_upto(cell.faces@, 3) == 12);
                assert(sum_face_len_upto(cell.faces@, 4) == 16);
                assert(sum_face_len_upto(cell.faces@, 5) == 20);
                assert(sum_face_len_upto(cell.faces@, 6) == 24);
            }
            assert(cell.faces_good());
            assert(cell.euler_ok());
        }
        cell
    }

    /// Initialize a cell as the octahedron with vertices at distance `l`
    /// along each axis, with eight triangular faces.  Coordinates are
    /// doubled for storage.
    pub fn new_octahedron(l: i64, tol: i64) -> (r: CellSgl)
        requires
            -COORD_MAX <= l <= COORD_MAX,
            0 <= tol <= TOL_MAX,
        ensures
            r.wf(),
            !r.spec_is_empty(),
            r.tol == tol,
            r.n() == 6,
            r.faces@.len() == 8,
            forall|v: int| 0 <= v < 6 ==> #[trigger] r.order(v) == 4,
            r.fid@ =~= seq![-1i32, -2i32, -3i32, -4i32, -5i32, -6i32, -7i32, -8i32],
            r.ed.rows@.len() == 6,
            r.ed.rows@[0]@ =~= seq![2i64, 5, 3, 4, 0, 0, 0, 0, 0],
            r.ed.rows@[1]@ =~= seq![2i64, 4, 3, 5, 2, 2, 2, 2, 1],
            r.ed.rows@[2]@ =~= seq![0i64, 4, 1, 5, 0, 3, 0, 1, 2],
            r.ed.rows@[3]@ =~= seq![0i64, 5, 1, 4, 2, 3, 2, 1, 3],
            r.ed.rows@[4]@ =~= seq![0i64, 3, 1, 2, 3, 3, 1, 1, 4],
            r.ed.rows@[5]@ =~= seq![0i64, 2, 1, 3, 1, 3, 3, 1, 5],
            r.faces@[0]@ =~= seq![(0usize, 0usize), (2, 1), (4, 0)],
            r.faces@[1]@ =~= seq![(0usize, 1usize), (5, 1), (2, 0)],
            r.faces@[2]@ =~= seq![(0usize, 2usize), (3, 1), (5, 0)],
            r.faces@[3]@ =~= seq![(0usize, 3usize), (4, 1), (3, 0)],
            r.faces@[4]@ =~= seq![(1usize, 0usize), (2, 3), (5, 2)],
            r.faces@[5]@ =~= seq![(1usize, 1usize), (4, 3), (2, 2)],
            r.faces@[6]@ =~= seq![(1usize, 2usize), (3, 3), (4, 2)],
            r.faces@[7]@ =~= seq![(1usize, 3usize), (5, 3), (3, 2)],
            r.pt@ =~= seq![
                Vec3 { x: (-2 * l) as i64, y: 0, z: 0 },
                Vec3 { x: (2 * l) as i64, y: 0, z: 0 },
                Vec3 { x: 0, y: (-2 * l) as i64, z: 0 },
                Vec3 { x: 0, y: (2 * l) as i64, z: 0 },
                Vec3 { x: 0, y: 0, z: (-2 * l) as i64 },
                Vec3 { x: 0, y: 0, z: (2 * l) as i64 },
            ],
    {
        let mut pt: Vec<Vec3> = Vec::new();
        pt.push(Vec3::new(-2 * l, 0, 0));
        pt.push(Vec3::new(2 * l, 0, 0));
        pt.push(Vec3::new(0, -2 * l, 0));
        pt.push(Vec3::new(0, 2 * l, 0));
        pt.push(Vec3::new(0, 0, -2 * l));
        pt.push(Vec3::new(0, 0, 2 * l));

        let mut rows: Vec<Vec<i64>> = Vec::new();
        rows.push(row9(2, 5, 3, 4, 0, 0, 0, 0, 0));
        rows.push(row9(2, 4, 3, 5, 2, 2, 2, 2, 1));
        rows.push(row9(0, 4, 1, 5, 0, 3, 0, 1, 2));
        rows.push(row9(0, 5, 1, 4, 2, 3, 2, 1, 3));
        rows.push(row9(0, 3, 1, 2, 3, 3, 1, 1, 4));
        rows.push(row9(0, 2, 1, 3, 1, 3, 3, 1, 5));

        let mut faces: Vec<Vec<FaceEntry>> = Vec::new();
        faces.push(trip((0, 0), (2, 1), (4, 0)));
        faces.push(trip((0, 1), (5, 1), (2, 0)));
        faces.push(trip((0, 2), (3, 1), (5, 0)));
        faces.push(trip((0, 3), (4, 1), (3, 0)));
        faces.push(trip((1, 0), (2, 3), (5, 2)));
        faces.push(trip((1, 1), (4, 3), (2, 2)));
        faces.push(trip((1, 2), (3, 3), (4, 2)));
        faces.push(trip((1, 3), (5, 3), (3, 2)));

        let mut eface: Vec<Vec<FaceEntry>> = Vec::new();
        eface.push(quad((0, 0), (1, 0), (2, 0), (3, 0)));
        eface.push(quad((4, 0), (5, 0), (6, 0), (7, 0)));
        eface.push(quad((1, 2), (0, 1), (5, 2), (4, 1)));
        eface.push(quad((3, 2), (2, 1), (7, 2), (6, 1)));
        eface.push(quad((0, 2), (3, 1), (6, 2), (5, 1)));
        eface.push(quad((2, 2), (1, 1), (4, 2), (7, 1)));

        let mut fid: Vec<i32> = Vec::new();
        fid.push(-1);
        fid.push(-2);
        fid.push(-3);
        fid.push(-4);
        fid.push(-5);
        fid.push(-6);
        fid.push(-7);
        fid.push(-8);

        let cell = CellSgl { pt, ed: Edges { rows }, faces, eface, fid, tol };
        proof {
            assert(cell.sizes_ok());
            assert(cell.pos_ok());
            assert(cell.ed.edges_ok());
            assert(cell.ed.total_order() == 24) by {
                assert(cell.ed.sum_order_upto(0) == 0);
                assert(cell.ed.sum_order_upto(1) == 4);
                assert(cell.ed.sum_order_upto(2) == 8);
                assert(cell.ed.sum_order_upto(3) == 12);
                assert(cell.ed.sum_order_upto(4) == 16);
                assert(cell.ed.sum_order_upto(5) == 20);
                assert(cell.ed.sum_order_upto(6) == 24);
            }
            assert(sum_face_len_upto(cell.faces@, 8) == 24) by {
                assert(sum_face_len_upto(cell.faces@, 0) == 0);
                assert(sum_face_len_upto(cell.faces@, 1) == 3);
                assert(sum_face_len_upto(cell.faces@, 2) == 6);
                assert(sum_face_len_upto(cell.faces@, 3) == 9);
                assert(sum_face_len_upto(cell.faces@, 4) == 12);
                assert(sum_face_len_upto(cell.faces@, 5) == 15);
                assert(sum_face_len_upto(cell.faces@, 6) == 18);
                assert(sum_face_len_upto(cell.faces@, 7) == 21);
                assert(sum_face_len_upto(cell.faces@, 8) == 24);
            }
            assert(cell.faces_good());
            assert(cell.euler_ok());
        }
        cell
    }

    /// Initialize a cell as the tetrahedron with the four given corners,
    /// which must be in generic position.  Coordinates are doubled for
    /// storage; the corner order fixes the same vertex numbering the other
    /// seed shapes use.
    pub fn new_tetrahedron(a: Vec3, b: Vec3, c: Vec3, d: Vec3, tol: i64) -> (r: CellSgl)
        requires
            a.spec_bounded(COORD_MAX as int),
            b.spec_bounded(COORD_MAX as int),
            c.spec_bounded(COORD_MAX as int),
            d.spec_bounded(COORD_MAX as int),
            0 <= tol <= TOL_MAX,
        ensures
            r.wf(),
            !r.spec_is_empty(),
            r.tol == tol,
            r.n() == 4,
            r.faces@.len() == 4,
            forall|v: int| 0 <= v < 4 ==> #[trigger] r.order(v) == 3,
            r.fid@ =~= seq![-1i32, -2i32, -3i32, -4i32],
            r.ed.rows@.len() == 4,
            r.ed.rows@[0]@ =~= seq![1i64, 3, 2, 0, 0, 0, 0],
            r.ed.rows@[1]@ =~= seq![0i64, 2, 3, 0, 2, 1, 1],
            r.ed.rows@[2]@ =~= seq![0i64, 3, 1, 2, 2, 1, 2],
            r.ed.rows@[3]@ =~= seq![0i64, 1, 2, 1, 2, 1, 3],
            r.faces@[0]@ =~= seq![(0usize, 0usize), (1, 1), (2, 0)],
            r.faces@[1]@ =~= seq![(0usize, 1usize), (3, 1), (1, 0)],
            r.faces@[2]@ =~= seq![(0usize, 2usize), (2, 1), (3, 0)],
            r.faces@[3]@ =~= seq![(1usize, 2usize), (3, 2), (2, 2)],
            r.pt@ =~= seq![
                Vec3 { x: (2 * a.x) as i64, y: (2 * a.y) as i64, z: (2 * a.z) as i64 },
                Vec3 { x: (2 * b.x) as i64, y: (2 * b.y) as i64, z: (2 * b.z) as i64 },
                Vec3 { x: (2 * c.x) as i64, y: (2 * c.y) as i64, z: (2 * c.z) as i64 },
                Vec3 { x: (2 * d.x) as i64, y: (2 * d.y) as i64, z: (2 * d.z) as i64 },
            ],
    {
        let mut pt: Vec<Vec3> = Vec::new();
        pt.push(Vec3::new(2 * a.x, 2 * a.y, 2 * a.z));
        pt.push(Vec3::new(2 * b.x, 2 * b.y, 2 * b.z));
        pt.push(Vec3::new(2 * c.x, 2 * c.y, 2 * c.z));
        pt.push(Vec3::new(2 * d.x, 2 * d.y, 2 * d.z));

        let mut rows: Vec<Vec<i64>> = Vec::new();
        rows.push(row7(1, 3, 2, 0, 0, 0, 0));
        rows.push(row7(0, 2, 3, 0, 2, 1, 1));
        rows.push(row7(0, 3, 1, 2, 2, 1, 2));
        rows.push(row7(0, 1, 2, 1, 2, 1, 3));

        let mut faces: Vec<Vec<FaceEntry>> = Vec::new();
        faces.push(trip((0, 0), (1, 1), (2, 0)));
        faces.push(trip((0, 1), (3, 1), (1, 0)));
        faces.push(trip((0, 2), (2, 1), (3, 0)));
        faces.push(trip((1, 2), (3, 2), (2, 2)));

        let mut eface: Vec<Vec<FaceEntry>> = Vec::new();
        eface.push(trip((0, 0), (1, 0), (2, 0)));
        eface.push(trip((1, 2), (0, 1), (3, 0)));
        eface.push(trip((0, 2), (2, 1), (3, 2)));
        eface.push(trip((2, 2), (1, 1), (3, 1)));

        let mut fid: Vec<i32> = Vec::new();
        fid.push(-1);
        fid.push(-2);
        fid.push(-3);
        fid.push(-4);

        let cell = CellSgl { pt, ed: Edges { rows }, faces, eface, fid, tol };
        proof {
            assert(cell.sizes_ok());
            assert(cell.pos_ok());
            assert(cell.ed.edges_ok());
            assert(cell.ed.total_order() == 12) by {
                assert(cell.ed.sum_order_upto(0) == 0);
                assert(cell.ed.sum_order_upto(1) == 3);
                assert(cell.ed.sum_order_upto(2) == 6);
                assert(cell.ed.sum_order_upto(3) == 9);
                assert(cell.ed.sum_order_upto(4) == 12);
            }
            assert(sum_face_len_upto(cell.faces@, 4) == 12) by {
                assert(sum_face_len_upto(cell.faces@, 0) == 0);
                assert(sum_face_len_upto(cell.faces@, 1) == 3);
                assert(sum_face_len_upto(cell.faces@, 2) == 6);
                assert(sum_face_len_upto(cell.faces@, 3) == 9);
                assert(sum_face_len_upto(cell.faces@, 4) == 12);
            }
            assert(cell.faces_good());
            assert(cell.euler_ok());
        }
        cell
    }
}


} // verus!
