//! Scenario tests for the kernel's stated properties: the Euler identity,
//! volume monotonicity, translation round trips, cube bisection, unit-cube
//! reconstruction, edge-table consistency and coplanar-cut stability.

use voro_cell::cell::CellSgl;
use voro_cell::cut::CutOutcome;
use voro_cell::Vec3;

/// `V - E + F` computed through the public measurement calls.
fn euler_characteristic(cell: &CellSgl) -> i64 {
    let v = cell.vertex_orders().len() as i64;
    let e = cell.number_of_edges() as i64;
    let f = cell.number_of_faces() as i64;
    v - e + f
}

fn edge_tables_consistent(cell: &CellSgl) {
    for v in 0..cell.pt.len() {
        let m = cell.ed.vertex_order(v);
        for j in 0..m {
            let t = cell.ed.rows[v][j] as usize;
            let r = cell.ed.rows[v][m + j] as usize;
            let mt = cell.ed.vertex_order(t);
            assert_eq!(cell.ed.rows[t][r], v as i64);
            assert_eq!(cell.ed.rows[t][mt + r], j as i64);
        }
    }
}

#[test]
fn euler_invariant_through_cuts() {
    let mut cell = CellSgl::new_cuboid(Vec3::new(-100, -100, -100), Vec3::new(100, 100, 100), 0);
    assert_eq!(euler_characteristic(&cell), 2);

    // A corner cut, an edge cut and a face cut in sequence.
    assert!(cell.nplane(Vec3::new(120, 120, 120), 30000, 1));
    assert!(cell.consistent());
    assert_eq!(euler_characteristic(&cell), 2);

    assert!(cell.nplane(Vec3::new(150, 150, 0), 30000, 2));
    assert!(cell.consistent());
    assert_eq!(euler_characteristic(&cell), 2);

    assert!(cell.nplane(Vec3::new(180, 0, 0), 32400, 3));
    assert!(cell.consistent());
    assert_eq!(euler_characteristic(&cell), 2);
}

#[test]
fn monotonic_volume() {
    let mut cell = CellSgl::new_octahedron(200, 0);
    let mut last = cell.volume();
    let planes = [
        (Vec3::new(100, 80, 60), 20000),
        (Vec3::new(-90, 110, 10), 20281),
        (Vec3::new(0, -120, 90), 22500),
        (Vec3::new(50, 50, -130), 21800),
    ];
    for (n, rsq) in planes {
        assert!(cell.nplane(n, rsq, 0));
        assert!(cell.consistent());
        let vol = cell.volume();
        assert!(vol <= last, "volume grew after a cut");
        last = vol;
    }

    // A plane that misses the cell entirely: `nplane` reports the cell
    // still exists and the volume is unchanged.
    let before = cell.volume();
    assert!(cell.nplane(Vec3::new(100, 0, 0), 200000, 9));
    assert_eq!(cell.volume(), before);
}

#[test]
fn translate_round_trip() {
    let mut cell = CellSgl::new_tetrahedron(
        Vec3::new(465, 451, 145),
        Vec3::new(175, 214, 166),
        Vec3::new(310, 338, 270),
        Vec3::new(195, 264, 221),
        0,
    );
    let original = cell.pt.clone();
    let d = Vec3::new(137, -245, 88);
    cell.translate(d);
    cell.translate(Vec3::new(-d.x, -d.y, -d.z));
    assert_eq!(cell.pt, original);
}

#[test]
fn cube_bisection() {
    // A cube spanning [-1,1]^3 has volume 8 (the kernel reports 48 times
    // the volume).  The plane x = 0 (normal toward a neighbour at
    // (2,0,0), with the offset that puts the plane through the particle)
    // halves it to volume 4.
    let mut cell = CellSgl::new_cuboid(Vec3::new(-1, -1, -1), Vec3::new(1, 1, 1), 0);
    assert_eq!(cell.volume(), 48 * 8);
    assert!(cell.nplane(Vec3::new(2, 0, 0), 0, 5));
    assert!(cell.consistent());
    assert_eq!(cell.volume(), 48 * 4);
    assert_eq!(euler_characteristic(&cell), 2);

    // With `rsq` the squared distance of that neighbour, the bisector
    // plane x = 1 only grazes the cube and removes nothing.
    let mut grazed = CellSgl::new_cuboid(Vec3::new(-1, -1, -1), Vec3::new(1, 1, 1), 0);
    assert!(grazed.nplane(Vec3::new(2, 0, 0), 4, 5));
    assert_eq!(grazed.volume(), 48 * 8);
}

#[test]
fn unit_cube_reconstruction() {
    // From a large seed box, six axis-aligned neighbour cuts at distance 1
    // carve the unit cube centred on the particle.
    let mut cell = CellSgl::new_cuboid(Vec3::new(-2000, -2000, -2000), Vec3::new(2000, 2000, 2000), 0);
    let neighbours = [
        Vec3::new(1, 0, 0),
        Vec3::new(-1, 0, 0),
        Vec3::new(0, 1, 0),
        Vec3::new(0, -1, 0),
        Vec3::new(0, 0, 1),
        Vec3::new(0, 0, -1),
    ];
    for (i, n) in neighbours.iter().enumerate() {
        assert!(cell.nplane(*n, 1, i as i32));
        assert!(cell.consistent());
    }
    assert_eq!(cell.volume(), 48);
    assert_eq!(cell.number_of_faces(), 6);
    assert_eq!(cell.number_of_edges(), 12);
    assert_eq!(cell.vertex_orders().len(), 8);
    assert_eq!(euler_characteristic(&cell), 2);
    // The six cut faces carry the ids the cuts were tagged with.
    let mut ids = cell.neighbors();
    ids.sort();
    assert_eq!(ids, vec![0, 1, 2, 3, 4, 5]);
}

#[test]
fn edge_table_consistency() {
    let mut cell = CellSgl::new_cuboid(Vec3::new(-100, -100, -100), Vec3::new(100, 100, 100), 0);
    edge_tables_consistent(&cell);
    assert!(cell.nplane(Vec3::new(120, 120, 120), 30000, 1));
    edge_tables_consistent(&cell);
    assert!(cell.nplane(Vec3::new(-90, 110, 10), 20281, 2));
    edge_tables_consistent(&cell);
    let mut oct = CellSgl::new_octahedron(300, 0);
    edge_tables_consistent(&oct);
    assert!(oct.nplane(Vec3::new(100, 100, 0), 15000, 3));
    edge_tables_consistent(&oct);
}

#[test]
fn coplanar_plane_order_independence() {
    // Two exactly coplanar cutting planes, given by different parameter
    // scalings, applied in either order: the results agree.
    let seed = CellSgl::new_cuboid(Vec3::new(-100, -100, -100), Vec3::new(100, 100, 100), 0);
    let p1 = (Vec3::new(100, 0, 0), 10000i64);
    let p2 = (Vec3::new(200, 0, 0), 20000i64);

    let mut ab = seed.clone();
    assert!(ab.nplane(p1.0, p1.1, 1));
    assert!(ab.nplane(p2.0, p2.1, 2));

    let mut ba = seed.clone();
    assert!(ba.nplane(p2.0, p2.1, 2));
    assert!(ba.nplane(p1.0, p1.1, 1));

    assert_eq!(ab.volume(), ba.volume());
    assert_eq!(ab.pt, ba.pt);
    assert!(ab.consistent());
    assert!(ba.consistent());
}

#[test]
fn full_consumption_empties_the_cell() {
    let mut cell = CellSgl::new_cuboid(Vec3::new(-10, -10, -10), Vec3::new(10, 10, 10), 0);
    // Every vertex lies beyond this plane, so the whole cell goes.
    assert!(!cell.nplane(Vec3::new(100, 0, 0), -10000, 1));
    assert!(cell.consistent());
    assert_eq!(cell.volume(), 0);
    assert_eq!(cell.number_of_faces(), 0);
    // Further cuts keep reporting an empty cell.
    assert!(!cell.nplane(Vec3::new(100, 0, 0), 10000, 2));
}

#[test]
fn centroid_of_shifted_box() {
    // A box spanning [0,2] x [-1,1] x [-1,1] has centroid (1, 0, 0);
    // stored coordinates are doubled, so the exact quotient is 2.
    let cell = CellSgl::new_cuboid(Vec3::new(0, -1, -1), Vec3::new(2, 1, 1), 0);
    let (cx, cy, cz, d) = cell.centroid();
    assert_eq!(d, 4 * 48 * 8);
    assert_eq!(cx, 2 * d);
    assert_eq!(cy, 0);
    assert_eq!(cz, 0);
}

#[test]
fn face_lists_of_the_seed_cube() {
    let cell = CellSgl::new_cuboid(Vec3::new(-1, -1, -1), Vec3::new(1, 1, 1), 0);
    assert_eq!(cell.face_orders(), vec![4, 4, 4, 4, 4, 4]);
    let fv = cell.face_vertices();
    // Six quadrilaterals: each group is a count followed by four ids.
    assert_eq!(fv.len(), 30);
    assert_eq!(fv[0], 4);
    assert_eq!(&fv[1..5], &[0, 1, 3, 2]);
    let vl = cell.vertices_local();
    assert_eq!(vl.len(), 24);
    assert_eq!(&vl[0..3], &[-2, -2, -2]);
    let vg = cell.vertices_global(10, 20, 30);
    assert_eq!(&vg[0..3], &[18, 38, 58]);
    assert_eq!(cell.neighbors(), vec![-5, -3, -1, -2, -4, -6]);
}

#[test]
fn marginal_vertices_survive_on_the_plane() {
    // A cut through four vertices of an octahedron: with a tolerance wide
    // enough for the rounding grain, the on-plane vertices survive and
    // the cell keeps its volume on that side.
    let mut cell = CellSgl::new_octahedron(100, 10);
    // Plane z = 0 passes through the four equatorial vertices.
    assert!(cell.nplane(Vec3::new(0, 0, 100), 0, 7));
    assert!(cell.consistent());
    // Half the octahedron's volume remains.
    assert_eq!(cell.volume(), 48 * 4 * 100 * 100 * 100 / 3 / 2);
}

#[test]
fn plane_intersects_matches_cutting() {
    let cell = CellSgl::new_cuboid(Vec3::new(-1, -1, -1), Vec3::new(1, 1, 1), 0);
    // The bisector of a neighbour at (4,0,0) lies at x = 2, clear of the cube.
    assert!(!cell.plane_intersects(Vec3::new(4, 0, 0), 16));
    // The plane x = 0 passes through it.
    assert!(cell.plane_intersects(Vec3::new(2, 0, 0), 0));
}

#[test]
fn plane_computes_its_own_offset() {
    // A neighbour at (1,1,0): the bisector x + y = 1 slices one edge off
    // the cube, removing a triangular prism of volume 1.
    let mut cell = CellSgl::new_cuboid(Vec3::new(-1, -1, -1), Vec3::new(1, 1, 1), 0);
    assert!(cell.plane(Vec3::new(1, 1, 0)));
    assert!(cell.consistent());
    assert_eq!(cell.volume(), 48 * 7);
    assert_eq!(euler_characteristic(&cell), 2);
}

#[test]
fn corner_cut_through_marginal_vertices() {
    // The plane x + y + z = 1 cuts one corner off the cube and passes
    // exactly through the three corners next to it: those classify as
    // marginal, survive, and the three new vertices land on top of them.
    // The removed corner tetrahedron has legs 2, so volume 8/6.
    let mut cell = CellSgl::new_cuboid(Vec3::new(-1, -1, -1), Vec3::new(1, 1, 1), 6);
    assert!(cell.nplane(Vec3::new(2, 2, 2), 4, 3));
    assert!(cell.consistent());
    assert_eq!(cell.volume(), 48 * 8 - 48 * 8 / 6);
    assert_eq!(euler_characteristic(&cell), 2);
}

#[test]
fn many_general_cuts_stay_sound() {
    // A ring of neighbours in general directions.  The tolerance covers
    // the rounding grain of the interpolated vertices, so every cut
    // commits; the cell stays well formed with the Euler identity intact
    // and the volume never grows.
    let mut cell = CellSgl::new_cuboid(Vec3::new(-100, -100, -100), Vec3::new(100, 100, 100), 2000);
    let dirs = [
        (95i64, 35i64, 10i64),
        (-80, 60, 25),
        (15, -90, 40),
        (-30, -70, -55),
        (60, 20, -85),
        (-45, 15, 75),
        (70, -60, -20),
        (-25, 85, -35),
        (40, 45, 65),
        (-65, -40, 50),
        (85, -15, 30),
        (-10, 55, -80),
    ];
    let mut last = cell.volume();
    for (i, (x, y, z)) in dirs.iter().enumerate() {
        let n = Vec3::new(*x, *y, *z);
        let rsq = x * x + y * y + z * z;
        assert!(cell.nplane(n, rsq, i as i32));
        assert!(cell.consistent());
        assert_eq!(euler_characteristic(&cell), 2);
        let vol = cell.volume();
        // Every one of these planes truly intersects the starting cube,
        // and the first certainly cuts: the volume strictly drops there
        // and never grows afterwards.
        if i == 0 {
            assert!(vol < last);
        } else {
            assert!(vol <= last);
        }
        assert!(vol > 0);
        last = vol;
    }
}

#[test]
fn outcome_reports_each_case() {
    // Missed, Cut and Consumed, each observable.
    let mut cell = CellSgl::new_cuboid(Vec3::new(-1, -1, -1), Vec3::new(1, 1, 1), 2);
    assert_eq!(cell.nplane_outcome(Vec3::new(4, 0, 0), 16, 1), CutOutcome::Missed);
    assert_eq!(cell.nplane_outcome(Vec3::new(2, 0, 0), 0, 2), CutOutcome::Cut);
    assert_eq!(cell.volume(), 48 * 4);
    assert_eq!(cell.nplane_outcome(Vec3::new(2, 0, 0), -100, 3), CutOutcome::Consumed);
    assert_eq!(cell.volume(), 0);

    // A tolerance below the rounding grain of the normal: the edge
    // intersection of this plane rounds off it, the rewrite is refused,
    // and the cell reports the degenerate skip instead of committing.
    let mut tight = CellSgl::new_cuboid(Vec3::new(-1, -1, -1), Vec3::new(1, 1, 1), 0);
    let before = tight.volume();
    assert_eq!(tight.nplane_outcome(Vec3::new(2, 1, 0), 1, 4), CutOutcome::Degenerate);
    assert_eq!(tight.volume(), before);
    // With the tolerance at the grain, the same cut commits.
    let mut wide = CellSgl::new_cuboid(Vec3::new(-1, -1, -1), Vec3::new(1, 1, 1), 2);
    assert_eq!(wide.nplane_outcome(Vec3::new(2, 1, 0), 1, 4), CutOutcome::Cut);
    assert!(wide.volume() < before);
    assert!(wide.consistent());
}

#[test]
fn face_freq_table_counts_orders() {
    let mut cell = CellSgl::new_cuboid(Vec3::new(-100, -100, -100), Vec3::new(100, 100, 100), 0);
    assert_eq!(cell.face_freq_table(), vec![0, 0, 0, 0, 6]);
    // Cutting one corner makes a triangle and turns three squares into
    // pentagons.
    assert!(cell.nplane(Vec3::new(120, 120, 120), 30000, 1));
    assert_eq!(cell.face_freq_table(), vec![0, 0, 0, 1, 3, 3]);
    assert_eq!(CellSgl::new_empty(0).face_freq_table(), vec![]);
}

#[test]
fn plane_intersects_guess_matches() {
    let cell = CellSgl::new_cuboid(Vec3::new(-1, -1, -1), Vec3::new(1, 1, 1), 0);
    assert!(!cell.plane_intersects_guess(Vec3::new(4, 0, 0), 16));
    assert!(cell.plane_intersects_guess(Vec3::new(2, 0, 0), 0));
}
