//! Unit tests of the kernel on its integer grid: physical coordinates
//! carry a scale of 100, so a length of 1.57 is written 157.

use voro_cell::cell::CellSgl;
use voro_cell::Vec3;

#[test]
fn new_empty() {
    let cell = CellSgl::new_empty(0);
    assert!(cell.consistent());
    assert_eq!(cell.number_of_faces(), 0);
    assert_eq!(cell.number_of_edges(), 0);
    assert_eq!(cell.volume(), 0);
}

#[test]
fn new_cuboid() {
    let min = Vec3::new(157, 165, 131);
    let max = Vec3::new(186, 133, 254);
    let cell = CellSgl::new_cuboid(min, max, 0);
    assert!(cell.consistent());

    assert_eq!(cell.pt[0], Vec3::new(314, 330, 262));
    assert_eq!(cell.pt[1], Vec3::new(372, 330, 262));
    assert_eq!(cell.pt[2], Vec3::new(314, 266, 262));
    assert_eq!(cell.pt[3], Vec3::new(372, 266, 262));
    assert_eq!(cell.pt[4], Vec3::new(314, 330, 508));
    assert_eq!(cell.pt[5], Vec3::new(372, 330, 508));
    assert_eq!(cell.pt[6], Vec3::new(314, 266, 508));
    assert_eq!(cell.pt[7], Vec3::new(372, 266, 508));

    assert_eq!(cell.ed.rows[0], vec![1, 4, 2, 2, 1, 0, 0]);
    assert_eq!(cell.ed.rows[1], vec![3, 5, 0, 2, 1, 0, 1]);
    assert_eq!(cell.ed.rows[2], vec![0, 6, 3, 2, 1, 0, 2]);
    assert_eq!(cell.ed.rows[3], vec![2, 7, 1, 2, 1, 0, 3]);
    assert_eq!(cell.ed.rows[4], vec![6, 0, 5, 2, 1, 0, 4]);
    assert_eq!(cell.ed.rows[5], vec![4, 1, 7, 2, 1, 0, 5]);
    assert_eq!(cell.ed.rows[6], vec![7, 2, 4, 2, 1, 0, 6]);
    assert_eq!(cell.ed.rows[7], vec![5, 3, 6, 2, 1, 0, 7]);

    for v in 0..8 {
        assert_eq!(cell.ed.vertex_order(v), 3);
        assert_eq!(cell.ed.len(v), 3);
    }
    assert_eq!(cell.ed.ccw(0, 5), 1);
    assert_eq!(cell.ed.ccw(2, 5), 0);
    assert_eq!(cell.ed.cw(0, 5), 2);
    assert_eq!(cell.ed.cw(1, 5), 0);
}

#[test]
fn reset_restores_marked_edges() {
    // A traversal that sign-marks neighbour entries is undone by `reset`:
    // a marked entry `e` stands for `-1 - e`.
    let mut cell = CellSgl::new_cuboid(Vec3::new(-1, -1, -1), Vec3::new(1, 1, 1), 0);
    let before = cell.ed.rows.clone();
    for v in 0..cell.ed.rows.len() {
        let m = cell.ed.vertex_order(v);
        for j in 0..m {
            cell.ed.rows[v][j] = -1 - cell.ed.rows[v][j];
        }
    }
    assert!(!cell.ed.consistent());
    cell.ed.reset();
    assert_eq!(cell.ed.rows, before);
    assert!(cell.ed.consistent());
}

#[test]
fn new_octahedron() {
    let cell = CellSgl::new_octahedron(314, 0);
    assert!(cell.consistent());

    assert_eq!(cell.pt[0], Vec3::new(-628, 0, 0));
    assert_eq!(cell.pt[1], Vec3::new(628, 0, 0));
    assert_eq!(cell.pt[2], Vec3::new(0, -628, 0));
    assert_eq!(cell.pt[3], Vec3::new(0, 628, 0));
    assert_eq!(cell.pt[4], Vec3::new(0, 0, -628));
    assert_eq!(cell.pt[5], Vec3::new(0, 0, 628));

    assert_eq!(cell.ed.rows[0], vec![2, 5, 3, 4, 0, 0, 0, 0, 0]);
    assert_eq!(cell.ed.rows[1], vec![2, 4, 3, 5, 2, 2, 2, 2, 1]);
    assert_eq!(cell.ed.rows[2], vec![0, 4, 1, 5, 0, 3, 0, 1, 2]);
    assert_eq!(cell.ed.rows[3], vec![0, 5, 1, 4, 2, 3, 2, 1, 3]);
    assert_eq!(cell.ed.rows[4], vec![0, 3, 1, 2, 3, 3, 1, 1, 4]);
    assert_eq!(cell.ed.rows[5], vec![0, 2, 1, 3, 1, 3, 3, 1, 5]);

    for v in 0..6 {
        assert_eq!(cell.ed.vertex_order(v), 4);
    }
    // An octahedron of half-diagonal l has volume (4/3) l^3.
    assert_eq!(cell.volume(), 48 * 4 * 314 * 314 * 314 / 3);
}

#[test]
fn new_tetrahedron() {
    let a = Vec3::new(465, 451, 145);
    let b = Vec3::new(175, 214, 166);
    let c = Vec3::new(310, 338, 270);
    let d = Vec3::new(195, 264, 221);
    let cell = CellSgl::new_tetrahedron(a, b, c, d, 0);
    assert!(cell.consistent());

    assert_eq!(cell.pt[0], Vec3::new(930, 902, 290));
    assert_eq!(cell.pt[1], Vec3::new(350, 428, 332));
    assert_eq!(cell.pt[2], Vec3::new(620, 676, 540));
    assert_eq!(cell.pt[3], Vec3::new(390, 528, 442));

    assert_eq!(cell.ed.rows[0], vec![1, 3, 2, 0, 0, 0, 0]);
    assert_eq!(cell.ed.rows[1], vec![0, 2, 3, 0, 2, 1, 1]);
    assert_eq!(cell.ed.rows[2], vec![0, 3, 1, 2, 2, 1, 2]);
    assert_eq!(cell.ed.rows[3], vec![0, 1, 2, 1, 2, 1, 3]);

    for v in 0..4 {
        assert_eq!(cell.ed.vertex_order(v), 3);
    }
}

#[test]
fn translate() {
    let min = Vec3::new(157, 165, 131);
    let max = Vec3::new(186, 133, 254);
    let mut cell = CellSgl::new_cuboid(min, max, 0);
    cell.translate(Vec3::new(314, 123, 313));

    assert_eq!(cell.pt[0], Vec3::new(942, 576, 888));
    assert_eq!(cell.pt[1], Vec3::new(1000, 576, 888));
    assert_eq!(cell.pt[2], Vec3::new(942, 512, 888));
    assert_eq!(cell.pt[3], Vec3::new(1000, 512, 888));
    assert_eq!(cell.pt[4], Vec3::new(942, 576, 1134));
    assert_eq!(cell.pt[5], Vec3::new(1000, 576, 1134));
    assert_eq!(cell.pt[6], Vec3::new(942, 512, 1134));
    assert_eq!(cell.pt[7], Vec3::new(1000, 512, 1134));
    assert!(cell.consistent());
}

#[test]
fn volume() {
    let min = Vec3::new(157, 133, 131);
    let max = Vec3::new(186, 165, 254);
    let mut cell = CellSgl::new_cuboid(min, max, 0);
    // 0.114144 in physical units, scaled by 100^3, times 48.
    assert_eq!(cell.volume(), 48 * 114144);

    cell.translate(Vec3::new(314, 123, 313));
    assert_eq!(cell.volume(), 48 * 114144);
}

#[test]
fn max_radius_sq() {
    let min = Vec3::new(157, 133, 131);
    let max = Vec3::new(186, 165, 254);
    let mut cell = CellSgl::new_cuboid(min, max, 0);
    // 50.5348 in stored (doubled) units, scaled by 100^2.
    assert_eq!(cell.max_radius_sq(), 505348);

    cell.translate(Vec3::new(314, 123, 313));
    // 261.7732 in stored (doubled) units, scaled likewise.
    assert_eq!(cell.max_radius_sq(), 2617732);
}
