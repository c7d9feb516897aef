//! Wall and wall-list behaviour: plane walls cut exactly like the
//! equivalent cutting plane, and lists apply all their walls.

use voro_cell::cell::CellSgl;
use voro_cell::walls::{WallList, WallPlane, Walls0, Walls2, Walls3};
use voro_cell::Vec3;

#[test]
fn wall_plane_point_inside() {
    let w = WallPlane::new(Vec3::new(0, 0, 1), 0);
    assert!(w.point_inside(Vec3::new(5, 7, -1)));
    assert!(!w.point_inside(Vec3::new(5, 7, 0)));
    assert!(!w.point_inside(Vec3::new(5, 7, 3)));
}

#[test]
fn wall_plane_cut_cell() {
    let mut cell = CellSgl::new_cuboid(Vec3::new(-1, -1, -1), Vec3::new(1, 1, 1), 0);
    let w = WallPlane::new_with_id(Vec3::new(0, 0, 1), 0, -7);
    assert!(w.cut_cell(&mut cell, Vec3::new(0, 0, 0)));
    assert_eq!(cell.volume(), 48 * 4);
    assert!(cell.neighbors().contains(&-7));
}

#[test]
fn basic_test() {
    // A cube of volume 8, cut to 4 by one wall and to 2 by a second,
    // applied singly, as a list, and as a merged list.  The two walls are
    // the tangent planes through the origin of spheres resting against
    // the cell from above and from the side.
    let c0 = CellSgl::new_cuboid(Vec3::new(-1, -1, -1), Vec3::new(1, 1, 1), 0);
    let mut c1 = c0.clone();
    let mut c2 = c0.clone();
    let mut c3 = c0.clone();
    let mut c0 = c0;
    assert_eq!(c0.volume(), 48 * 8);
    assert_eq!(c1.volume(), 48 * 8);
    assert_eq!(c2.volume(), 48 * 8);
    assert_eq!(c3.volume(), 48 * 8);

    let origin = Vec3::new(0, 0, 0);
    let w0 = WallPlane::new(Vec3::new(0, 0, 1), 0);
    let w1 = WallPlane::new(Vec3::new(0, 1, 0), 0);
    assert!(w0.cut_cell(&mut c0, origin));
    assert_eq!(c0.volume(), 48 * 4);
    assert!(w1.cut_cell(&mut c0, origin));
    assert_eq!(c0.volume(), 48 * 2);

    let mut wl = WallList::new();
    wl.add_wall(w0);
    assert!(wl.apply_walls(&mut c1, origin));
    assert_eq!(c1.volume(), 48 * 4);
    wl.add_wall(w1);
    assert!(wl.apply_walls(&mut c1, origin));
    assert!(wl.apply_walls(&mut c2, origin));
    assert_eq!(c1.volume(), 48 * 2);
    assert_eq!(c2.volume(), 48 * 2);

    let mut wl2 = WallList::new();
    wl2.add_walls(&mut wl);
    assert!(wl2.apply_walls(&mut c3, origin));
    assert_eq!(c3.volume(), 48 * 2);
}

#[test]
fn point_inside_all_walls() {
    let mut wl = WallList::new();
    wl.add_wall(WallPlane::new(Vec3::new(1, 0, 0), 10));
    wl.add_wall(WallPlane::new(Vec3::new(0, 1, 0), 10));
    assert!(wl.point_inside_walls(Vec3::new(5, 5, 100)));
    assert!(!wl.point_inside_walls(Vec3::new(15, 5, 0)));
    assert!(!wl.point_inside_walls(Vec3::new(5, 15, 0)));
}
