//! Plane walls and wall lists.
//!
//! A plane wall bounds the domain by a half-space: a point is inside when
//! its dot product with the wall's normal falls short of the wall's
//! displacement.  Cutting a cell by a plane wall reduces to one cutting
//! plane, applied through the cell's own cutting engine.

use vstd::prelude::*;
use crate::vec3::{Vec3, dot_wide, spec_dot, COORD_MAX, NORM_MAX, RSQ_MAX};
use crate::cell::CellSgl;

verus! {

/// Largest magnitude of a wall normal's component: keeps the derived
/// cutting-plane offset within the cutting engine's range.
pub const WALL_NORM_MAX: i64 = 0x800;

/// Largest magnitude of a wall displacement.
pub const WALL_DISP_MAX: i64 = 0x100_0000;

/// A plane wall: the half-space of points `x` with `x . normal < disp`.
#[derive(Clone, Copy, Debug)]
pub struct WallPlane {
    pub normal: Vec3,
    pub disp: i64,
    pub id: i32,
}

impl WallPlane {
    /// The wall's parameters are within the kernel's working range.
    pub open spec fn wall_wf(self) -> bool {
        &&& self.normal.spec_bounded(WALL_NORM_MAX as int)
        &&& -WALL_DISP_MAX <= self.disp <= WALL_DISP_MAX
    }

    /// The cutting-plane offset this wall induces for a cell whose
    /// particle sits at `x`.
    pub open spec fn spec_rsq(self, x: Vec3) -> int {
        2 * (self.disp - spec_dot(x, self.normal))
    }

    /// Construct a plane wall with the default wall id.
    pub fn new(c: Vec3, a: i64) -> (r: WallPlane)
        requires
            c.spec_bounded(WALL_NORM_MAX as int),
            -WALL_DISP_MAX <= a <= WALL_DISP_MAX,
        ensures
            r == (WallPlane { normal: c, disp: a, id: -99i32 }),
            r.wall_wf(),
    {
        Self::new_with_id(c, a, -99)
    }

    /// Construct a plane wall with a given id, recorded on the faces the
    /// wall cuts.
    pub fn new_with_id(c: Vec3, a: i64, id: i32) -> (r: WallPlane)
        requires
            c.spec_bounded(WALL_NORM_MAX as int),
            -WALL_DISP_MAX <= a <= WALL_DISP_MAX,
        ensures
            r == (WallPlane { normal: c, disp: a, id }),
            r.wall_wf(),
    {
        WallPlane { normal: c, disp: a, id }
    }

    /// Whether the point lies strictly inside the wall's half-space.
    pub fn point_inside(&self, xyz: Vec3) -> (r: bool)
        requires
            self.wall_wf(),
            xyz.spec_bounded(COORD_MAX as int),
        ensures
            r == (spec_dot(xyz, self.normal) < self.disp),
    {
        let d: i128 = dot_wide(xyz, self.normal);
        d < self.disp as i128
    }

    /// Cut the cell, whose particle sits at `xyz`, by this wall's plane.
    /// Returns `false` exactly when nothing of the cell is left.
    pub fn cut_cell(&self, cell: &mut CellSgl, xyz: Vec3) -> (r: bool)
        requires
            self.wall_wf(),
            old(cell).wf(),
            xyz.spec_bounded(COORD_MAX as int),
        ensures
            final(cell).wf(),
            final(cell).tol == old(cell).tol,
            r == !final(cell).spec_is_empty(),
            r == !old(cell).spec_all_cut(self.normal, self.spec_rsq(xyz)),
            old(cell).spec_no_cut(self.normal, self.spec_rsq(xyz)) && !old(cell).spec_is_empty()
                ==> *final(cell) == *old(cell),
            old(cell).spec_all_cut(self.normal, self.spec_rsq(xyz))
                ==> final(cell).spec_is_empty(),
            old(cell).spec_is_empty() ==> *final(cell) == *old(cell),
            !old(cell).spec_all_cut(self.normal, self.spec_rsq(xyz)) && !old(cell).spec_no_cut(
                self.normal,
                self.spec_rsq(xyz),
            ) ==> *final(cell) == *old(cell) || old(cell).spec_cut_result(
                *final(cell),
                self.normal,
                self.spec_rsq(xyz),
                self.id,
            ),
    {
        let d: i128 = dot_wide(xyz, self.normal);
        proof {
            crate::vec3::lemma_mul_bounds(
                xyz.x as int,
                self.normal.x as int,
                COORD_MAX as int,
                WALL_NORM_MAX as int,
            );
            crate::vec3::lemma_mul_bounds(
                xyz.y as int,
                self.normal.y as int,
                COORD_MAX as int,
                WALL_NORM_MAX as int,
            );
            crate::vec3::lemma_mul_bounds(
                xyz.z as int,
                self.normal.z as int,
                COORD_MAX as int,
                WALL_NORM_MAX as int,
            );
        }
        let rq_wide: i128 = 2 * ((self.disp as i128) - d);
        proof {
            assert(-RSQ_MAX <= rq_wide <= RSQ_MAX);
            assert(self.normal.spec_bounded(NORM_MAX as int));
        }
        let rq: i64 = rq_wide as i64;
        cell.nplane(self.normal, rq, self.id)
    }
}

/// A list of plane walls, applied together.
#[derive(Clone, Debug)]
pub struct WallList {
    pub walls: Vec<WallPlane>,
}

/// The part of the wall interface that does not depend on another type:
/// a wall set with a point-membership test.
pub trait Walls0 {
    /// The planes the set holds, in insertion order.
    spec fn model(&self) -> Seq<WallPlane>;

    /// Every held wall is within the kernel's working range.
    spec fn set_wf(&self) -> bool;

    /// Whether a position is inside every wall of the set.
    fn point_inside_walls(&mut self, xyz: Vec3) -> (r: bool)
        requires
            old(self).set_wf(),
            xyz.spec_bounded(COORD_MAX as int),
        ensures
            final(self).model() == old(self).model(),
            final(self).set_wf(),
            r == forall|i: int|
                0 <= i < old(self).model().len() ==> spec_dot(
                    xyz,
                    (#[trigger] old(self).model()[i]).normal,
                ) < old(self).model()[i].disp,
    ;
}

/// The part of the wall interface that depends on the wall type added.
pub trait Walls2<T>: Walls0 {
    /// The plane a value of the added type stands for.
    spec fn incoming(w: T) -> WallPlane;

    /// Add one wall to the set.
    fn add_wall(&mut self, wall: T)
        requires
            old(self).set_wf(),
            Self::incoming(wall).wall_wf(),
        ensures
            final(self).model() == old(self).model().push(Self::incoming(wall)),
            final(self).set_wf(),
    ;
}

/// The part of the wall interface that depends on the wall-set type added.
pub trait Walls3<T: Walls0>: Walls0 {
    /// Add every wall of another set to this one.
    fn add_walls(&mut self, walls: &mut T)
        requires
            old(self).set_wf(),
            old(walls).set_wf(),
        ensures
            final(self).model() == old(self).model() + old(walls).model(),
            final(self).set_wf(),
            final(walls).model() == old(walls).model(),
            final(walls).set_wf(),
    ;
}

/// The whole wall-list interface.
pub trait Walls: Walls0 + Walls2<WallPlane> + Walls3<WallList> {
}

impl WallList {
    /// Create an empty wall list.
    pub fn new() -> (r: WallList)
        ensures
            r.walls@ =~= Seq::<WallPlane>::empty(),
            r.set_wf(),
    {
        WallList { walls: Vec::new() }
    }

    /// Cut a cell, whose particle sits at `xyz`, by every wall on the
    /// list, in insertion order.  Returns `false` exactly when nothing of
    /// the cell is left; the final cell is linked to the initial one by a
    /// chain of single-wall cut steps, one per wall.
    pub fn apply_walls(&mut self, cell: &mut CellSgl, xyz: Vec3) -> (r: bool)
        requires
            old(self).set_wf(),
            old(cell).wf(),
            !old(cell).spec_is_empty(),
            xyz.spec_bounded(COORD_MAX as int),
        ensures
            *final(self) == *old(self),
            final(cell).wf(),
            final(cell).tol == old(cell).tol,
            r == !final(cell).spec_is_empty(),
            exists|chain: Seq<CellSgl>|
                #[trigger] spec_wall_chain(
                    old(self).walls@,
                    xyz,
                    *old(cell),
                    *final(cell),
                    chain,
                ),
    {
        let nw: usize = self.walls.len();
        let ghost mut chain: Seq<CellSgl> = seq![*cell];
        let mut i: usize = 0;
        while i < nw
            invariant
                *self == *old(self),
                self.set_wf(),
                nw == self.walls@.len(),
                i <= nw,
                cell.wf(),
                !cell.spec_is_empty(),
                cell.tol == old(cell).tol,
                xyz.spec_bounded(COORD_MAX as int),
                chain.len() == i + 1,
                chain[0] == *old(cell),
                chain[i as int] == *cell,
                forall|k: int|
                    0 <= k < i ==> spec_wall_step(
                        #[trigger] self.walls@[k],
                        xyz,
                        chain[k],
                        chain[k + 1],
                    ),
            decreases nw - i,
        {
            let w: WallPlane = self.walls[i];
            proof {
                assert(self.walls@[i as int].wall_wf());
            }
            let ghost pre = *cell;
            let ok: bool = w.cut_cell(cell, xyz);
            proof {
                chain = chain.push(*cell);
                assert(spec_wall_step(w, xyz, pre, *cell));
            }
            if !ok {
                proof {
                    let pad = Seq::new((nw - 1 - i) as nat, |k: int| *cell);
                    let full = chain + pad;
                    assert forall|k: int|
                        0 <= k < nw implies spec_wall_step(
                        #[trigger] self.walls@[k],
                        xyz,
                        full[k],
                        full[k + 1],
                    ) by {
                        if k < i {
                            assert(full[k] == chain[k]);
                            assert(full[k + 1] == chain[k + 1]);
                        } else if k == i {
                            assert(full[k] == chain[k]);
                            assert(full[k + 1] == chain[k + 1]);
                        } else {
                            assert(full[k] == *cell);
                            assert(full[k + 1] == *cell);
                            assert(cell.spec_is_empty());
                            assert(spec_wall_step(self.walls@[k], xyz, *cell, *cell));
                        }
                    }
                    assert(spec_wall_chain(self.walls@, xyz, *old(cell), *cell, full));
                }
                return false;
            }
            i += 1;
        }
        proof {
            assert(spec_wall_chain(self.walls@, xyz, *old(cell), *cell, chain));
        }
        true
    }
}

/// What one wall's cut may do to a cell: the relation a single
/// [`WallPlane::cut_cell`] call establishes between the cell before and
/// after.
pub open spec fn spec_wall_step(w: WallPlane, xyz: Vec3, a: CellSgl, b: CellSgl) -> bool {
    &&& b.wf()
    &&& b.tol == a.tol
    &&& (a.spec_no_cut(w.normal, w.spec_rsq(xyz)) && !a.spec_is_empty() ==> b == a)
    &&& (a.spec_all_cut(w.normal, w.spec_rsq(xyz)) ==> b.spec_is_empty())
    &&& (a.spec_is_empty() ==> b == a)
    &&& (!a.spec_all_cut(w.normal, w.spec_rsq(xyz)) && !a.spec_no_cut(w.normal, w.spec_rsq(xyz))
        ==> b == a || a.spec_cut_result(b, w.normal, w.spec_rsq(xyz), w.id))
}

/// A chain of cells witnessing that `b` results from `a` by cutting with
/// each wall of `walls` in order.
pub open spec fn spec_wall_chain(
    walls: Seq<WallPlane>,
    xyz: Vec3,
    a: CellSgl,
    b: CellSgl,
    chain: Seq<CellSgl>,
) -> bool {
    &&& chain.len() == walls.len() + 1
    &&& chain[0] == a
    &&& chain[chain.len() - 1] == b
    &&& forall|i: int|
        0 <= i < walls.len() ==> spec_wall_step(#[trigger] walls[i], xyz, chain[i], chain[i + 1])
}

impl Walls0 for WallList {
    open spec fn model(&self) -> Seq<WallPlane> {
        self.walls@
    }

    open spec fn set_wf(&self) -> bool {
        forall|i: int| 0 <= i < self.walls@.len() ==> (#[trigger] self.walls@[i]).wall_wf()
    }

    fn point_inside_walls(&mut self, xyz: Vec3) -> (r: bool) {
        let nw: usize = self.walls.len();
        let mut i: usize = 0;
        while i < nw
            invariant
                *self == *old(self),
                self.set_wf(),
                nw == self.walls@.len(),
                i <= nw,
                xyz.spec_bounded(COORD_MAX as int),
                forall|k: int|
                    0 <= k < i ==> spec_dot(xyz, (#[trigger] self.walls@[k]).normal)
                        < self.walls@[k].disp,
            decreases nw - i,
        {
            let w: WallPlane = self.walls[i];
            proof {
                assert(self.walls@[i as int].wall_wf());
            }
            if !w.point_inside(xyz) {
                assert(!(spec_dot(xyz, self.walls@[i as int].normal) < self.walls@[i as int].disp));
                return false;
            }
            i += 1;
        }
        true
    }
}

impl Walls2<WallPlane> for WallList {
    open spec fn incoming(w: WallPlane) -> WallPlane {
        w
    }

    fn add_wall(&mut self, wall: WallPlane) {
        self.walls.push(wall);
    }
}

impl Walls3<WallList> for WallList {
    fn add_walls(&mut self, walls: &mut WallList) {
        let nw: usize = walls.walls.len();
        let mut i: usize = 0;
        while i < nw
            invariant
                *walls == *old(walls),
                walls.set_wf(),
                old(self).set_wf(),
                nw == walls.walls@.len(),
                i <= nw,
                self.walls@ == old(self).walls@ + walls.walls@.subrange(0, i as int),
            decreases nw - i,
        {
            let w: WallPlane = walls.walls[i];
            self.walls.push(w);
            proof {
                assert(self.walls@ =~= old(self).walls@ + walls.walls@.subrange(0, (i
                    + 1) as int));
            }
            i += 1;
        }
        proof {
            assert(self.walls@ =~= old(self).walls@ + walls.walls@);
            assert forall|k: int| 0 <= k < self.walls@.len() implies (
            #[trigger] self.walls@[k]).wall_wf() by {
                if k < old(self).walls@.len() {
                    assert(old(self).walls@[k].wall_wf());
                } else {
                    assert(walls.walls@[k - old(self).walls@.len()].wall_wf());
                }
            }
        }
    }
}

impl Walls for WallList {
}

} // verus!
