//! A verified kernel for Voronoi cell computation.
//!
//! A cell is a convex polyhedron held as a vertex/edge graph with an explicit
//! face table.  It is created as a simple seed shape (box, octahedron or
//! tetrahedron) and then repeatedly intersected with half-spaces, one per
//! candidate neighbouring particle, until the Voronoi region remains.
//! Measurement routines read the finished cell.
//!
//! All geometry is exact: coordinates are integers on a caller-chosen grid,
//! stored at twice the particle-relative offset so that the bisector-plane
//! arithmetic needs no halving, and every classification against a cutting
//! plane is computed without rounding.

pub mod vec3;
pub mod edges;
pub mod cell;
pub mod init;
pub mod measure;
pub mod cut;
pub mod walls;
pub mod laws;

pub use vec3::Vec3;
