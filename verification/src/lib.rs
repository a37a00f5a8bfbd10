//! Delaunay triangulation of a set of two-dimensional points by incremental
//! insertion, with its combinatorial core verified.
//!
//! The engine works on point indices. Every geometric decision, whether a
//! point lies within the circumcircle of a triangle, is taken by a predicate
//! that the caller hands in; the engine owns the bookkeeping around it: the
//! enclosing supertriangle, the removal of the triangles a new point
//! invalidates, the boundary of the hole they leave, and the fan of new
//! triangles that closes it.

pub mod edge;
pub mod error;
pub mod laws;
pub mod mesh;
pub mod point;
pub mod slices;
pub mod triangle;
pub mod triangulate;

pub use edge::Edge;
pub use error::TriangulateError;
pub use point::{sort_points, Point, TriangulationPoint};
pub use slices::TwoPointsSlices;
pub use triangle::Triangle;
pub use triangulate::triangulate;
