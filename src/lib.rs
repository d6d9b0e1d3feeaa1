//! Exact-arithmetic 2D narrow-phase collision detection.
//!
//! Shapes (points, circles, segments, capsules, axis-aligned rectangles,
//! polygons and triangles) live on an integer grid whose coordinates are
//! bounded by [`vec2::COORD_LIMIT`], so that every product the algorithms form
//! fits in a machine integer. On that grid:
//!
//! - every overlap decision is made exactly, with no tolerance;
//! - contact geometry whose true value falls between grid points (a crossing,
//!   a closest point, a support point) is rounded toward zero;
//! - a contact normal is the primitive integer vector of its direction, so the
//!   axis normals are exactly the unit vectors;
//! - pairs for which only overlap is decided report a point where the shapes
//!   meet as a coincident contact.
//!
//! [`collider::Collider::collide`] dispatches over every ordered pair of
//! kinds; the reversed order of a pair reports the same manifold seen from the
//! other shape. [`contacts::step_pair`] folds one tested pair into per-entity
//! contact sets and reports when a collision begins or ends.

pub mod arith;
pub mod vec2;
pub mod contact;
pub mod line;
pub mod rect;
pub mod polygon;
pub mod capsule;
pub mod circle;
pub mod point;
pub mod triangle;
pub mod algorithms;
pub mod collider;
pub mod transform;
pub mod layers;
pub mod contacts;
