use crate::vec2::{dist_sq, Vec2};
use vstd::prelude::*;

verus! {

/// A single point.
#[derive(Clone, Copy, Debug, PartialEq, Eq, Structural)]
pub struct Point(pub Vec2);

impl Point {
    pub open spec fn wf(self) -> bool {
        self.0.wf()
    }

    pub fn new(point: Vec2) -> (r: Point)
        ensures
            r.0 == point,
    {
        Point(point)
    }

    /// The squared distance to `other`.
    pub fn distance_squared(&self, other: Vec2) -> (r: i64)
        requires
            self.wf(),
            other.wf(),
        ensures
            r == dist_sq(self.0, other),
    {
        self.0.distance_squared(other)
    }
}

} // verus!
