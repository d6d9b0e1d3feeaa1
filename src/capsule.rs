use crate::circle::radius_ok;
use crate::line::{within_sq, Line};
use crate::vec2::{lemma_mul_bound, Vec2, COORD_LIMIT};
use vstd::prelude::*;

verus! {

/// Every point within `radius` of the segment `line`, its medial axis.
#[derive(Clone, Copy, Debug, PartialEq, Eq, Structural)]
pub struct Capsule {
    pub line: Line,
    pub radius: i64,
}

impl Capsule {
    pub open spec fn wf(self) -> bool {
        self.line.wf() && radius_ok(self.radius as int)
    }

    pub fn new(line: Line, radius: i64) -> (r: Capsule)
        ensures
            r == (Capsule { line, radius }),
    {
        Capsule { line, radius }
    }

    pub fn radius_squared(&self) -> (r: i64)
        requires
            self.wf(),
        ensures
            r == self.radius * self.radius,
            0 <= r <= COORD_LIMIT * COORD_LIMIT,
    {
        proof {
            lemma_mul_bound(self.radius as int, self.radius as int, COORD_LIMIT as int, COORD_LIMIT as int);
            crate::vec2::lemma_sq_nonneg(self.radius as int);
        }
        self.radius * self.radius
    }

    /// Whether `point` lies in the capsule, boundary included.
    pub fn contains(&self, point: Vec2) -> (r: bool)
        requires
            self.wf(),
            point.wf(),
        ensures
            r == within_sq(self.line, point, self.radius * self.radius),
    {
        self.line.within_distance_squared(&point, self.radius_squared())
    }
}

} // verus!
