use crate::vec2::{dist_sq, lemma_mul_bound, toward, Vec2, COORD_LIMIT};
use vstd::prelude::*;

verus! {

/// A disc: every point within `radius` of `position`.
#[derive(Clone, Copy, Debug, PartialEq, Eq, Structural)]
pub struct Circle {
    pub position: Vec2,
    pub radius: i64,
}

/// A radius in the shape range.
pub open spec fn radius_ok(r: int) -> bool {
    0 <= r <= COORD_LIMIT
}

impl Circle {
    pub open spec fn wf(self) -> bool {
        self.position.wf() && radius_ok(self.radius as int)
    }

    /// Whether `p` lies in the disc, boundary included.
    pub open spec fn contains_spec(self, p: Vec2) -> bool {
        dist_sq(self.position, p) <= self.radius * self.radius
    }

    pub fn new(position: Vec2, radius: i64) -> (r: Circle)
        ensures
            r == (Circle { position, radius }),
    {
        Circle { position, radius }
    }

    /// The disc of the given diameter, its radius rounded down.
    pub fn from_diameter(position: Vec2, diameter: i64) -> (r: Circle)
        requires
            diameter >= 0,
        ensures
            r.position == position,
            r.radius == diameter / 2,
    {
        Circle { position, radius: diameter / 2 }
    }

    pub fn radius_squared(&self) -> (r: i64)
        requires
            self.wf(),
        ensures
            r == self.radius * self.radius,
            0 <= r <= COORD_LIMIT * COORD_LIMIT,
    {
        proof {
            crate::vec2::lemma_sq_nonneg(self.radius as int);
            lemma_mul_bound(self.radius as int, self.radius as int, COORD_LIMIT as int, COORD_LIMIT as int);
        }
        self.radius * self.radius
    }

    pub fn diameter(&self) -> (r: i64)
        requires
            self.wf(),
        ensures
            r == 2 * self.radius,
    {
        self.radius * 2
    }

    /// Whether `point` lies in the disc, boundary included.
    pub fn contains(&self, point: Vec2) -> (r: bool)
        requires
            self.wf(),
            point.wf(),
        ensures
            r == self.contains_spec(point),
    {
        self.position.distance_squared(point) <= self.radius_squared()
    }

    /// The point of the boundary in the given direction, each coordinate of
    /// its offset from the center rounded toward zero: a point of the disc.
    pub fn support_point(&self, direction: Vec2) -> (r: Vec2)
        requires
            self.wf(),
            direction.small(),
            !(direction.x == 0 && direction.y == 0),
        ensures
            r.x == self.position.x + toward(direction, self.radius as int).x,
            r.y == self.position.y + toward(direction, self.radius as int).y,
            r.near(),
            self.contains_spec(r),
    {
        let t = direction.toward(self.radius);
        assert(dist_sq(self.position, Vec2 { x: (self.position.x + t.x) as i64, y: (self.position.y + t.y) as i64 }) == crate::vec2::dot(t, t));
        Vec2::new(self.position.x + t.x, self.position.y + t.y)
    }
}

} // verus!
