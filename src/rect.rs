use crate::line::Line;
use crate::vec2::{coord_ok, Vec2};
use vstd::prelude::*;

verus! {

pub open spec fn min_i(a: int, b: int) -> int {
    if a <= b { a } else { b }
}

pub open spec fn max_i(a: int, b: int) -> int {
    if a >= b { a } else { b }
}

/// Componentwise minimum.
pub open spec fn vmin(a: Vec2, b: Vec2) -> Vec2 {
    Vec2 { x: min_i(a.x as int, b.x as int) as i64, y: min_i(a.y as int, b.y as int) as i64 }
}

/// Componentwise maximum.
pub open spec fn vmax(a: Vec2, b: Vec2) -> Vec2 {
    Vec2 { x: max_i(a.x as int, b.x as int) as i64, y: max_i(a.y as int, b.y as int) as i64 }
}

/// `p` clamped into the box from `lo` to `hi`.
pub open spec fn clamp(p: Vec2, lo: Vec2, hi: Vec2) -> Vec2 {
    vmax(lo, vmin(p, hi))
}

fn min_i64(a: i64, b: i64) -> (r: i64)
    ensures
        r == min_i(a as int, b as int),
{
    if a <= b { a } else { b }
}

fn max_i64(a: i64, b: i64) -> (r: i64)
    ensures
        r == max_i(a as int, b as int),
{
    if a >= b { a } else { b }
}

/// An axis-aligned rectangle given by its lower-left (`min`) and upper-right
/// (`max`) corners, boundary included.
#[derive(Clone, Copy, Debug, PartialEq, Eq, Structural)]
pub struct Rectangle {
    pub min: Vec2,
    pub max: Vec2,
}

/// The point of the perimeter of `r` closest to `p`, and whether `p` lies in
/// `r`. From inside, the nearest side wins, the first of left, top, right,
/// bottom on a tie.
pub open spec fn perimeter_point(r: Rectangle, p: Vec2) -> (Vec2, bool) {
    let c = clamp(p, r.min, r.max);
    if c != p {
        (c, false)
    } else {
        let left = p.x - r.min.x;
        let top = r.max.y - p.y;
        let right = r.max.x - p.x;
        let bottom = p.y - r.min.y;
        if left <= top && left <= right && left <= bottom {
            (Vec2 { x: r.min.x, y: p.y }, true)
        } else if top <= right && top <= bottom {
            (Vec2 { x: p.x, y: r.max.y }, true)
        } else if right <= bottom {
            (Vec2 { x: r.max.x, y: p.y }, true)
        } else {
            (Vec2 { x: p.x, y: r.min.y }, true)
        }
    }
}

/// For a point `p` of `r`, the unit direction from the side that
/// [`perimeter_point`] picks toward the inside of `r`: the direction from the
/// perimeter point to `p` wherever the two differ.
pub open spec fn wall_normal(r: Rectangle, p: Vec2) -> Vec2 {
    let left = p.x - r.min.x;
    let top = r.max.y - p.y;
    let right = r.max.x - p.x;
    let bottom = p.y - r.min.y;
    if left <= top && left <= right && left <= bottom {
        Vec2 { x: 1, y: 0 }
    } else if top <= right && top <= bottom {
        Vec2 { x: 0, y: -1i64 }
    } else if right <= bottom {
        Vec2 { x: -1i64, y: 0 }
    } else {
        Vec2 { x: 0, y: 1 }
    }
}

impl Rectangle {
    /// The unit direction from the side nearest to `point` toward the inside.
    pub fn wall_normal(&self, point: Vec2) -> (r: Vec2)
        requires
            self.wf(),
            point.wf(),
        ensures
            r == wall_normal(*self, point),
    {
        let left = point.x - self.min.x;
        let top = self.max.y - point.y;
        let right = self.max.x - point.x;
        let bottom = point.y - self.min.y;
        if left <= top && left <= right && left <= bottom {
            Vec2::new(1, 0)
        } else if top <= right && top <= bottom {
            Vec2::new(0, -1)
        } else if right <= bottom {
            Vec2::new(-1, 0)
        } else {
            Vec2::new(0, 1)
        }
    }

    /// Corners on the grid, `min` below and left of `max`.
    pub open spec fn wf(self) -> bool {
        self.min.wf() && self.max.wf() && self.min.x <= self.max.x && self.min.y <= self.max.y
    }

    /// Whether `p` lies in the rectangle, boundary included.
    pub open spec fn contains_spec(self, p: Vec2) -> bool {
        self.min.x <= p.x <= self.max.x && self.min.y <= p.y <= self.max.y
    }

    pub open spec fn top_left(self) -> Vec2 {
        Vec2 { x: self.min.x, y: self.max.y }
    }

    pub open spec fn bottom_right(self) -> Vec2 {
        Vec2 { x: self.max.x, y: self.min.y }
    }

    pub open spec fn intersect_spec(self, other: Rectangle) -> Rectangle {
        let lo = vmax(self.min, other.min);
        let hi = vmin(self.max, other.max);
        Rectangle { min: vmin(lo, hi), max: hi }
    }

    /// The rectangle with the given corners.
    pub fn from_rect(min: Vec2, max: Vec2) -> (r: Rectangle)
        requires
            min.x <= max.x,
            min.y <= max.y,
        ensures
            r == (Rectangle { min, max }),
    {
        Rectangle { min, max }
    }

    /// The lower-left corner.
    pub fn min(&self) -> (r: Vec2)
        ensures
            r == self.min,
    {
        self.min
    }

    /// The upper-right corner.
    pub fn max(&self) -> (r: Vec2)
        ensures
            r == self.max,
    {
        self.max
    }

    pub fn top_left_corner(&self) -> (r: Vec2)
        ensures
            r == self.top_left(),
    {
        Vec2::new(self.min.x, self.max.y)
    }

    pub fn bottom_right_corner(&self) -> (r: Vec2)
        ensures
            r == self.bottom_right(),
    {
        Vec2::new(self.max.x, self.min.y)
    }

    /// The left side, upward.
    pub fn left(&self) -> (r: Line)
        ensures
            r == (Line { start: self.min, end: self.top_left() }),
    {
        Line::new(self.min, self.top_left_corner())
    }

    /// The top side, rightward.
    pub fn top(&self) -> (r: Line)
        ensures
            r == (Line { start: self.top_left(), end: self.max }),
    {
        Line::new(self.top_left_corner(), self.max)
    }

    /// The right side, upward.
    pub fn right(&self) -> (r: Line)
        ensures
            r == (Line { start: self.bottom_right(), end: self.max }),
    {
        Line::new(self.bottom_right_corner(), self.max)
    }

    /// The bottom side, rightward.
    pub fn bottom(&self) -> (r: Line)
        ensures
            r == (Line { start: self.min, end: self.bottom_right() }),
    {
        Line::new(self.min, self.bottom_right_corner())
    }

    /// The point of the rectangle closest to `point`.
    pub fn closest_point(&self, point: Vec2) -> (r: Vec2)
        ensures
            r == clamp(point, self.min, self.max),
    {
        Vec2::new(
            max_i64(self.min.x, min_i64(point.x, self.max.x)),
            max_i64(self.min.y, min_i64(point.y, self.max.y)),
        )
    }

    /// The point of the perimeter closest to `point`, and whether `point`
    /// lies in the rectangle.
    pub fn closest_point_on_perimeter(&self, point: Vec2) -> (r: (Vec2, bool))
        requires
            self.wf(),
            point.wf(),
        ensures
            r == perimeter_point(*self, point),
            r.0.wf(),
            r.1 == self.contains_spec(point),
    {
        let closest = self.closest_point(point);
        if closest != point {
            return (closest, false);
        }
        let left = point.x - self.min.x;
        let top = self.max.y - point.y;
        let right = self.max.x - point.x;
        let bottom = point.y - self.min.y;
        if left <= top && left <= right && left <= bottom {
            (Vec2::new(self.min.x, point.y), true)
        } else if top <= right && top <= bottom {
            (Vec2::new(point.x, self.max.y), true)
        } else if right <= bottom {
            (Vec2::new(self.max.x, point.y), true)
        } else {
            (Vec2::new(point.x, self.min.y), true)
        }
    }

    /// The rectangle spanned by two opposite corners, `(x0, y0)` and
    /// `(x1, y1)`.
    pub fn new(x0: i64, y0: i64, x1: i64, y1: i64) -> (r: Rectangle)
        ensures
            r == (Rectangle { min: vmin(Vec2 { x: x0, y: y0 }, Vec2 { x: x1, y: y1 }), max: vmax(Vec2 { x: x0, y: y0 }, Vec2 { x: x1, y: y1 }) }),
    {
        Rectangle::from_corners(Vec2::new(x0, y0), Vec2::new(x1, y1))
    }

    /// The rectangle spanned by two opposite corners.
    pub fn from_corners(p0: Vec2, p1: Vec2) -> (r: Rectangle)
        ensures
            r == (Rectangle { min: vmin(p0, p1), max: vmax(p0, p1) }),
            p0.wf() && p1.wf() ==> r.wf(),
    {
        Rectangle {
            min: Vec2::new(min_i64(p0.x, p1.x), min_i64(p0.y, p1.y)),
            max: Vec2::new(max_i64(p0.x, p1.x), max_i64(p0.y, p1.y)),
        }
    }

    /// The rectangle of the given size whose lower-left corner is `origin`
    /// less half the size (rounded down).
    pub fn from_center_size(origin: Vec2, size: Vec2) -> (r: Rectangle)
        requires
            origin.wf(),
            size.x >= 0,
            size.y >= 0,
            coord_ok(origin.x - size.x / 2),
            coord_ok(origin.y - size.y / 2),
            coord_ok(origin.x - size.x / 2 + size.x),
            coord_ok(origin.y - size.y / 2 + size.y),
        ensures
            r.min == (Vec2 { x: (origin.x - size.x / 2) as i64, y: (origin.y - size.y / 2) as i64 }),
            r.max == (Vec2 { x: (r.min.x + size.x) as i64, y: (r.min.y + size.y) as i64 }),
            r.wf(),
    {
        let min = Vec2::new(origin.x - size.x / 2, origin.y - size.y / 2);
        Rectangle { min, max: Vec2::new(min.x + size.x, min.y + size.y) }
    }

    /// The rectangle reaching `half_size` from `origin` on each side.
    pub fn from_center_half_size(origin: Vec2, half_size: Vec2) -> (r: Rectangle)
        requires
            origin.wf(),
            half_size.x >= 0,
            half_size.y >= 0,
            coord_ok(origin.x - half_size.x),
            coord_ok(origin.y - half_size.y),
            coord_ok(origin.x + half_size.x),
            coord_ok(origin.y + half_size.y),
        ensures
            r.min == (Vec2 { x: (origin.x - half_size.x) as i64, y: (origin.y - half_size.y) as i64 }),
            r.max == (Vec2 { x: (origin.x + half_size.x) as i64, y: (origin.y + half_size.y) as i64 }),
            r.wf(),
    {
        Rectangle {
            min: Vec2::new(origin.x - half_size.x, origin.y - half_size.y),
            max: Vec2::new(origin.x + half_size.x, origin.y + half_size.y),
        }
    }

    /// Whether the rectangle has no area.
    pub fn is_empty(&self) -> (r: bool)
        ensures
            r == (self.min.x >= self.max.x || self.min.y >= self.max.y),
    {
        self.min.x >= self.max.x || self.min.y >= self.max.y
    }

    pub fn width(&self) -> (r: i64)
        requires
            self.wf(),
        ensures
            r == self.max.x - self.min.x,
    {
        self.max.x - self.min.x
    }

    pub fn height(&self) -> (r: i64)
        requires
            self.wf(),
        ensures
            r == self.max.y - self.min.y,
    {
        self.max.y - self.min.y
    }

    /// Width and height.
    pub fn size(&self) -> (r: Vec2)
        requires
            self.wf(),
        ensures
            r.x == self.max.x - self.min.x,
            r.y == self.max.y - self.min.y,
    {
        self.max.sub(self.min)
    }

    /// Half the width and height, rounded down.
    pub fn half_size(&self) -> (r: Vec2)
        requires
            self.wf(),
        ensures
            r.x == (self.max.x - self.min.x) / 2,
            r.y == (self.max.y - self.min.y) / 2,
    {
        let s = self.size();
        Vec2::new(s.x / 2, s.y / 2)
    }

    /// The center: `min` plus half the size, rounded down.
    pub fn center(&self) -> (r: Vec2)
        requires
            self.wf(),
        ensures
            r.x == self.min.x + (self.max.x - self.min.x) / 2,
            r.y == self.min.y + (self.max.y - self.min.y) / 2,
            r.wf(),
    {
        let h = self.half_size();
        Vec2::new(self.min.x + h.x, self.min.y + h.y)
    }

    /// Whether `point` lies in the rectangle, boundary included.
    pub fn contains(&self, point: Vec2) -> (r: bool)
        ensures
            r == self.contains_spec(point),
    {
        self.min.x <= point.x && point.x <= self.max.x && self.min.y <= point.y && point.y
            <= self.max.y
    }

    /// The smallest rectangle holding both.
    pub fn union(&self, other: Rectangle) -> (r: Rectangle)
        requires
            self.wf(),
            other.wf(),
        ensures
            r == (Rectangle { min: vmin(self.min, other.min), max: vmax(self.max, other.max) }),
            r.wf(),
    {
        Rectangle {
            min: Vec2::new(min_i64(self.min.x, other.min.x), min_i64(self.min.y, other.min.y)),
            max: Vec2::new(max_i64(self.max.x, other.max.x), max_i64(self.max.y, other.max.y)),
        }
    }

    /// The smallest rectangle holding `self` and `point`.
    pub fn union_point(&self, point: Vec2) -> (r: Rectangle)
        requires
            self.wf(),
            point.wf(),
        ensures
            r == (Rectangle { min: vmin(self.min, point), max: vmax(self.max, point) }),
            r.wf(),
    {
        Rectangle {
            min: Vec2::new(min_i64(self.min.x, point.x), min_i64(self.min.y, point.y)),
            max: Vec2::new(max_i64(self.max.x, point.x), max_i64(self.max.y, point.y)),
        }
    }

    /// The common part of two rectangles; where they do not overlap, the
    /// lower corner is pulled onto the upper one and the result is empty.
    pub fn intersect(&self, other: Rectangle) -> (r: Rectangle)
        requires
            self.wf(),
            other.wf(),
        ensures
            r == self.intersect_spec(other),
            r.wf(),
    {
        let hi = Vec2::new(min_i64(self.max.x, other.max.x), min_i64(self.max.y, other.max.y));
        let lo = Vec2::new(max_i64(self.min.x, other.min.x), max_i64(self.min.y, other.min.y));
        Rectangle { min: Vec2::new(min_i64(lo.x, hi.x), min_i64(lo.y, hi.y)), max: hi }
    }

    /// The rectangle grown by `inset` on every side (shrunk for a negative
    /// `inset`); where it would turn inside out, the lower corner is pulled
    /// onto the upper one.
    pub fn inset(&self, inset: i64) -> (r: Rectangle)
        requires
            self.wf(),
            coord_ok(self.min.x - inset),
            coord_ok(self.min.y - inset),
            coord_ok(self.max.x + inset),
            coord_ok(self.max.y + inset),
        ensures
            r.max == (Vec2 { x: (self.max.x + inset) as i64, y: (self.max.y + inset) as i64 }),
            r.min == vmin(Vec2 { x: (self.min.x - inset) as i64, y: (self.min.y - inset) as i64 }, r.max),
            r.wf(),
    {
        let hi = Vec2::new(self.max.x + inset, self.max.y + inset);
        let lo = Vec2::new(self.min.x - inset, self.min.y - inset);
        Rectangle { min: Vec2::new(min_i64(lo.x, hi.x), min_i64(lo.y, hi.y)), max: hi }
    }
}

} // verus!
