use crate::algorithms::{
    capsule_capsule, capsule_circle, capsule_line, capsule_point, capsule_rect, circle_circle,
    circle_line, circle_point, circle_rect, collide_capsule_capsule, collide_capsule_circle,
    collide_capsule_line, collide_capsule_point, collide_capsule_polygon, collide_capsule_rect,
    collide_circle_circle, collide_circle_line, collide_circle_point, collide_circle_polygon,
    collide_circle_rect, collide_line_line, collide_line_point, collide_line_polygon,
    collide_line_rect, collide_point_point, collide_point_polygon, collide_point_rect,
    collide_polygon_polygon, collide_polygon_rect, collide_rect_rect, depths, flip, flipped,
    capsule_pair, lemma_capsule_le_total, lemma_capsule_pair_ok, lemma_capsule_pair_self,
    lemma_capsule_capsule_ok, lemma_capsule_circle_ok, lemma_circle_circle_ok,
    lemma_circle_circle_symmetric, lemma_circle_rect_ok, lemma_line_le_total, lemma_rect_rect_ok,
    lemma_vertices_le_order, line_line, line_point, line_rect, manifold_ok,
    point_point, point_polygon, point_rect, polygon_capsule, polygon_circle, polygon_line,
    polygon_polygon, polygon_rect, rect_rect,
};
use crate::capsule::Capsule;
use crate::circle::Circle;
use crate::contact::{lemma_neg_involutive, ContactManifold};
use crate::line::Line;
use crate::point::Point;
use crate::polygon::Polygon;
use crate::rect::Rectangle;
use crate::triangle::Triangle;
use vstd::prelude::*;

verus! {

/// Any shape the collision algorithms know.
#[derive(Clone, Debug)]
pub enum Collider {
    Capsule(Capsule),
    Circle(Circle),
    Line(Line),
    Point(Point),
    Polygon(Polygon),
    Rectangle(Rectangle),
    Triangle(Triangle),
}

impl Collider {
    pub open spec fn wf(&self) -> bool {
        match self {
            Collider::Capsule(s) => s.wf(),
            Collider::Circle(s) => s.wf(),
            Collider::Line(s) => s.wf(),
            Collider::Point(s) => s.wf(),
            Collider::Polygon(s) => s.wf(),
            Collider::Rectangle(s) => s.wf(),
            Collider::Triangle(s) => s.wf(),
        }
    }
}

/// The manifold of `a` against `b`: each unordered pair of kinds has one
/// algorithm, and the reversed order is its result seen from the other shape.
pub open spec fn collision(a: Collider, b: Collider) -> Option<ContactManifold> {
    match (a, b) {
        (Collider::Capsule(x), Collider::Capsule(y)) => capsule_capsule(x, y),
        (Collider::Capsule(x), Collider::Circle(y)) => capsule_circle(x, y),
        (Collider::Capsule(x), Collider::Line(y)) => capsule_line(x, y),
        (Collider::Capsule(x), Collider::Point(y)) => capsule_point(x, y),
        (Collider::Capsule(x), Collider::Polygon(y)) => flipped(polygon_capsule(y.vertices@, x)),
        (Collider::Capsule(x), Collider::Rectangle(y)) => capsule_rect(x, y),
        (Collider::Capsule(x), Collider::Triangle(y)) => flipped(polygon_capsule(y.corners(), x)),
        (Collider::Circle(x), Collider::Capsule(y)) => flipped(capsule_circle(y, x)),
        (Collider::Circle(x), Collider::Circle(y)) => circle_circle(x, y),
        (Collider::Circle(x), Collider::Line(y)) => circle_line(x, y),
        (Collider::Circle(x), Collider::Point(y)) => circle_point(x, y),
        (Collider::Circle(x), Collider::Polygon(y)) => flipped(polygon_circle(y.vertices@, x)),
        (Collider::Circle(x), Collider::Rectangle(y)) => circle_rect(x, y),
        (Collider::Circle(x), Collider::Triangle(y)) => flipped(polygon_circle(y.corners(), x)),
        (Collider::Line(x), Collider::Capsule(y)) => flipped(capsule_line(y, x)),
        (Collider::Line(x), Collider::Circle(y)) => flipped(circle_line(y, x)),
        (Collider::Line(x), Collider::Line(y)) => line_line(x, y),
        (Collider::Line(x), Collider::Point(y)) => line_point(x, y),
        (Collider::Line(x), Collider::Polygon(y)) => flipped(polygon_line(y.vertices@, x)),
        (Collider::Line(x), Collider::Rectangle(y)) => line_rect(x, y),
        (Collider::Line(x), Collider::Triangle(y)) => flipped(polygon_line(y.corners(), x)),
        (Collider::Point(x), Collider::Capsule(y)) => flipped(capsule_point(y, x)),
        (Collider::Point(x), Collider::Circle(y)) => flipped(circle_point(y, x)),
        (Collider::Point(x), Collider::Line(y)) => flipped(line_point(y, x)),
        (Collider::Point(x), Collider::Point(y)) => point_point(x, y),
        (Collider::Point(x), Collider::Polygon(y)) => point_polygon(x, y.vertices@),
        (Collider::Point(x), Collider::Rectangle(y)) => point_rect(x, y),
        (Collider::Point(x), Collider::Triangle(y)) => point_polygon(x, y.corners()),
        (Collider::Polygon(x), Collider::Capsule(y)) => polygon_capsule(x.vertices@, y),
        (Collider::Polygon(x), Collider::Circle(y)) => polygon_circle(x.vertices@, y),
        (Collider::Polygon(x), Collider::Line(y)) => polygon_line(x.vertices@, y),
        (Collider::Polygon(x), Collider::Point(y)) => flipped(point_polygon(y, x.vertices@)),
        (Collider::Polygon(x), Collider::Polygon(y)) => polygon_polygon(x.vertices@, y.vertices@),
        (Collider::Polygon(x), Collider::Rectangle(y)) => polygon_rect(x.vertices@, y),
        (Collider::Polygon(x), Collider::Triangle(y)) => polygon_polygon(x.vertices@, y.corners()),
        (Collider::Rectangle(x), Collider::Capsule(y)) => flipped(capsule_rect(y, x)),
        (Collider::Rectangle(x), Collider::Circle(y)) => flipped(circle_rect(y, x)),
        (Collider::Rectangle(x), Collider::Line(y)) => flipped(line_rect(y, x)),
        (Collider::Rectangle(x), Collider::Point(y)) => flipped(point_rect(y, x)),
        (Collider::Rectangle(x), Collider::Polygon(y)) => flipped(polygon_rect(y.vertices@, x)),
        (Collider::Rectangle(x), Collider::Rectangle(y)) => rect_rect(x, y),
        (Collider::Rectangle(x), Collider::Triangle(y)) => flipped(polygon_rect(y.corners(), x)),
        (Collider::Triangle(x), Collider::Capsule(y)) => polygon_capsule(x.corners(), y),
        (Collider::Triangle(x), Collider::Circle(y)) => polygon_circle(x.corners(), y),
        (Collider::Triangle(x), Collider::Line(y)) => polygon_line(x.corners(), y),
        (Collider::Triangle(x), Collider::Point(y)) => flipped(point_polygon(y, x.corners())),
        (Collider::Triangle(x), Collider::Polygon(y)) => flipped(polygon_polygon(y.vertices@, x.corners())),
        (Collider::Triangle(x), Collider::Rectangle(y)) => polygon_rect(x.corners(), y),
        (Collider::Triangle(x), Collider::Triangle(y)) => polygon_polygon(x.corners(), y.corners()),
    }
}

impl Collider {
    /// Whether the shape is well formed: points on the grid, radii in range,
    /// rectangle corners in order.
    pub fn is_valid(&self) -> (r: bool)
        ensures
            r == self.wf(),
    {
        match self {
            Collider::Capsule(s) => s.line.start.is_valid() && s.line.end.is_valid() && 0
                <= s.radius && s.radius <= crate::vec2::COORD_LIMIT,
            Collider::Circle(s) => s.position.is_valid() && 0 <= s.radius && s.radius
                <= crate::vec2::COORD_LIMIT,
            Collider::Line(s) => s.start.is_valid() && s.end.is_valid(),
            Collider::Point(s) => s.0.is_valid(),
            Collider::Polygon(s) => s.is_valid(),
            Collider::Rectangle(s) => s.min.is_valid() && s.max.is_valid() && s.min.x <= s.max.x
                && s.min.y <= s.max.y,
            Collider::Triangle(s) => s.a.is_valid() && s.b.is_valid() && s.c.is_valid(),
        }
    }

    /// Whether and how `self` touches `other`; `None` when they are apart.
    pub fn collide(&self, other: &Collider) -> (r: Option<ContactManifold>)
        requires
            self.wf(),
            other.wf(),
        ensures
            r == collision(*self, *other),
            manifold_ok(r),
    {
        match (self, other) {
            (Collider::Capsule(x), Collider::Capsule(y)) => collide_capsule_capsule(x, y),
            (Collider::Capsule(x), Collider::Circle(y)) => collide_capsule_circle(x, y),
            (Collider::Capsule(x), Collider::Line(y)) => collide_capsule_line(x, y),
            (Collider::Capsule(x), Collider::Point(y)) => collide_capsule_point(x, y),
            (Collider::Capsule(x), Collider::Polygon(y)) => collide_capsule_polygon(x, y),
            (Collider::Capsule(x), Collider::Rectangle(y)) => collide_capsule_rect(x, y),
            (Collider::Capsule(x), Collider::Triangle(y)) => collide_capsule_polygon(x, &y.to_polygon()),
            (Collider::Circle(x), Collider::Capsule(y)) => flip(collide_capsule_circle(y, x)),
            (Collider::Circle(x), Collider::Circle(y)) => collide_circle_circle(x, y),
            (Collider::Circle(x), Collider::Line(y)) => collide_circle_line(x, y),
            (Collider::Circle(x), Collider::Point(y)) => collide_circle_point(x, y),
            (Collider::Circle(x), Collider::Polygon(y)) => collide_circle_polygon(x, y),
            (Collider::Circle(x), Collider::Rectangle(y)) => collide_circle_rect(x, y),
            (Collider::Circle(x), Collider::Triangle(y)) => collide_circle_polygon(x, &y.to_polygon()),
            (Collider::Line(x), Collider::Capsule(y)) => flip(collide_capsule_line(y, x)),
            (Collider::Line(x), Collider::Circle(y)) => flip(collide_circle_line(y, x)),
            (Collider::Line(x), Collider::Line(y)) => collide_line_line(x, y),
            (Collider::Line(x), Collider::Point(y)) => collide_line_point(x, y),
            (Collider::Line(x), Collider::Polygon(y)) => collide_line_polygon(x, y),
            (Collider::Line(x), Collider::Rectangle(y)) => collide_line_rect(x, y),
            (Collider::Line(x), Collider::Triangle(y)) => collide_line_polygon(x, &y.to_polygon()),
            (Collider::Point(x), Collider::Capsule(y)) => flip(collide_capsule_point(y, x)),
            (Collider::Point(x), Collider::Circle(y)) => flip(collide_circle_point(y, x)),
            (Collider::Point(x), Collider::Line(y)) => flip(collide_line_point(y, x)),
            (Collider::Point(x), Collider::Point(y)) => collide_point_point(x, y),
            (Collider::Point(x), Collider::Polygon(y)) => collide_point_polygon(x, y),
            (Collider::Point(x), Collider::Rectangle(y)) => collide_point_rect(x, y),
            (Collider::Point(x), Collider::Triangle(y)) => collide_point_polygon(x, &y.to_polygon()),
            (Collider::Polygon(x), Collider::Capsule(y)) => flip(collide_capsule_polygon(y, x)),
            (Collider::Polygon(x), Collider::Circle(y)) => flip(collide_circle_polygon(y, x)),
            (Collider::Polygon(x), Collider::Line(y)) => flip(collide_line_polygon(y, x)),
            (Collider::Polygon(x), Collider::Point(y)) => flip(collide_point_polygon(y, x)),
            (Collider::Polygon(x), Collider::Polygon(y)) => collide_polygon_polygon(x, y),
            (Collider::Polygon(x), Collider::Rectangle(y)) => collide_polygon_rect(x, y),
            (Collider::Polygon(x), Collider::Triangle(y)) => collide_polygon_polygon(x, &y.to_polygon()),
            (Collider::Rectangle(x), Collider::Capsule(y)) => flip(collide_capsule_rect(y, x)),
            (Collider::Rectangle(x), Collider::Circle(y)) => flip(collide_circle_rect(y, x)),
            (Collider::Rectangle(x), Collider::Line(y)) => flip(collide_line_rect(y, x)),
            (Collider::Rectangle(x), Collider::Point(y)) => flip(collide_point_rect(y, x)),
            (Collider::Rectangle(x), Collider::Polygon(y)) => flip(collide_polygon_rect(y, x)),
            (Collider::Rectangle(x), Collider::Rectangle(y)) => collide_rect_rect(x, y),
            (Collider::Rectangle(x), Collider::Triangle(y)) => flip(collide_polygon_rect(&y.to_polygon(), x)),
            (Collider::Triangle(x), Collider::Capsule(y)) => flip(collide_capsule_polygon(y, &x.to_polygon())),
            (Collider::Triangle(x), Collider::Circle(y)) => flip(collide_circle_polygon(y, &x.to_polygon())),
            (Collider::Triangle(x), Collider::Line(y)) => flip(collide_line_polygon(y, &x.to_polygon())),
            (Collider::Triangle(x), Collider::Point(y)) => flip(collide_point_polygon(y, &x.to_polygon())),
            (Collider::Triangle(x), Collider::Polygon(y)) => flip(collide_polygon_polygon(y, &x.to_polygon())),
            (Collider::Triangle(x), Collider::Rectangle(y)) => collide_polygon_rect(&x.to_polygon(), y),
            (Collider::Triangle(x), Collider::Triangle(y)) => collide_polygon_polygon(&x.to_polygon(), &y.to_polygon()),
        }
    }
}

/// The position of a kind in the order that names the canonical pairs.
pub open spec fn kind_index(c: Collider) -> int {
    match c {
        Collider::Capsule(_) => 0,
        Collider::Circle(_) => 1,
        Collider::Line(_) => 2,
        Collider::Point(_) => 3,
        Collider::Polygon(_) => 4,
        Collider::Rectangle(_) => 5,
        Collider::Triangle(_) => 6,
    }
}

/// Two overlapping rectangles whose least penetration depth is shared by the
/// left or top axis with the right or bottom one: the fixed tie order then
/// picks axes that are not opposite in the two calls.
pub open spec fn rect_axis_tie(a: Collider, b: Collider) -> bool {
    match (a, b) {
        (Collider::Rectangle(x), Collider::Rectangle(y)) => {
            let (l, t, r, bt) = depths(x, y);
            let m = crate::rect::min_i(crate::rect::min_i(l, t), crate::rect::min_i(r, bt));
            l >= 0 && t >= 0 && r >= 0 && bt >= 0 && (l == m || t == m) && (r == m || bt == m)
        },
        _ => false,
    }
}

proof fn lemma_flipped_twice(m: Option<ContactManifold>)
    requires
        manifold_ok(m),
    ensures
        flipped(flipped(m)) == m,
{
    if let Some(c) = m {
        lemma_neg_involutive(c);
    }
}

/// Every contact that any pair of shapes produces is well defined: each
/// normal is a nonzero direction of bounded size, each edge pair is parallel,
/// and each single point of contact lies within reach of the grid.
pub proof fn lemma_collision_ok(a: Collider, b: Collider)
    requires
        a.wf(),
        b.wf(),
    ensures
        manifold_ok(collision(a, b)),
{
    if kind_index(a) <= kind_index(b) {
        lemma_pair_ok(a, b);
    } else {
        lemma_pair_ok(b, a);
        if let Some(m) = collision(b, a) {
            lemma_neg_involutive(m);
        }
    }
}

proof fn lemma_pair_ok(a: Collider, b: Collider)
    requires
        a.wf(),
        b.wf(),
        kind_index(a) <= kind_index(b),
    ensures
        manifold_ok(collision(a, b)),
{
    match (a, b) {
        (Collider::Capsule(x), Collider::Capsule(y)) => {
            lemma_capsule_capsule_ok(x, y);
        },
        (Collider::Capsule(x), Collider::Circle(y)) => {
            lemma_capsule_circle_ok(x, y);
        },
        (Collider::Circle(x), Collider::Circle(y)) => {
            lemma_circle_circle_ok(x, y);
        },
        (Collider::Circle(x), Collider::Rectangle(y)) => {
            lemma_circle_rect_ok(x, y);
        },
        (Collider::Rectangle(x), Collider::Rectangle(y)) => {
            lemma_rect_rect_ok(x, y);
        },
        _ => {},
    }
}

/// Colliding two shapes in the reverse order gives the same manifold seen
/// from the other shape; in particular one order finds no contact exactly when
/// the other does not. This holds for every pair of shapes but two
/// overlapping rectangles whose least depths tie across non-opposite axes,
/// where the fixed tie order reports different sides.
pub proof fn lemma_collision_symmetric(a: Collider, b: Collider)
    requires
        a.wf(),
        b.wf(),
        !rect_axis_tie(a, b),
    ensures
        collision(b, a) == flipped(collision(a, b)),
{
    if kind_index(a) != kind_index(b) {
        lemma_collision_ok(a, b);
        lemma_collision_ok(b, a);
        lemma_flipped_twice(collision(a, b));
        lemma_flipped_twice(collision(b, a));
    } else {
        match (a, b) {
            (Collider::Circle(x), Collider::Circle(y)) => {
                lemma_circle_circle_symmetric(x, y);
            },
            (Collider::Rectangle(x), Collider::Rectangle(y)) => {
                let i = x.intersect_spec(y);
                assert(y.intersect_spec(x) == i);
            },
            (Collider::Line(x), Collider::Line(y)) => {
                lemma_line_le_total(x, y);
            },
            (Collider::Capsule(x), Collider::Capsule(y)) => {
                lemma_capsule_le_total(x, y);
                lemma_capsule_pair_ok(x, y);
                lemma_capsule_pair_ok(y, x);
                lemma_flipped_twice(capsule_pair(x, y));
                lemma_flipped_twice(capsule_pair(y, x));
                if x == y {
                    lemma_capsule_pair_self(x);
                }
            },
            (Collider::Polygon(x), Collider::Polygon(y)) => {
                lemma_vertices_le_order(x.vertices@, y.vertices@);
            },
            (Collider::Triangle(x), Collider::Triangle(y)) => {
                lemma_vertices_le_order(x.corners(), y.corners());
            },
            _ => {},
        }
    }
}

/// For every pair of shapes, one order of the call finds no contact exactly
/// when the other does not.
pub proof fn lemma_collision_apart_symmetric(a: Collider, b: Collider)
    requires
        a.wf(),
        b.wf(),
    ensures
        (collision(a, b) is None) == (collision(b, a) is None),
{
    if !rect_axis_tie(a, b) {
        lemma_collision_symmetric(a, b);
    }
}

} // verus!
