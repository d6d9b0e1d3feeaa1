use crate::capsule::Capsule;
use crate::circle::Circle;
use crate::collider::{collision, Collider};
use crate::line::Line;
use crate::point::Point;
use crate::polygon::Polygon;
use crate::rect::{vmax, vmin, Rectangle};
use crate::triangle::Triangle;
use crate::vec2::{lemma_mul_bound, Vec2, COORD_LIMIT};
use vstd::prelude::*;

verus! {

/// An affine map of the plane: `p ↦ x_axis * p.x + y_axis * p.y + translation`.
#[derive(Clone, Copy, Debug, PartialEq, Eq, Structural)]
pub struct Transform {
    pub x_axis: Vec2,
    pub y_axis: Vec2,
    pub translation: Vec2,
}

/// The image of `p` under `t`, over the integers.
pub open spec fn image_x(t: Transform, p: Vec2) -> int {
    t.x_axis.x * p.x + t.y_axis.x * p.y + t.translation.x
}

pub open spec fn image_y(t: Transform, p: Vec2) -> int {
    t.x_axis.y * p.x + t.y_axis.y * p.y + t.translation.y
}

pub open spec fn image(t: Transform, p: Vec2) -> Vec2 {
    Vec2 { x: image_x(t, p) as i64, y: image_y(t, p) as i64 }
}

/// The image of `p` lies on the grid.
pub open spec fn maps_ok(t: Transform, p: Vec2) -> bool {
    image(t, p).wf() && crate::vec2::coord_ok(image_x(t, p)) && crate::vec2::coord_ok(image_y(t, p))
}

pub open spec fn line_image(t: Transform, l: Line) -> Line {
    Line { start: image(t, l.start), end: image(t, l.end) }
}

/// The images of every point of the shape lie on the grid.
pub open spec fn collider_maps_ok(t: Transform, c: Collider) -> bool {
    match c {
        Collider::Capsule(s) => maps_ok(t, s.line.start) && maps_ok(t, s.line.end),
        Collider::Circle(s) => maps_ok(t, s.position),
        Collider::Line(s) => maps_ok(t, s.start) && maps_ok(t, s.end),
        Collider::Point(s) => maps_ok(t, s.0),
        Collider::Polygon(s) => forall|i: int|
            0 <= i < s.vertices@.len() ==> maps_ok(t, #[trigger] s.vertices@[i]),
        Collider::Rectangle(s) => maps_ok(t, s.min) && maps_ok(t, s.max),
        Collider::Triangle(s) => maps_ok(t, s.a) && maps_ok(t, s.b) && maps_ok(t, s.c),
    }
}

/// `r` is the shape `c` carried by `t`: every point mapped, radii kept, and a
/// rectangle spanned again by the images of its corners.
pub open spec fn is_image(t: Transform, c: Collider, r: Collider) -> bool {
    match (c, r) {
        (Collider::Capsule(s), Collider::Capsule(q)) => q == Capsule {
            line: line_image(t, s.line),
            radius: s.radius,
        },
        (Collider::Circle(s), Collider::Circle(q)) => q == Circle {
            position: image(t, s.position),
            radius: s.radius,
        },
        (Collider::Line(s), Collider::Line(q)) => q == line_image(t, s),
        (Collider::Point(s), Collider::Point(q)) => q == Point(image(t, s.0)),
        (Collider::Polygon(s), Collider::Polygon(q)) => q.vertices@ == s.vertices@.map_values(
            |p: Vec2| image(t, p),
        ),
        (Collider::Rectangle(s), Collider::Rectangle(q)) => q == Rectangle {
            min: vmin(image(t, s.min), image(t, s.max)),
            max: vmax(image(t, s.min), image(t, s.max)),
        },
        (Collider::Triangle(s), Collider::Triangle(q)) => q == Triangle {
            a: image(t, s.a),
            b: image(t, s.b),
            c: image(t, s.c),
        },
        _ => false,
    }
}

impl Transform {
    /// Axes within the difference range, translation on the grid.
    pub open spec fn wf(self) -> bool {
        self.x_axis.small() && self.y_axis.small() && self.translation.wf()
    }

    pub open spec fn is_identity(self) -> bool {
        self == Transform {
            x_axis: Vec2 { x: 1, y: 0 },
            y_axis: Vec2 { x: 0, y: 1 },
            translation: Vec2 { x: 0, y: 0 },
        }
    }

    /// The map that leaves every point in place.
    pub fn identity() -> (r: Transform)
        ensures
            r.is_identity(),
            r.wf(),
    {
        Transform {
            x_axis: Vec2::new(1, 0),
            y_axis: Vec2::new(0, 1),
            translation: Vec2::new(0, 0),
        }
    }

    /// Whether the axes and the translation lie in range.
    pub fn is_valid(&self) -> (r: bool)
        ensures
            r == self.wf(),
    {
        let small = |v: Vec2| -> (b: bool)
            ensures
                b == v.small(),
            {
                -crate::vec2::DIFF_LIMIT <= v.x && v.x <= crate::vec2::DIFF_LIMIT
                    && -crate::vec2::DIFF_LIMIT <= v.y && v.y <= crate::vec2::DIFF_LIMIT
            };
        small(self.x_axis) && small(self.y_axis) && self.translation.is_valid()
    }

    /// Whether the image of `point` lies on the grid.
    pub fn maps_into_range(&self, point: Vec2) -> (r: bool)
        requires
            self.wf(),
            point.wf(),
        ensures
            r == maps_ok(*self, point),
    {
        proof {
            let m = crate::vec2::DIFF_LIMIT as int;
            let c = COORD_LIMIT as int;
            lemma_mul_bound(self.x_axis.x as int, point.x as int, m, c);
            lemma_mul_bound(self.y_axis.x as int, point.y as int, m, c);
            lemma_mul_bound(self.x_axis.y as int, point.x as int, m, c);
            lemma_mul_bound(self.y_axis.y as int, point.y as int, m, c);
        }
        let x = self.x_axis.x * point.x + self.y_axis.x * point.y + self.translation.x;
        let y = self.x_axis.y * point.x + self.y_axis.y * point.y + self.translation.y;
        -COORD_LIMIT <= x && x <= COORD_LIMIT && -COORD_LIMIT <= y && y <= COORD_LIMIT
    }

    fn maps_vertices_into_range(&self, p: &Polygon) -> (r: bool)
        requires
            self.wf(),
            p.wf(),
        ensures
            r == forall|i: int|
                0 <= i < p.vertices@.len() ==> maps_ok(*self, #[trigger] p.vertices@[i]),
    {
        let n = p.vertices.len();
        let mut i: usize = 0;
        while i < n
            invariant
                self.wf(),
                p.wf(),
                n == p.vertices@.len(),
                i <= n,
                forall|j: int| 0 <= j < i ==> maps_ok(*self, #[trigger] p.vertices@[j]),
            decreases n - i,
        {
            if !self.maps_into_range(p.vertices[i]) {
                return false;
            }
            i = i + 1;
        }
        true
    }

    /// Whether every point of `shape` is carried onto the grid.
    pub fn maps_shape_into_range(&self, shape: &Collider) -> (r: bool)
        requires
            self.wf(),
            shape.wf(),
        ensures
            r == collider_maps_ok(*self, *shape),
    {
        match shape {
            Collider::Capsule(s) => self.maps_into_range(s.line.start) && self.maps_into_range(
                s.line.end,
            ),
            Collider::Circle(s) => self.maps_into_range(s.position),
            Collider::Line(s) => self.maps_into_range(s.start) && self.maps_into_range(s.end),
            Collider::Point(s) => self.maps_into_range(s.0),
            Collider::Polygon(s) => self.maps_vertices_into_range(s),
            Collider::Rectangle(s) => self.maps_into_range(s.min) && self.maps_into_range(s.max),
            Collider::Triangle(s) => self.maps_into_range(s.a) && self.maps_into_range(s.b)
                && self.maps_into_range(s.c),
        }
    }

    /// The image of a point.
    pub fn transform_point2(&self, point: Vec2) -> (r: Vec2)
        requires
            self.wf(),
            point.wf(),
            maps_ok(*self, point),
        ensures
            r == image(*self, point),
            r.wf(),
    {
        proof {
            let m = crate::vec2::DIFF_LIMIT as int;
            let c = COORD_LIMIT as int;
            lemma_mul_bound(self.x_axis.x as int, point.x as int, m, c);
            lemma_mul_bound(self.y_axis.x as int, point.y as int, m, c);
            lemma_mul_bound(self.x_axis.y as int, point.x as int, m, c);
            lemma_mul_bound(self.y_axis.y as int, point.y as int, m, c);
        }
        Vec2::new(
            self.x_axis.x * point.x + self.y_axis.x * point.y + self.translation.x,
            self.x_axis.y * point.x + self.y_axis.y * point.y + self.translation.y,
        )
    }

    fn transform_line(&self, l: &Line) -> (r: Line)
        requires
            self.wf(),
            l.wf(),
            maps_ok(*self, l.start),
            maps_ok(*self, l.end),
        ensures
            r == line_image(*self, *l),
            r.wf(),
    {
        Line::new(self.transform_point2(l.start), self.transform_point2(l.end))
    }
}

impl Collider {
    /// The shape carried into world space by `transform`.
    pub fn to_transformed(&self, transform: &Transform) -> (r: Collider)
        requires
            self.wf(),
            transform.wf(),
            collider_maps_ok(*transform, *self),
        ensures
            is_image(*transform, *self, r),
            r.wf(),
    {
        let t = transform;
        match self {
            Collider::Capsule(s) => Collider::Capsule(
                Capsule::new(t.transform_line(&s.line), s.radius),
            ),
            Collider::Circle(s) => Collider::Circle(
                Circle::new(t.transform_point2(s.position), s.radius),
            ),
            Collider::Line(s) => Collider::Line(t.transform_line(s)),
            Collider::Point(s) => Collider::Point(Point::new(t.transform_point2(s.0))),
            Collider::Polygon(s) => {
                let mut vertices: Vec<Vec2> = Vec::new();
                let n = s.vertices.len();
                let mut i: usize = 0;
                while i < n
                    invariant
                        s.wf(),
                        t.wf(),
                        n == s.vertices@.len(),
                        i <= n,
                        forall|j: int| 0 <= j < n ==> maps_ok(*t, #[trigger] s.vertices@[j]),
                        vertices@ =~= s.vertices@.subrange(0, i as int).map_values(
                            |p: Vec2| image(*t, p),
                        ),
                    decreases n - i,
                {
                    let p = t.transform_point2(s.vertices[i]);
                    vertices.push(p);
                    i = i + 1;
                    assert(vertices@ =~= s.vertices@.subrange(0, i as int).map_values(
                        |p: Vec2| image(*t, p),
                    ));
                }
                assert(s.vertices@.subrange(0, n as int) =~= s.vertices@);
                Collider::Polygon(Polygon::new(vertices))
            },
            Collider::Rectangle(s) => Collider::Rectangle(
                Rectangle::from_corners(t.transform_point2(s.min), t.transform_point2(s.max)),
            ),
            Collider::Triangle(s) => Collider::Triangle(
                Triangle::new(
                    t.transform_point2(s.a),
                    t.transform_point2(s.b),
                    t.transform_point2(s.c),
                ),
            ),
        }
    }
}

proof fn lemma_identity_image(t: Transform, p: Vec2)
    requires
        t.is_identity(),
    ensures
        image(t, p) == p,
{
    assert(1 * p.x + 0 * p.y + 0 == p.x) by (nonlinear_arith);
    assert(0 * p.x + 1 * p.y + 0 == p.y) by (nonlinear_arith);
}

/// The identity map carries a shape onto one that is the same in every
/// field the collision algorithms read.
proof fn lemma_identity_keeps_shape(t: Transform, c: Collider, r: Collider)
    requires
        t.is_identity(),
        c.wf(),
        is_image(t, c, r),
    ensures
        match (c, r) {
            (Collider::Polygon(s), Collider::Polygon(q)) => q.vertices@ == s.vertices@,
            _ => r == c,
        },
{
    match (c, r) {
        (Collider::Capsule(s), Collider::Capsule(q)) => {
            lemma_identity_image(t, s.line.start);
            lemma_identity_image(t, s.line.end);
        },
        (Collider::Circle(s), Collider::Circle(q)) => {
            lemma_identity_image(t, s.position);
        },
        (Collider::Line(s), Collider::Line(q)) => {
            lemma_identity_image(t, s.start);
            lemma_identity_image(t, s.end);
        },
        (Collider::Point(s), Collider::Point(q)) => {
            lemma_identity_image(t, s.0);
        },
        (Collider::Polygon(s), Collider::Polygon(q)) => {
            assert forall|i: int| 0 <= i < s.vertices@.len() implies q.vertices@[i]
                == s.vertices@[i] by {
                lemma_identity_image(t, s.vertices@[i]);
            }
            assert(q.vertices@ =~= s.vertices@);
        },
        (Collider::Rectangle(s), Collider::Rectangle(q)) => {
            lemma_identity_image(t, s.min);
            lemma_identity_image(t, s.max);
        },
        (Collider::Triangle(s), Collider::Triangle(q)) => {
            lemma_identity_image(t, s.a);
            lemma_identity_image(t, s.b);
            lemma_identity_image(t, s.c);
        },
        _ => {},
    }
}

/// Carrying two shapes by the identity map and colliding them gives the same
/// result as colliding the shapes themselves.
pub proof fn lemma_identity_transform_collision(
    t: Transform,
    a: Collider,
    b: Collider,
    a2: Collider,
    b2: Collider,
)
    requires
        t.is_identity(),
        a.wf(),
        b.wf(),
        is_image(t, a, a2),
        is_image(t, b, b2),
    ensures
        collision(a2, b2) == collision(a, b),
{
    lemma_identity_keeps_shape(t, a, a2);
    lemma_identity_keeps_shape(t, b, b2);
}

} // verus!
