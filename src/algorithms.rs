use crate::capsule::Capsule;
use crate::circle::Circle;
use crate::contact::{parallel, ContactEdge, ContactManifold, ContactPoint};
use crate::line::{
    clipped, closest_pair, closest_point, intersection, lerp, within_sq, Line, LineIntersection,
};
use crate::point::Point;
use crate::polygon::{edge_count, edge_of, polygon_contains, Polygon};
use crate::rect::Rectangle;
use crate::vec2::{dist_sq, dot, minus, primitive, toward, Vec2};
use vstd::prelude::*;

verus! {

/// `a + b`, over the integers.
pub open spec fn plus(a: Vec2, b: Vec2) -> Vec2 {
    Vec2 { x: (a.x + b.x) as i64, y: (a.y + b.y) as i64 }
}

pub open spec fn is_zero(v: Vec2) -> bool {
    v.x == 0 && v.y == 0
}

/// A contact between two round features whose closest points are `p` (ours,
/// radius `r1`) and `q` (theirs, radius `r2`): each support point is offset
/// toward the other along `q - p`.
pub open spec fn round_contact(p: Vec2, r1: int, q: Vec2, r2: int) -> ContactManifold {
    let d = minus(q, p);
    ContactManifold::Point(
        ContactPoint {
            us: plus(p, toward(d, r1)),
            them: minus(q, toward(d, r2)),
            normal: primitive(d),
        },
    )
}

/// Wraps a witness point of contact.
pub open spec fn coincident_at(p: Option<Vec2>) -> Option<ContactManifold> {
    match p {
        Some(q) => Some(ContactManifold::Coincident(q)),
        None => None,
    }
}

/// The manifold seen from the other shape.
pub open spec fn flipped(m: Option<ContactManifold>) -> Option<ContactManifold> {
    match m {
        Some(c) => Some(c.neg_spec()),
        None => None,
    }
}

pub open spec fn manifold_ok(m: Option<ContactManifold>) -> bool {
    m matches Some(c) ==> c.wf()
}

// ---------------------------------------------------------------- order

/// `p` comes before `q`: by `x`, then by `y`.
pub open spec fn vec_lt(p: Vec2, q: Vec2) -> bool {
    p.x < q.x || (p.x == q.x && p.y < q.y)
}

/// A total order on segments: by start, then by end.
pub open spec fn line_le(a: Line, b: Line) -> bool {
    vec_lt(a.start, b.start) || (a.start == b.start && (vec_lt(a.end, b.end) || a.end == b.end))
}

/// A total order on capsules: by axis, then by radius.
pub open spec fn capsule_le(a: Capsule, b: Capsule) -> bool {
    if a.line == b.line {
        a.radius <= b.radius
    } else {
        line_le(a.line, b.line)
    }
}

/// The lexicographic order on vertex lists, from index `i` on.
pub open spec fn vertices_le(s: Seq<Vec2>, t: Seq<Vec2>, i: int) -> bool
    decreases s.len() - i,
{
    if i >= s.len() {
        true
    } else if i >= t.len() {
        false
    } else if s[i] != t[i] {
        vec_lt(s[i], t[i])
    } else {
        vertices_le(s, t, i + 1)
    }
}

proof fn lemma_vertices_le_total(s: Seq<Vec2>, t: Seq<Vec2>, i: int)
    requires
        0 <= i <= s.len(),
        i <= t.len(),
        forall|j: int| 0 <= j < i ==> s[j] == t[j],
    ensures
        vertices_le(s, t, i) || vertices_le(t, s, i),
        vertices_le(s, t, i) && vertices_le(t, s, i) ==> s == t,
    decreases s.len() - i,
{
    if i < s.len() && i < t.len() && s[i] == t[i] {
        lemma_vertices_le_total(s, t, i + 1);
    }
    if vertices_le(s, t, i) && vertices_le(t, s, i) {
        if i >= s.len() && i >= t.len() {
            assert(s =~= t);
        }
    }
}

/// Of two segments, one comes first, and both only when they are equal.
pub proof fn lemma_line_le_total(a: Line, b: Line)
    ensures
        line_le(a, b) || line_le(b, a),
        line_le(a, b) && line_le(b, a) ==> a == b,
{
}

/// Of two capsules, one comes first, and both only when they are equal.
pub proof fn lemma_capsule_le_total(a: Capsule, b: Capsule)
    ensures
        capsule_le(a, b) || capsule_le(b, a),
        capsule_le(a, b) && capsule_le(b, a) ==> a == b,
{
    lemma_line_le_total(a.line, b.line);
}

/// Of two vertex lists, one comes first, and both only when they are equal.
pub proof fn lemma_vertices_le_order(s: Seq<Vec2>, t: Seq<Vec2>)
    ensures
        vertices_le(s, t, 0) || vertices_le(t, s, 0),
        vertices_le(s, t, 0) && vertices_le(t, s, 0) ==> s == t,
{
    lemma_vertices_le_total(s, t, 0);
}

/// A capsule meets an equal capsule at a single coincident point.
pub proof fn lemma_capsule_pair_self(a: Capsule)
    requires
        a.wf(),
    ensures
        capsule_pair(a, a) matches Some(ContactManifold::Coincident(_)),
{
    crate::line::lemma_intersection_self(a.line);
}

fn vec_lt_exec(p: Vec2, q: Vec2) -> (r: bool)
    ensures
        r == vec_lt(p, q),
{
    p.x < q.x || (p.x == q.x && p.y < q.y)
}

fn line_le_exec(a: &Line, b: &Line) -> (r: bool)
    ensures
        r == line_le(*a, *b),
{
    vec_lt_exec(a.start, b.start) || (a.start == b.start && (vec_lt_exec(a.end, b.end) || a.end
        == b.end))
}

fn capsule_le_exec(a: &Capsule, b: &Capsule) -> (r: bool)
    ensures
        r == capsule_le(*a, *b),
{
    if a.line == b.line {
        a.radius <= b.radius
    } else {
        line_le_exec(&a.line, &b.line)
    }
}

fn vertices_le_exec(s: &Polygon, t: &Polygon) -> (r: bool)
    ensures
        r == vertices_le(s.vertices@, t.vertices@, 0),
{
    let n = s.vertices.len();
    let m = t.vertices.len();
    let mut i: usize = 0;
    while i < n
        invariant
            n == s.vertices@.len(),
            m == t.vertices@.len(),
            i <= n,
            i <= m,
            vertices_le(s.vertices@, t.vertices@, 0) == vertices_le(
                s.vertices@,
                t.vertices@,
                i as int,
            ),
        decreases n - i,
    {
        if i >= m {
            return false;
        }
        if s.vertices[i] != t.vertices[i] {
            return vec_lt_exec(s.vertices[i], t.vertices[i]);
        }
        i = i + 1;
    }
    true
}

// ---------------------------------------------------------------- points

pub open spec fn point_point(us: Point, them: Point) -> Option<ContactManifold> {
    if us.0 == them.0 {
        Some(ContactManifold::Coincident(us.0))
    } else {
        None
    }
}

pub open spec fn point_rect(us: Point, them: Rectangle) -> Option<ContactManifold> {
    if them.contains_spec(us.0) {
        Some(ContactManifold::Coincident(us.0))
    } else {
        None
    }
}

pub open spec fn point_polygon(us: Point, them: Seq<Vec2>) -> Option<ContactManifold> {
    if polygon_contains(them, us.0) {
        Some(ContactManifold::Coincident(us.0))
    } else {
        None
    }
}

pub open spec fn circle_point(us: Circle, them: Point) -> Option<ContactManifold> {
    if us.contains_spec(them.0) {
        Some(ContactManifold::Coincident(them.0))
    } else {
        None
    }
}

pub open spec fn capsule_point(us: Capsule, them: Point) -> Option<ContactManifold> {
    if within_sq(us.line, them.0, us.radius * us.radius) {
        Some(ContactManifold::Coincident(them.0))
    } else {
        None
    }
}

pub open spec fn line_point(us: Line, them: Point) -> Option<ContactManifold> {
    if within_sq(us, them.0, 0) {
        Some(ContactManifold::Coincident(them.0))
    } else {
        None
    }
}

// ----------------------------------------------------------- round shapes

/// Circles whose centers are no farther apart than the sum of the radii
/// touch: along the line of centers, or at the center they share.
pub open spec fn circle_circle(us: Circle, them: Circle) -> Option<ContactManifold> {
    let reach = us.radius + them.radius;
    if dist_sq(us.position, them.position) > reach * reach {
        None
    } else if us.position == them.position {
        Some(ContactManifold::Coincident(us.position))
    } else {
        Some(round_contact(us.position, us.radius as int, them.position, them.radius as int))
    }
}

/// A circle whose center is within the sum of the radii of the capsule's axis
/// touches it, along the line from the nearest point of the axis to the
/// center, or at the center where that point is the center itself.
pub open spec fn capsule_circle(us: Capsule, them: Circle) -> Option<ContactManifold> {
    let reach = us.radius + them.radius;
    if !within_sq(us.line, them.position, reach * reach) {
        None
    } else {
        let c = closest_point(us.line, them.position);
        if c == them.position {
            Some(ContactManifold::Coincident(them.position))
        } else {
            Some(round_contact(c, us.radius as int, them.position, them.radius as int))
        }
    }
}

/// Where a circle center lies in the rectangle, the contact runs from the
/// nearest wall to the center (for a center on the wall itself, along the
/// wall's unit normal into the rectangle); otherwise from the center to the
/// nearest point of the rectangle, which must then lie in the circle.
pub open spec fn circle_rect(us: Circle, them: Rectangle) -> Option<ContactManifold> {
    let (cp, inside) = crate::rect::perimeter_point(them, us.position);
    let d = if !inside {
        minus(cp, us.position)
    } else if cp == us.position {
        crate::rect::wall_normal(them, us.position)
    } else {
        minus(us.position, cp)
    };
    if !inside && !us.contains_spec(cp) {
        None
    } else {
        Some(
            ContactManifold::Point(
                ContactPoint {
                    us: plus(us.position, toward(d, us.radius as int)),
                    them: cp,
                    normal: primitive(d),
                },
            ),
        )
    }
}

// ------------------------------------------------------------- segments

/// The point reported for two segments that meet: the crossing, or the middle
/// of the shared piece.
pub open spec fn line_line_point(us: Line, them: Line) -> Option<Vec2> {
    match intersection(us, them) {
        LineIntersection::Disjoint => None,
        LineIntersection::Intersecting(p) => Some(p),
        LineIntersection::Colinear(l) => Some(lerp(l.start, l.dir(), 1, 2)),
    }
}

/// Two segments that meet touch at the point reported for them, taken in
/// the order [`line_le`], so that the point does not depend on the order of
/// the call.
pub open spec fn line_line(us: Line, them: Line) -> Option<ContactManifold> {
    if line_le(us, them) {
        coincident_at(line_line_point(us, them))
    } else {
        coincident_at(line_line_point(them, us))
    }
}

/// The exact test that two segments come within `sqrt(bound)` of each other:
/// they meet, or an endpoint of one is that near the other.
pub open spec fn segments_within(a: Line, b: Line, bound: int) -> bool {
    intersection(a, b) != LineIntersection::Disjoint || within_sq(b, a.start, bound) || within_sq(
        b,
        a.end,
        bound,
    ) || within_sq(a, b.start, bound) || within_sq(a, b.end, bound)
}

/// A circle touching a segment: the point of the segment nearest the center.
pub open spec fn circle_line_point(us: Circle, them: Line) -> Option<Vec2> {
    if within_sq(them, us.position, us.radius * us.radius) {
        Some(closest_point(them, us.position))
    } else {
        None
    }
}

pub open spec fn circle_line(us: Circle, them: Line) -> Option<ContactManifold> {
    coincident_at(circle_line_point(us, them))
}

/// A capsule touching a segment: the point of the segment nearest the axis.
pub open spec fn capsule_line_point(us: Capsule, them: Line) -> Option<Vec2> {
    if segments_within(us.line, them, us.radius * us.radius) {
        Some(closest_pair(us.line, them).end)
    } else {
        None
    }
}

pub open spec fn capsule_line(us: Capsule, them: Line) -> Option<ContactManifold> {
    coincident_at(capsule_line_point(us, them))
}

/// Two capsules, taken in the order [`capsule_le`] and the result seen from
/// `us`, so that the manifold does not depend on the order of the call.
pub open spec fn capsule_capsule(us: Capsule, them: Capsule) -> Option<ContactManifold> {
    if capsule_le(us, them) {
        capsule_pair(us, them)
    } else {
        flipped(capsule_pair(them, us))
    }
}

/// Crossing axes meet in a point; otherwise axes within the sum of the radii
/// touch along an edge where they are parallel and each clips to the other
/// (a clipped edge may be a single point), and like two circles around their
/// closest points elsewhere. An edge pair that rounding has tilted off
/// parallel is reported as a point contact instead.
pub open spec fn capsule_pair(us: Capsule, them: Capsule) -> Option<ContactManifold> {
    let reach = us.radius + them.radius;
    match intersection(us.line, them.line) {
        LineIntersection::Intersecting(p) => Some(ContactManifold::Coincident(p)),
        LineIntersection::Colinear(l) => Some(ContactManifold::Coincident(l.start)),
        LineIntersection::Disjoint => {
            if !segments_within(us.line, them.line, reach * reach) {
                None
            } else {
                let cp = closest_pair(us.line, them.line);
                let d = cp.dir();
                if is_zero(d) {
                    Some(ContactManifold::Coincident(cp.start))
                } else {
                    let ours = clipped(us.line, them.line);
                    let theirs = clipped(them.line, us.line);
                    if parallel(us.line, them.line) && ours is Some && theirs is Some && parallel(
                        ours->0,
                        theirs->0,
                    ) {
                        Some(
                            ContactManifold::Edge(
                                ContactEdge { us: ours->0, them: theirs->0, normal: primitive(d) },
                            ),
                        )
                    } else {
                        Some(round_contact(cp.start, us.radius as int, cp.end, them.radius as int))
                    }
                }
            }
        },
    }
}

// ---------------------------------------------------------- rectangles

/// The point reported for a segment touching a rectangle: an endpoint inside
/// it, else the first side it meets, in the order left, top, right, bottom.
pub open spec fn line_rect_point(us: Line, them: Rectangle) -> Option<Vec2> {
    if them.contains_spec(us.start) {
        Some(us.start)
    } else if them.contains_spec(us.end) {
        Some(us.end)
    } else if line_line_point(us, Line { start: them.min, end: them.top_left() }) is Some {
        line_line_point(us, Line { start: them.min, end: them.top_left() })
    } else if line_line_point(us, Line { start: them.top_left(), end: them.max }) is Some {
        line_line_point(us, Line { start: them.top_left(), end: them.max })
    } else if line_line_point(us, Line { start: them.bottom_right(), end: them.max }) is Some {
        line_line_point(us, Line { start: them.bottom_right(), end: them.max })
    } else {
        line_line_point(us, Line { start: them.min, end: them.bottom_right() })
    }
}

pub open spec fn line_rect(us: Line, them: Rectangle) -> Option<ContactManifold> {
    coincident_at(line_rect_point(us, them))
}

/// The point reported for a capsule touching a rectangle: an axis endpoint
/// inside it, else the contact with the first side it reaches.
pub open spec fn capsule_rect_point(us: Capsule, them: Rectangle) -> Option<Vec2> {
    if them.contains_spec(us.line.start) {
        Some(us.line.start)
    } else if them.contains_spec(us.line.end) {
        Some(us.line.end)
    } else if capsule_line_point(us, Line { start: them.min, end: them.top_left() }) is Some {
        capsule_line_point(us, Line { start: them.min, end: them.top_left() })
    } else if capsule_line_point(us, Line { start: them.top_left(), end: them.max }) is Some {
        capsule_line_point(us, Line { start: them.top_left(), end: them.max })
    } else if capsule_line_point(us, Line { start: them.bottom_right(), end: them.max }) is Some {
        capsule_line_point(us, Line { start: them.bottom_right(), end: them.max })
    } else {
        capsule_line_point(us, Line { start: them.min, end: them.bottom_right() })
    }
}

pub open spec fn capsule_rect(us: Capsule, them: Rectangle) -> Option<ContactManifold> {
    coincident_at(capsule_rect_point(us, them))
}

/// The penetration depths of two rectangles, in the order left, top, right,
/// bottom.
pub open spec fn depths(us: Rectangle, them: Rectangle) -> (int, int, int, int) {
    (
        them.max.x - us.min.x,
        us.max.y - them.min.y,
        us.max.x - them.min.x,
        them.max.y - us.min.y,
    )
}

/// Overlapping rectangles touch along the sides of their common part on the
/// axis of least penetration (the first of left, top, right, bottom on a tie).
pub open spec fn rect_rect(us: Rectangle, them: Rectangle) -> Option<ContactManifold> {
    let (left, top, right, bottom) = depths(us, them);
    let i = us.intersect_spec(them);
    let l = Line { start: i.min, end: i.top_left() };
    let t = Line { start: i.top_left(), end: i.max };
    let r = Line { start: i.bottom_right(), end: i.max };
    let b = Line { start: i.min, end: i.bottom_right() };
    if left < 0 || top < 0 || right < 0 || bottom < 0 {
        None
    } else if left <= top && left <= right && left <= bottom {
        Some(ContactManifold::Edge(ContactEdge { us: l, them: r, normal: Vec2 { x: -1i64, y: 0 } }))
    } else if top <= right && top <= bottom {
        Some(ContactManifold::Edge(ContactEdge { us: t, them: b, normal: Vec2 { x: 0, y: 1 } }))
    } else if right <= bottom {
        Some(ContactManifold::Edge(ContactEdge { us: r, them: l, normal: Vec2 { x: 1, y: 0 } }))
    } else {
        Some(ContactManifold::Edge(ContactEdge { us: b, them: t, normal: Vec2 { x: 0, y: -1i64 } }))
    }
}

// ------------------------------------------------------------- polygons

/// A shape probed against the edges of a polygon.
#[derive(Clone, Copy, Debug, PartialEq, Eq, Structural)]
pub enum EdgeProbe {
    Line(Line),
    Circle(Circle),
    Capsule(Capsule),
    Rectangle(Rectangle),
}

impl EdgeProbe {
    pub open spec fn wf(self) -> bool {
        match self {
            EdgeProbe::Line(l) => l.wf(),
            EdgeProbe::Circle(c) => c.wf(),
            EdgeProbe::Capsule(k) => k.wf(),
            EdgeProbe::Rectangle(r) => r.wf(),
        }
    }
}

/// The point where the probed shape touches the edge `e`, if it does.
pub open spec fn probe_hit(e: Line, probe: EdgeProbe) -> Option<Vec2> {
    match probe {
        EdgeProbe::Line(l) => line_line_point(e, l),
        EdgeProbe::Circle(c) => circle_line_point(c, e),
        EdgeProbe::Capsule(k) => capsule_line_point(k, e),
        EdgeProbe::Rectangle(r) => line_rect_point(e, r),
    }
}

/// The hit on the first edge, from edge `i` on, that the probe touches.
pub open spec fn first_hit(vs: Seq<Vec2>, probe: EdgeProbe, i: int) -> Option<Vec2>
    decreases edge_count(vs.len() as int) - i,
{
    if i < 0 || i >= edge_count(vs.len() as int) {
        None
    } else if probe_hit(edge_of(vs, i), probe) is Some {
        probe_hit(edge_of(vs, i), probe)
    } else {
        first_hit(vs, probe, i + 1)
    }
}

/// The first vertex of `vs`, from vertex `i` on, that lies in the polygon `ws`.
pub open spec fn first_inside(vs: Seq<Vec2>, ws: Seq<Vec2>, i: int) -> Option<Vec2>
    decreases vs.len() - i,
{
    if i < 0 || i >= vs.len() {
        None
    } else if polygon_contains(ws, vs[i]) {
        Some(vs[i])
    } else {
        first_inside(vs, ws, i + 1)
    }
}

/// The first crossing, from edge `i` of `vs` on, of an edge of `vs` with an
/// edge of `ws`.
pub open spec fn first_crossing(vs: Seq<Vec2>, ws: Seq<Vec2>, i: int) -> Option<Vec2>
    decreases edge_count(vs.len() as int) - i,
{
    if i < 0 || i >= edge_count(vs.len() as int) {
        None
    } else if first_hit(ws, EdgeProbe::Line(edge_of(vs, i)), 0) is Some {
        first_hit(ws, EdgeProbe::Line(edge_of(vs, i)), 0)
    } else {
        first_crossing(vs, ws, i + 1)
    }
}

/// A point of contact of a polygon with a shape: the shape's own point
/// `inner` where the polygon contains it, else the first edge hit.
pub open spec fn polygon_probe(vs: Seq<Vec2>, inner: Seq<Vec2>, probe: EdgeProbe) -> Option<Vec2>
    decreases inner.len(),
{
    if inner.len() > 0 && polygon_contains(vs, inner[0]) {
        Some(inner[0])
    } else if inner.len() > 0 {
        polygon_probe(vs, inner.drop_first(), probe)
    } else {
        first_hit(vs, probe, 0)
    }
}

pub open spec fn polygon_line(us: Seq<Vec2>, them: Line) -> Option<ContactManifold> {
    coincident_at(polygon_probe(us, seq![them.start, them.end], EdgeProbe::Line(them)))
}

pub open spec fn polygon_circle(us: Seq<Vec2>, them: Circle) -> Option<ContactManifold> {
    coincident_at(polygon_probe(us, seq![them.position], EdgeProbe::Circle(them)))
}

pub open spec fn polygon_capsule(us: Seq<Vec2>, them: Capsule) -> Option<ContactManifold> {
    coincident_at(
        polygon_probe(us, seq![them.line.start, them.line.end], EdgeProbe::Capsule(them)),
    )
}

pub open spec fn polygon_rect(us: Seq<Vec2>, them: Rectangle) -> Option<ContactManifold> {
    coincident_at(
        polygon_probe(
            us,
            seq![them.min, them.top_left(), them.max, them.bottom_right()],
            EdgeProbe::Rectangle(them),
        ),
    )
}

/// Two polygons, taken in the order [`vertices_le`], so that the witness
/// does not depend on the order of the call.
pub open spec fn polygon_polygon(us: Seq<Vec2>, them: Seq<Vec2>) -> Option<ContactManifold> {
    if vertices_le(us, them, 0) {
        polygon_pair(us, them)
    } else {
        polygon_pair(them, us)
    }
}

/// A vertex of one polygon inside the other, else the first crossing of
/// their edges.
pub open spec fn polygon_pair(us: Seq<Vec2>, them: Seq<Vec2>) -> Option<ContactManifold> {
    if first_inside(us, them, 0) is Some {
        coincident_at(first_inside(us, them, 0))
    } else if first_inside(them, us, 0) is Some {
        coincident_at(first_inside(them, us, 0))
    } else {
        coincident_at(first_crossing(us, them, 0))
    }
}

// ------------------------------------------------------- executable code

/// Two vertical segments, or two horizontal ones, are parallel.
proof fn lemma_axis_parallel(a: Line, b: Line)
    requires
        a.wf(),
        b.wf(),
        (a.start.x == a.end.x && b.start.x == b.end.x) || (a.start.y == a.end.y && b.start.y
            == b.end.y),
    ensures
        parallel(a, b),
{
    let (u, v) = (a.dir(), b.dir());
    if a.start.x == a.end.x && b.start.x == b.end.x {
        assert(u.x == 0 && v.x == 0);
        assert(u.x * v.y == 0 && u.y * v.x == 0) by (nonlinear_arith)
            requires
                u.x == 0,
                v.x == 0,
        ;
    } else {
        assert(u.y == 0 && v.y == 0);
        assert(u.x * v.y == 0 && u.y * v.x == 0) by (nonlinear_arith)
            requires
                u.y == 0,
                v.y == 0,
        ;
    }
}

proof fn lemma_round_contact_ok(p: Vec2, r1: int, q: Vec2, r2: int)
    requires
        p.wf(),
        q.wf(),
        crate::circle::radius_ok(r1),
        crate::circle::radius_ok(r2),
        p != q,
    ensures
        round_contact(p, r1, q, r2).wf(),
{
    let d = minus(q, p);
    crate::vec2::lemma_toward_small(d, r1);
    crate::vec2::lemma_toward_small(d, r2);
    crate::vec2::lemma_primitive_small(d);
}

/// Circle contacts have valid normals and points in range.
pub proof fn lemma_circle_circle_ok(c1: Circle, c2: Circle)
    requires
        c1.wf(),
        c2.wf(),
    ensures
        manifold_ok(circle_circle(c1, c2)),
{
    if c1.position != c2.position {
        lemma_round_contact_ok(c1.position, c1.radius as int, c2.position, c2.radius as int);
    }
}

/// Capsule-circle contacts have valid normals and points in range.
pub proof fn lemma_capsule_circle_ok(k: Capsule, c: Circle)
    requires
        k.wf(),
        c.wf(),
    ensures
        manifold_ok(capsule_circle(k, c)),
{
    crate::line::lemma_closest_point_wf(k.line, c.position);
    let p = closest_point(k.line, c.position);
    if p != c.position {
        lemma_round_contact_ok(p, k.radius as int, c.position, c.radius as int);
    }
}

/// Circle-rectangle contacts have valid normals and points in range.
pub proof fn lemma_circle_rect_ok(c: Circle, r: Rectangle)
    requires
        c.wf(),
        r.wf(),
    ensures
        manifold_ok(circle_rect(c, r)),
{
    let (cp, inside) = crate::rect::perimeter_point(r, c.position);
    let d = if !inside {
        minus(cp, c.position)
    } else if cp == c.position {
        crate::rect::wall_normal(r, c.position)
    } else {
        minus(c.position, cp)
    };
    crate::vec2::lemma_toward_small(d, c.radius as int);
    crate::vec2::lemma_primitive_small(d);
}

/// Capsule-capsule contacts have valid normals, parallel edges and points in
/// range.
pub proof fn lemma_capsule_capsule_ok(k1: Capsule, k2: Capsule)
    requires
        k1.wf(),
        k2.wf(),
    ensures
        manifold_ok(capsule_capsule(k1, k2)),
{
    lemma_capsule_pair_ok(k1, k2);
    lemma_capsule_pair_ok(k2, k1);
    if let Some(m) = capsule_pair(k2, k1) {
        crate::contact::lemma_neg_involutive(m);
    }
}

/// Rectangle contacts have axis normals and parallel edges.
pub proof fn lemma_rect_rect_ok(r1: Rectangle, r2: Rectangle)
    requires
        r1.wf(),
        r2.wf(),
    ensures
        manifold_ok(rect_rect(r1, r2)),
{
    let i = r1.intersect_spec(r2);
    lemma_axis_parallel(Line { start: i.min, end: i.top_left() }, Line { start: i.bottom_right(), end: i.max });
    lemma_axis_parallel(Line { start: i.bottom_right(), end: i.max }, Line { start: i.min, end: i.top_left() });
    lemma_axis_parallel(Line { start: i.top_left(), end: i.max }, Line { start: i.min, end: i.bottom_right() });
    lemma_axis_parallel(Line { start: i.min, end: i.bottom_right() }, Line { start: i.top_left(), end: i.max });
}

pub proof fn lemma_capsule_pair_ok(k1: Capsule, k2: Capsule)
    requires
        k1.wf(),
        k2.wf(),
    ensures
        manifold_ok(capsule_pair(k1, k2)),
{
    crate::line::lemma_closest_pair_wf(k1.line, k2.line);
    let pair = closest_pair(k1.line, k2.line);
    if !is_zero(pair.dir()) {
        crate::vec2::lemma_primitive_small(pair.dir());
        lemma_round_contact_ok(pair.start, k1.radius as int, pair.end, k2.radius as int);
    }
}

/// Two circles seen in the reverse order give the same contact seen from the
/// other circle.
pub proof fn lemma_circle_circle_symmetric(a: Circle, b: Circle)
    requires
        a.wf(),
        b.wf(),
    ensures
        circle_circle(b, a) == flipped(circle_circle(a, b)),
{
    let (p, q) = (a.position, b.position);
    assert((q.x - p.x) * (q.x - p.x) == (p.x - q.x) * (p.x - q.x)) by (nonlinear_arith);
    assert((q.y - p.y) * (q.y - p.y) == (p.y - q.y) * (p.y - q.y)) by (nonlinear_arith);
    assert(dist_sq(p, q) == dist_sq(q, p));
    if p != q {
        let d = minus(q, p);
        let e = minus(p, q);
        assert(e == Vec2 { x: (-d.x) as i64, y: (-d.y) as i64 });
        crate::vec2::lemma_toward_neg(d, a.radius as int);
        crate::vec2::lemma_toward_neg(d, b.radius as int);
        crate::vec2::lemma_toward_small(d, a.radius as int);
        crate::vec2::lemma_toward_small(d, b.radius as int);
        crate::vec2::lemma_primitive_neg(d);
        crate::vec2::lemma_primitive_small(d);
    }
}

/// Two circles centered on the x axis, at the origin and at `(d, 0)`, touch
/// when `d` is the sum of their radii, at `(r1, 0)` on both, with normal
/// `(1, 0)`; they are apart when `d` exceeds that sum.
pub proof fn lemma_circle_circle_boundary(r1: i64, r2: i64, d: i64)
    requires
        crate::circle::radius_ok(r1 as int),
        crate::circle::radius_ok(r2 as int),
        crate::vec2::coord_ok(d as int),
        d >= 0,
    ensures
        d == r1 + r2 && d > 0 ==> circle_circle(
            Circle { position: Vec2 { x: 0, y: 0 }, radius: r1 },
            Circle { position: Vec2 { x: d, y: 0 }, radius: r2 },
        ) == Some(
            ContactManifold::Point(
                ContactPoint { us: Vec2 { x: r1, y: 0 }, them: Vec2 { x: r1, y: 0 }, normal: Vec2 { x: 1, y: 0 } },
            ),
        ),
        d > r1 + r2 ==> circle_circle(
            Circle { position: Vec2 { x: 0, y: 0 }, radius: r1 },
            Circle { position: Vec2 { x: d, y: 0 }, radius: r2 },
        ) is None,
{
    let p = Vec2 { x: 0, y: 0 };
    let q = Vec2 { x: d, y: 0 };
    assert(dist_sq(p, q) == d * d) by (nonlinear_arith)
        requires
            p.x == 0 && p.y == 0 && q.x == d && q.y == 0,
    ;
    if d > r1 + r2 {
        assert(d * d > (r1 + r2) * (r1 + r2)) by (nonlinear_arith)
            requires
                d > r1 + r2,
                r1 + r2 >= 0,
        ;
    }
    if d == r1 + r2 && d > 0 {
        let dir = minus(q, p);
        assert(dir == q);
        assert(dot(dir, dir) == d * d) by (nonlinear_arith)
            requires
                dir.x == d && dir.y == 0,
        ;
        let dd = d * d;
        assert(dd > 0) by (nonlinear_arith)
            requires
                d > 0,
                dd == d * d,
        ;
        assert((d * r1) * (d * r1) == dd * (r1 * r1)) by (nonlinear_arith)
            requires
                dd == d * d,
        ;
        assert((d * r2) * (d * r2) == dd * (r2 * r2)) by (nonlinear_arith)
            requires
                dd == d * d,
        ;
        vstd::arithmetic::div_mod::lemma_div_multiples_vanish(r1 * r1, dd);
        vstd::arithmetic::div_mod::lemma_div_multiples_vanish(r2 * r2, dd);
        crate::arith::lemma_isqrt_square(r1 as nat);
        crate::arith::lemma_isqrt_square(r2 as nat);
        crate::vec2::lemma_scaled_coord(0, r1 as int, dd);
        crate::vec2::lemma_scaled_coord(0, r2 as int, dd);
        assert(0 * 0 <= dd);
        vstd::arithmetic::div_mod::lemma_div_by_self(d as int);
        assert(crate::arith::gcd(d as nat, 0) == d);
    }
}

/// The square of the sum of two radii.
fn reach_squared(r1: i64, r2: i64) -> (r: i64)
    requires
        crate::circle::radius_ok(r1 as int),
        crate::circle::radius_ok(r2 as int),
    ensures
        r == (r1 + r2) * (r1 + r2),
        0 <= r <= 0x20_0000_0000_0000,
{
    let s = r1 + r2;
    proof {
        crate::vec2::lemma_mul_bound(s as int, s as int, 0x80_0000, 0x80_0000);
        crate::vec2::lemma_sq_nonneg(s as int);
    }
    s * s
}

fn round_contact_exec(p: Vec2, r1: i64, q: Vec2, r2: i64) -> (r: ContactManifold)
    requires
        p.wf(),
        q.wf(),
        crate::circle::radius_ok(r1 as int),
        crate::circle::radius_ok(r2 as int),
        p != q,
    ensures
        r == round_contact(p, r1 as int, q, r2 as int),
        r.wf(),
{
    let d = q.sub(p);
    let a = d.toward(r1);
    let b = d.toward(r2);
    ContactManifold::point(
        Vec2::new(p.x + a.x, p.y + a.y),
        Vec2::new(q.x - b.x, q.y - b.y),
        d.primitive(),
    )
}

fn coincident_exec(p: Option<Vec2>) -> (r: Option<ContactManifold>)
    ensures
        r == coincident_at(p),
        manifold_ok(r),
{
    match p {
        Some(q) => Some(ContactManifold::Coincident(q)),
        None => None,
    }
}

/// The manifold seen from the other shape.
pub fn flip(m: Option<ContactManifold>) -> (r: Option<ContactManifold>)
    requires
        manifold_ok(m),
    ensures
        r == flipped(m),
        manifold_ok(r),
{
    match m {
        Some(c) => Some(c.neg()),
        None => None,
    }
}

pub fn collide_point_point(us: &Point, them: &Point) -> (r: Option<ContactManifold>)
    ensures
        r == point_point(*us, *them),
        manifold_ok(r),
{
    if us.0 == them.0 {
        Some(ContactManifold::coincident(us.0))
    } else {
        None
    }
}

pub fn collide_point_rect(us: &Point, them: &Rectangle) -> (r: Option<ContactManifold>)
    ensures
        r == point_rect(*us, *them),
        manifold_ok(r),
{
    if them.contains(us.0) {
        Some(ContactManifold::coincident(us.0))
    } else {
        None
    }
}

pub fn collide_point_polygon(us: &Point, them: &Polygon) -> (r: Option<ContactManifold>)
    requires
        us.wf(),
        them.wf(),
    ensures
        r == point_polygon(*us, them.vertices@),
        manifold_ok(r),
{
    if them.contains(us.0) {
        Some(ContactManifold::coincident(us.0))
    } else {
        None
    }
}

pub fn collide_circle_point(us: &Circle, them: &Point) -> (r: Option<ContactManifold>)
    requires
        us.wf(),
        them.wf(),
    ensures
        r == circle_point(*us, *them),
        manifold_ok(r),
{
    if us.contains(them.0) {
        Some(ContactManifold::coincident(them.0))
    } else {
        None
    }
}

pub fn collide_capsule_point(us: &Capsule, them: &Point) -> (r: Option<ContactManifold>)
    requires
        us.wf(),
        them.wf(),
    ensures
        r == capsule_point(*us, *them),
        manifold_ok(r),
{
    if us.contains(them.0) {
        Some(ContactManifold::coincident(them.0))
    } else {
        None
    }
}

pub fn collide_line_point(us: &Line, them: &Point) -> (r: Option<ContactManifold>)
    requires
        us.wf(),
        them.wf(),
    ensures
        r == line_point(*us, *them),
        manifold_ok(r),
{
    if us.within_distance_squared(&them.0, 0) {
        Some(ContactManifold::coincident(them.0))
    } else {
        None
    }
}

pub fn collide_circle_circle(us: &Circle, them: &Circle) -> (r: Option<ContactManifold>)
    requires
        us.wf(),
        them.wf(),
    ensures
        r == circle_circle(*us, *them),
        manifold_ok(r),
{
    if us.position.distance_squared(them.position) > reach_squared(us.radius, them.radius) {
        None
    } else if us.position == them.position {
        Some(ContactManifold::coincident(us.position))
    } else {
        Some(round_contact_exec(us.position, us.radius, them.position, them.radius))
    }
}

pub fn collide_capsule_circle(us: &Capsule, them: &Circle) -> (r: Option<ContactManifold>)
    requires
        us.wf(),
        them.wf(),
    ensures
        r == capsule_circle(*us, *them),
        manifold_ok(r),
{
    if !us.line.within_distance_squared(&them.position, reach_squared(us.radius, them.radius)) {
        return None;
    }
    let c = us.line.closest_point_to_point(&them.position);
    if c == them.position {
        Some(ContactManifold::coincident(them.position))
    } else {
        Some(round_contact_exec(c, us.radius, them.position, them.radius))
    }
}

pub fn collide_circle_rect(us: &Circle, them: &Rectangle) -> (r: Option<ContactManifold>)
    requires
        us.wf(),
        them.wf(),
    ensures
        r == circle_rect(*us, *them),
        manifold_ok(r),
{
    let (cp, inside) = them.closest_point_on_perimeter(us.position);
    let d = if !inside {
        cp.sub(us.position)
    } else if cp == us.position {
        them.wall_normal(us.position)
    } else {
        us.position.sub(cp)
    };
    if !inside && !us.contains(cp) {
        None
    } else {
        Some(ContactManifold::point(us.support_point(d), cp, d.primitive()))
    }
}

fn line_line_point_exec(us: &Line, them: &Line) -> (r: Option<Vec2>)
    requires
        us.wf(),
        them.wf(),
    ensures
        r == line_line_point(*us, *them),
        r matches Some(p) ==> p.wf(),
{
    match us.intersect_line(them) {
        LineIntersection::Disjoint => None,
        LineIntersection::Intersecting(p) => Some(p),
        LineIntersection::Colinear(l) => Some(l.midpoint()),
    }
}

pub fn collide_line_line(us: &Line, them: &Line) -> (r: Option<ContactManifold>)
    requires
        us.wf(),
        them.wf(),
    ensures
        r == line_line(*us, *them),
        manifold_ok(r),
{
    if line_le_exec(us, them) {
        coincident_exec(line_line_point_exec(us, them))
    } else {
        coincident_exec(line_line_point_exec(them, us))
    }
}

fn segments_within_exec(a: &Line, b: &Line, bound: i64) -> (r: bool)
    requires
        a.wf(),
        b.wf(),
        0 <= bound <= 0x20_0000_0000_0000,
    ensures
        r == segments_within(*a, *b, bound as int),
{
    !matches!(a.intersect_line(b), LineIntersection::Disjoint) || b.within_distance_squared(
        &a.start,
        bound,
    ) || b.within_distance_squared(&a.end, bound) || a.within_distance_squared(&b.start, bound)
        || a.within_distance_squared(&b.end, bound)
}

fn circle_line_point_exec(us: &Circle, them: &Line) -> (r: Option<Vec2>)
    requires
        us.wf(),
        them.wf(),
    ensures
        r == circle_line_point(*us, *them),
        r matches Some(p) ==> p.wf(),
{
    if them.within_distance_squared(&us.position, us.radius_squared()) {
        Some(them.closest_point_to_point(&us.position))
    } else {
        None
    }
}

pub fn collide_circle_line(us: &Circle, them: &Line) -> (r: Option<ContactManifold>)
    requires
        us.wf(),
        them.wf(),
    ensures
        r == circle_line(*us, *them),
        manifold_ok(r),
{
    coincident_exec(circle_line_point_exec(us, them))
}

fn capsule_line_point_exec(us: &Capsule, them: &Line) -> (r: Option<Vec2>)
    requires
        us.wf(),
        them.wf(),
    ensures
        r == capsule_line_point(*us, *them),
        r matches Some(p) ==> p.wf(),
{
    if segments_within_exec(&us.line, them, us.radius_squared()) {
        Some(us.line.closest_point_to_line(them).end)
    } else {
        None
    }
}

pub fn collide_capsule_line(us: &Capsule, them: &Line) -> (r: Option<ContactManifold>)
    requires
        us.wf(),
        them.wf(),
    ensures
        r == capsule_line(*us, *them),
        manifold_ok(r),
{
    coincident_exec(capsule_line_point_exec(us, them))
}

pub fn collide_capsule_capsule(us: &Capsule, them: &Capsule) -> (r: Option<ContactManifold>)
    requires
        us.wf(),
        them.wf(),
    ensures
        r == capsule_capsule(*us, *them),
        manifold_ok(r),
{
    if capsule_le_exec(us, them) {
        capsule_pair_exec(us, them)
    } else {
        flip(capsule_pair_exec(them, us))
    }
}

fn capsule_pair_exec(us: &Capsule, them: &Capsule) -> (r: Option<ContactManifold>)
    requires
        us.wf(),
        them.wf(),
    ensures
        r == capsule_pair(*us, *them),
        manifold_ok(r),
{
    match us.line.intersect_line(&them.line) {
        LineIntersection::Intersecting(p) => Some(ContactManifold::coincident(p)),
        LineIntersection::Colinear(l) => Some(ContactManifold::coincident(l.start)),
        LineIntersection::Disjoint => {
            if !segments_within_exec(&us.line, &them.line, reach_squared(us.radius, them.radius)) {
                return None;
            }
            let cp = us.line.closest_point_to_line(&them.line);
            let d = cp.as_difference();
            if d.x == 0 && d.y == 0 {
                return Some(ContactManifold::coincident(cp.start));
            }
            if us.line.is_parallel_to(&them.line) {
                if let Some(ours) = us.line.clip_to_parallel_line(&them.line) {
                    if let Some(theirs) = them.line.clip_to_parallel_line(&us.line) {
                        if ours.is_parallel_to(&theirs) {
                            return Some(ContactManifold::edge(ours, theirs, d.primitive()));
                        }
                    }
                }
            }
            Some(round_contact_exec(cp.start, us.radius, cp.end, them.radius))
        },
    }
}

fn line_rect_point_exec(us: &Line, them: &Rectangle) -> (r: Option<Vec2>)
    requires
        us.wf(),
        them.wf(),
    ensures
        r == line_rect_point(*us, *them),
        r matches Some(p) ==> p.wf(),
{
    if them.contains(us.start) {
        return Some(us.start);
    }
    if them.contains(us.end) {
        return Some(us.end);
    }
    let hit = line_line_point_exec(us, &them.left());
    if hit.is_some() {
        return hit;
    }
    let hit = line_line_point_exec(us, &them.top());
    if hit.is_some() {
        return hit;
    }
    let hit = line_line_point_exec(us, &them.right());
    if hit.is_some() {
        return hit;
    }
    line_line_point_exec(us, &them.bottom())
}

pub fn collide_line_rect(us: &Line, them: &Rectangle) -> (r: Option<ContactManifold>)
    requires
        us.wf(),
        them.wf(),
    ensures
        r == line_rect(*us, *them),
        manifold_ok(r),
{
    coincident_exec(line_rect_point_exec(us, them))
}

fn capsule_rect_point_exec(us: &Capsule, them: &Rectangle) -> (r: Option<Vec2>)
    requires
        us.wf(),
        them.wf(),
    ensures
        r == capsule_rect_point(*us, *them),
        r matches Some(p) ==> p.wf(),
{
    if them.contains(us.line.start) {
        return Some(us.line.start);
    }
    if them.contains(us.line.end) {
        return Some(us.line.end);
    }
    let hit = capsule_line_point_exec(us, &them.left());
    if hit.is_some() {
        return hit;
    }
    let hit = capsule_line_point_exec(us, &them.top());
    if hit.is_some() {
        return hit;
    }
    let hit = capsule_line_point_exec(us, &them.right());
    if hit.is_some() {
        return hit;
    }
    capsule_line_point_exec(us, &them.bottom())
}

pub fn collide_capsule_rect(us: &Capsule, them: &Rectangle) -> (r: Option<ContactManifold>)
    requires
        us.wf(),
        them.wf(),
    ensures
        r == capsule_rect(*us, *them),
        manifold_ok(r),
{
    coincident_exec(capsule_rect_point_exec(us, them))
}

pub fn collide_rect_rect(us: &Rectangle, them: &Rectangle) -> (r: Option<ContactManifold>)
    requires
        us.wf(),
        them.wf(),
    ensures
        r == rect_rect(*us, *them),
        manifold_ok(r),
{
    let left = them.max.x - us.min.x;
    let top = us.max.y - them.min.y;
    let right = us.max.x - them.min.x;
    let bottom = them.max.y - us.min.y;
    if left < 0 || top < 0 || right < 0 || bottom < 0 {
        return None;
    }
    let i = us.intersect(*them);
    proof {
        lemma_axis_parallel(Line { start: i.min, end: i.top_left() }, Line { start: i.bottom_right(), end: i.max });
        lemma_axis_parallel(Line { start: i.bottom_right(), end: i.max }, Line { start: i.min, end: i.top_left() });
        lemma_axis_parallel(Line { start: i.top_left(), end: i.max }, Line { start: i.min, end: i.bottom_right() });
        lemma_axis_parallel(Line { start: i.min, end: i.bottom_right() }, Line { start: i.top_left(), end: i.max });
    }
    if left <= top && left <= right && left <= bottom {
        Some(ContactManifold::edge(i.left(), i.right(), Vec2::new(-1, 0)))
    } else if top <= right && top <= bottom {
        Some(ContactManifold::edge(i.top(), i.bottom(), Vec2::new(0, 1)))
    } else if right <= bottom {
        Some(ContactManifold::edge(i.right(), i.left(), Vec2::new(1, 0)))
    } else {
        Some(ContactManifold::edge(i.bottom(), i.top(), Vec2::new(0, -1)))
    }
}

fn probe_hit_exec(e: &Line, probe: &EdgeProbe) -> (r: Option<Vec2>)
    requires
        e.wf(),
        probe.wf(),
    ensures
        r == probe_hit(*e, *probe),
        r matches Some(p) ==> p.wf(),
{
    match probe {
        EdgeProbe::Line(l) => line_line_point_exec(e, l),
        EdgeProbe::Circle(c) => circle_line_point_exec(c, e),
        EdgeProbe::Capsule(k) => capsule_line_point_exec(k, e),
        EdgeProbe::Rectangle(r) => line_rect_point_exec(e, r),
    }
}

/// The hit on the first edge of `poly` that the probe touches.
fn first_hit_exec(poly: &Polygon, probe: &EdgeProbe) -> (r: Option<Vec2>)
    requires
        poly.wf(),
        probe.wf(),
    ensures
        r == first_hit(poly.vertices@, *probe, 0),
        r matches Some(p) ==> p.wf(),
{
    let n = poly.vertices.len();
    let count = if n >= 2 { n } else { 0 };
    let mut i: usize = 0;
    while i < count
        invariant
            poly.wf(),
            probe.wf(),
            n == poly.vertices@.len(),
            count == edge_count(n as int),
            i <= count,
            first_hit(poly.vertices@, *probe, 0) == first_hit(poly.vertices@, *probe, i as int),
        decreases count - i,
    {
        let e = poly.edge(i);
        assert(e.wf());
        let hit = probe_hit_exec(&e, probe);
        if hit.is_some() {
            return hit;
        }
        i = i + 1;
    }
    None
}

/// The first vertex of `us` that lies in `them`.
fn first_inside_exec(us: &Polygon, them: &Polygon) -> (r: Option<Vec2>)
    requires
        us.wf(),
        them.wf(),
    ensures
        r == first_inside(us.vertices@, them.vertices@, 0),
        r matches Some(p) ==> p.wf(),
{
    let n = us.vertices.len();
    let mut i: usize = 0;
    while i < n
        invariant
            us.wf(),
            them.wf(),
            n == us.vertices@.len(),
            i <= n,
            first_inside(us.vertices@, them.vertices@, 0) == first_inside(
                us.vertices@,
                them.vertices@,
                i as int,
            ),
        decreases n - i,
    {
        let v = us.vertices[i];
        if them.contains(v) {
            return Some(v);
        }
        i = i + 1;
    }
    None
}

/// The first crossing of an edge of `us` with an edge of `them`.
fn first_crossing_exec(us: &Polygon, them: &Polygon) -> (r: Option<Vec2>)
    requires
        us.wf(),
        them.wf(),
    ensures
        r == first_crossing(us.vertices@, them.vertices@, 0),
        r matches Some(p) ==> p.wf(),
{
    let n = us.vertices.len();
    let count = if n >= 2 { n } else { 0 };
    let mut i: usize = 0;
    while i < count
        invariant
            us.wf(),
            them.wf(),
            n == us.vertices@.len(),
            count == edge_count(n as int),
            i <= count,
            first_crossing(us.vertices@, them.vertices@, 0) == first_crossing(
                us.vertices@,
                them.vertices@,
                i as int,
            ),
        decreases count - i,
    {
        let e = us.edge(i);
        assert(e.wf());
        let hit = first_hit_exec(them, &EdgeProbe::Line(e));
        if hit.is_some() {
            return hit;
        }
        i = i + 1;
    }
    None
}

/// A point of contact of the polygon with a shape: the first of the shape's
/// own points `inner` that the polygon contains, else the first edge hit.
fn polygon_probe_exec(us: &Polygon, inner: &Vec<Vec2>, probe: &EdgeProbe) -> (r: Option<Vec2>)
    requires
        us.wf(),
        probe.wf(),
        forall|i: int| 0 <= i < inner@.len() ==> (#[trigger] inner@[i]).wf(),
    ensures
        r == polygon_probe(us.vertices@, inner@, *probe),
        r matches Some(p) ==> p.wf(),
{
    let n = inner.len();
    let mut i: usize = 0;
    assert(inner@.subrange(0, n as int) =~= inner@);
    while i < n
        invariant
            us.wf(),
            probe.wf(),
            n == inner@.len(),
            i <= n,
            forall|j: int| 0 <= j < inner@.len() ==> (#[trigger] inner@[j]).wf(),
            polygon_probe(us.vertices@, inner@, *probe) == polygon_probe(
                us.vertices@,
                inner@.subrange(i as int, n as int),
                *probe,
            ),
        decreases n - i,
    {
        let rest = Ghost(inner@.subrange(i as int, n as int));
        assert(rest@[0] == inner@[i as int]);
        assert(rest@.drop_first() =~= inner@.subrange(i + 1, n as int));
        if us.contains(inner[i]) {
            return Some(inner[i]);
        }
        i = i + 1;
    }
    assert(inner@.subrange(n as int, n as int) =~= Seq::<Vec2>::empty());
    first_hit_exec(us, probe)
}

pub fn collide_polygon_line(us: &Polygon, them: &Line) -> (r: Option<ContactManifold>)
    requires
        us.wf(),
        them.wf(),
    ensures
        r == polygon_line(us.vertices@, *them),
        manifold_ok(r),
{
    let inner = vec![them.start, them.end];
    assert(inner@ =~= seq![them.start, them.end]);
    coincident_exec(polygon_probe_exec(us, &inner, &EdgeProbe::Line(*them)))
}

pub fn collide_polygon_circle(us: &Polygon, them: &Circle) -> (r: Option<ContactManifold>)
    requires
        us.wf(),
        them.wf(),
    ensures
        r == polygon_circle(us.vertices@, *them),
        manifold_ok(r),
{
    let inner = vec![them.position];
    assert(inner@ =~= seq![them.position]);
    coincident_exec(polygon_probe_exec(us, &inner, &EdgeProbe::Circle(*them)))
}

pub fn collide_polygon_capsule(us: &Polygon, them: &Capsule) -> (r: Option<ContactManifold>)
    requires
        us.wf(),
        them.wf(),
    ensures
        r == polygon_capsule(us.vertices@, *them),
        manifold_ok(r),
{
    let inner = vec![them.line.start, them.line.end];
    assert(inner@ =~= seq![them.line.start, them.line.end]);
    coincident_exec(polygon_probe_exec(us, &inner, &EdgeProbe::Capsule(*them)))
}

pub fn collide_polygon_rect(us: &Polygon, them: &Rectangle) -> (r: Option<ContactManifold>)
    requires
        us.wf(),
        them.wf(),
    ensures
        r == polygon_rect(us.vertices@, *them),
        manifold_ok(r),
{
    let inner = vec![them.min, them.top_left_corner(), them.max, them.bottom_right_corner()];
    assert(inner@ =~= seq![them.min, them.top_left(), them.max, them.bottom_right()]);
    coincident_exec(polygon_probe_exec(us, &inner, &EdgeProbe::Rectangle(*them)))
}

pub fn collide_polygon_polygon(us: &Polygon, them: &Polygon) -> (r: Option<ContactManifold>)
    requires
        us.wf(),
        them.wf(),
    ensures
        r == polygon_polygon(us.vertices@, them.vertices@),
        manifold_ok(r),
{
    if vertices_le_exec(us, them) {
        polygon_pair_exec(us, them)
    } else {
        polygon_pair_exec(them, us)
    }
}

fn polygon_pair_exec(us: &Polygon, them: &Polygon) -> (r: Option<ContactManifold>)
    requires
        us.wf(),
        them.wf(),
    ensures
        r == polygon_pair(us.vertices@, them.vertices@),
        manifold_ok(r),
{
    let ours = first_inside_exec(us, them);
    if ours.is_some() {
        return coincident_exec(ours);
    }
    let theirs = first_inside_exec(them, us);
    if theirs.is_some() {
        return coincident_exec(theirs);
    }
    coincident_exec(first_crossing_exec(us, them))
}

pub fn collide_capsule_polygon(us: &Capsule, them: &Polygon) -> (r: Option<ContactManifold>)
    requires
        us.wf(),
        them.wf(),
    ensures
        r == flipped(polygon_capsule(them.vertices@, *us)),
        manifold_ok(r),
{
    flip(collide_polygon_capsule(them, us))
}

pub fn collide_circle_polygon(us: &Circle, them: &Polygon) -> (r: Option<ContactManifold>)
    requires
        us.wf(),
        them.wf(),
    ensures
        r == flipped(polygon_circle(them.vertices@, *us)),
        manifold_ok(r),
{
    flip(collide_polygon_circle(them, us))
}

pub fn collide_line_polygon(us: &Line, them: &Polygon) -> (r: Option<ContactManifold>)
    requires
        us.wf(),
        them.wf(),
    ensures
        r == flipped(polygon_line(them.vertices@, *us)),
        manifold_ok(r),
{
    flip(collide_polygon_line(them, us))
}

} // verus!
