use crate::arith::{div_trunc, div_trunc_i128, lemma_div_trunc_bounds};
use crate::vec2::{dot, lemma_mul_bound, minus, perp_dot, Vec2, DIFF_LIMIT};
use vstd::prelude::*;

verus! {

/// Where two segments meet.
#[derive(Clone, Copy, Debug, PartialEq, Eq, Structural)]
pub enum LineIntersection {
    Disjoint,
    Intersecting(Vec2),
    Colinear(Line),
}

/// `n / d` lies in `[0, 1]`, for a nonzero `d`.
pub open spec fn in_unit(n: int, d: int) -> bool {
    if d > 0 {
        0 <= n <= d
    } else {
        d <= n <= 0
    }
}

/// `start + dir * n / d`, each coordinate rounded toward zero, for `d > 0`.
pub open spec fn lerp(start: Vec2, dir: Vec2, n: int, d: int) -> Vec2 {
    Vec2 {
        x: (start.x + div_trunc(dir.x * n, d)) as i64,
        y: (start.y + div_trunc(dir.y * n, d)) as i64,
    }
}

/// The exact point `start + dir * n / d`, each coordinate rounded toward
/// zero as a whole, for `d > 0`.
pub open spec fn grid_point(start: Vec2, dir: Vec2, n: int, d: int) -> Vec2 {
    Vec2 {
        x: div_trunc(start.x * d + dir.x * n, d) as i64,
        y: div_trunc(start.y * d + dir.y * n, d) as i64,
    }
}

/// The point of parameter `n / d` on `l`, for a nonzero `d`: the exact point,
/// each coordinate rounded toward zero, so that it does not depend on which
/// end of which segment it is measured from.
pub open spec fn param_point(l: Line, n: int, d: int) -> Vec2 {
    if d > 0 {
        grid_point(l.start, l.dir(), n, d)
    } else {
        grid_point(l.start, l.dir(), -n, -d)
    }
}

/// The overlap of two colinear proper segments, found by projecting `a` onto
/// the direction of `b`.
pub open spec fn colinear_overlap(a: Line, b: Line) -> LineIntersection {
    let v = b.dir();
    let c = dot(v, v);
    let p0 = dot(minus(a.start, b.start), v);
    let p1 = dot(minus(a.end, b.start), v);
    let lo = if p0 <= p1 { p0 } else { p1 };
    let hi = if p0 <= p1 { p1 } else { p0 };
    let lo_pt = if p0 <= p1 { a.start } else { a.end };
    let hi_pt = if p0 <= p1 { a.end } else { a.start };
    if lo > c || hi < 0 {
        LineIntersection::Disjoint
    } else {
        let from = if lo <= 0 { b.start } else { lo_pt };
        let to = if hi >= c { b.end } else { hi_pt };
        let lo_c = if lo <= 0 { 0 } else { lo };
        let hi_c = if hi >= c { c } else { hi };
        if lo_c == hi_c {
            LineIntersection::Intersecting(from)
        } else {
            LineIntersection::Colinear(Line { start: from, end: to })
        }
    }
}

/// The intersection of two segments: the perp-dot parametric method, with the
/// parallel, colinear and degenerate cases told apart.
pub open spec fn intersection(a: Line, b: Line) -> LineIntersection {
    let u = a.dir();
    let v = b.dir();
    let w = minus(a.start, b.start);
    let d = perp_dot(u, v);
    if d != 0 {
        if in_unit(perp_dot(v, w), d) && in_unit(perp_dot(u, w), d) {
            LineIntersection::Intersecting(param_point(a, perp_dot(v, w), d))
        } else {
            LineIntersection::Disjoint
        }
    } else if perp_dot(u, w) != 0 || perp_dot(v, w) != 0 {
        LineIntersection::Disjoint
    } else if a.start == a.end && b.start == b.end {
        if a == b {
            LineIntersection::Intersecting(a.start)
        } else {
            LineIntersection::Disjoint
        }
    } else if a.start == a.end {
        if b.covers_colinear(a.start) {
            LineIntersection::Intersecting(a.start)
        } else {
            LineIntersection::Disjoint
        }
    } else if b.start == b.end {
        if a.covers_colinear(b.start) {
            LineIntersection::Intersecting(b.start)
        } else {
            LineIntersection::Disjoint
        }
    } else {
        colinear_overlap(a, b)
    }
}

/// The closest point of the segment `l` to `p`.
pub open spec fn closest_point(l: Line, p: Vec2) -> Vec2 {
    let v = l.dir();
    let c1 = dot(minus(p, l.start), v);
    let c2 = dot(v, v);
    if c1 <= 0 {
        l.start
    } else if c2 <= c1 {
        l.end
    } else {
        lerp(l.start, v, c1, c2)
    }
}

/// The distance from `p` to the segment `l` is at most `sqrt(bound)`, decided
/// exactly: past either end it is the distance to that end, alongside the
/// segment it is the perpendicular distance `|perp_dot(v, w)| / |v|`.
pub open spec fn within_sq(l: Line, p: Vec2, bound: int) -> bool {
    let v = l.dir();
    let w = minus(p, l.start);
    let c1 = dot(w, v);
    let c2 = dot(v, v);
    if c1 <= 0 {
        crate::vec2::dist_sq(l.start, p) <= bound
    } else if c2 <= c1 {
        crate::vec2::dist_sq(l.end, p) <= bound
    } else {
        perp_dot(v, w) * perp_dot(v, w) <= bound * c2
    }
}

/// The parameters `(sn, sd, tn, td)` of the closest points `a(sn / sd)` and
/// `b(tn / td)` of two segments: the unconstrained optimum of
/// `|a(s) - b(t)|^2` is clamped first in `s`, then in `t` with `s` derived
/// again. Parallel segments (a zero Gram determinant) take `s = 0`.
pub open spec fn closest_params(a: Line, b: Line) -> (int, int, int, int) {
    let u = a.dir();
    let v = b.dir();
    let w = minus(a.start, b.start);
    let aa = dot(u, u);
    let bb = dot(u, v);
    let cc = dot(v, v);
    let dd = dot(u, w);
    let ee = dot(v, w);
    let den = aa * cc - bb * bb;
    let (sn, sd, tn, td) = if den == 0 {
        (0, 1, ee, cc)
    } else {
        let sn0 = bb * ee - cc * dd;
        let tn0 = aa * ee - bb * dd;
        if sn0 < 0 {
            (0, den, ee, cc)
        } else if sn0 > den {
            (den, den, ee + bb, cc)
        } else {
            (sn0, den, tn0, den)
        }
    };
    if tn < 0 {
        if -dd < 0 {
            (0, sd, 0, td)
        } else if -dd > aa {
            (sd, sd, 0, td)
        } else {
            (-dd, aa, 0, td)
        }
    } else if tn > td {
        if -dd + bb < 0 {
            (0, sd, td, td)
        } else if -dd + bb > aa {
            (sd, sd, td, td)
        } else {
            (-dd + bb, aa, td, td)
        }
    } else {
        (sn, sd, tn, td)
    }
}

/// The point of `l` at parameter `n / d`, its start where `n` is zero.
pub open spec fn at_param(l: Line, n: int, d: int) -> Vec2 {
    if n == 0 {
        l.start
    } else {
        lerp(l.start, l.dir(), n, d)
    }
}

/// The segment from the closest point of `a` to the closest point of `b`.
/// Where either segment is a single point, this is that point and the
/// closest point of the other segment to it.
pub open spec fn closest_pair(a: Line, b: Line) -> Line {
    if b.start == b.end {
        Line { start: closest_point(a, b.start), end: b.start }
    } else if a.start == a.end {
        Line { start: a.start, end: closest_point(b, a.start) }
    } else {
        let (sn, sd, tn, td) = closest_params(a, b);
        Line { start: at_param(a, sn, sd), end: at_param(b, tn, td) }
    }
}

/// The part of `l` facing `other`: the endpoints of `other` are projected onto
/// the direction of `l`, and `l` is cut to the range they span.
pub open spec fn clipped(l: Line, other: Line) -> Option<Line> {
    let d = l.dir();
    let len = dot(d, d);
    let p0 = dot(minus(other.start, l.start), d);
    let p1 = dot(minus(other.end, l.start), d);
    let lo = if p0 <= p1 { p0 } else { p1 };
    let hi = if p0 <= p1 { p1 } else { p0 };
    if hi < 0 || lo > len {
        None
    } else {
        Some(
            Line {
                start: if lo <= 0 { l.start } else { lerp(l.start, d, lo, len) },
                end: if hi >= len { l.end } else { lerp(l.start, d, hi, len) },
            },
        )
    }
}

/// Clipping two segments against each other by projection onto the direction
/// of `a`: `None` where the projected ranges miss, else the two segments
/// joining the ends of the shared range on `a` to the matching points on `b`
/// (with `b` turned to run the same way as `a`).
pub open spec fn clipped_pair(a: Line, b: Line) -> Option<(Line, Line)> {
    let t = a.dir();
    let len1 = dot(t, t);
    let q0 = dot(minus(b.start, a.start), t);
    let q1 = dot(minus(b.end, a.start), t);
    let o = if q1 < q0 { Line { start: b.end, end: b.start } } else { b };
    let r0 = if q1 < q0 { q1 } else { q0 };
    let r1 = if q1 < q0 { q0 } else { q1 };
    let len2 = r1 - r0;
    if r0 > len1 || 0 > r1 {
        None
    } else {
        let ca = if r0 > 0 {
            Line { start: at_param(a, r0, len1), end: o.start }
        } else {
            Line { start: a.start, end: at_param(o, -r0, len2) }
        };
        let cb = if r1 < len1 {
            Line { start: at_param(a, r1, len1), end: o.end }
        } else {
            Line { start: a.end, end: at_param(o, len1 - r0, len2) }
        };
        Some((ca, cb))
    }
}

/// `p` lies on the infinite line through `l`.
pub open spec fn on_line_of(l: Line, p: Vec2) -> bool {
    perp_dot(l.dir(), minus(p, l.start)) == 0
}

/// The position of `p` along `l`, in units where `l.end` sits at
/// `|l.dir()|^2`.
pub open spec fn proj(l: Line, p: Vec2) -> int {
    dot(minus(p, l.start), l.dir())
}

/// Segments that cross report the point at the crossing parameter; parallel
/// segments off each other's line never meet; and a shared colinear piece lies
/// on the common line, within both segments' ranges measured along it.
pub proof fn lemma_intersection_round_trip(a: Line, b: Line)
    requires
        a.wf(),
        b.wf(),
    ensures
        ({
            let (u, v, w) = (a.dir(), b.dir(), minus(a.start, b.start));
            let d = perp_dot(u, v);
            d != 0 && in_unit(perp_dot(v, w), d) && in_unit(perp_dot(u, w), d) ==> intersection(
                a,
                b,
            ) == LineIntersection::Intersecting(param_point(a, perp_dot(v, w), d))
        }),
        ({
            let (u, v, w) = (a.dir(), b.dir(), minus(a.start, b.start));
            perp_dot(u, v) == 0 && (perp_dot(u, w) != 0 || perp_dot(v, w) != 0) ==> intersection(
                a,
                b,
            ) == LineIntersection::Disjoint
        }),
        ({
            let (u, v, w) = (a.dir(), b.dir(), minus(a.start, b.start));
            a.start != a.end && b.start != b.end && perp_dot(u, v) == 0 && perp_dot(u, w) == 0
                && perp_dot(v, w) == 0 && (crate::rect::max_i(proj(b, a.start), proj(b, a.end))
                < 0 || crate::rect::min_i(proj(b, a.start), proj(b, a.end)) > dot(v, v))
                ==> intersection(a, b) == LineIntersection::Disjoint
        }),
        a.start == a.end && b.start == b.end ==> intersection(a, b) == if a.start == b.start {
            LineIntersection::Intersecting(a.start)
        } else {
            LineIntersection::Disjoint
        },
        a.start == a.end && b.start != b.end ==> intersection(a, b) == if on_line_of(b, a.start)
            && b.covers_colinear(a.start) {
            LineIntersection::Intersecting(a.start)
        } else {
            LineIntersection::Disjoint
        },
        a.start != a.end && b.start == b.end ==> intersection(a, b) == if on_line_of(a, b.start)
            && a.covers_colinear(b.start) {
            LineIntersection::Intersecting(b.start)
        } else {
            LineIntersection::Disjoint
        },
        intersection(a, b) matches LineIntersection::Colinear(s) ==> {
            &&& on_line_of(b, s.start)
            &&& on_line_of(b, s.end)
            &&& 0 <= proj(b, s.start) < proj(b, s.end) <= dot(b.dir(), b.dir())
            &&& crate::rect::min_i(proj(b, a.start), proj(b, a.end)) <= proj(b, s.start)
            &&& proj(b, s.end) <= crate::rect::max_i(proj(b, a.start), proj(b, a.end))
        },
{
    let (u, v, w) = (a.dir(), b.dir(), minus(a.start, b.start));
    let nw = minus(b.start, a.start);
    assert(nw.x == -w.x && nw.y == -w.y);
    assert(perp_dot(u, nw) == -perp_dot(u, w)) by (nonlinear_arith)
        requires
            nw.x == -w.x && nw.y == -w.y,
    ;
    if a.start == a.end {
        assert(u.x == 0 && u.y == 0);
        assert(perp_dot(u, w) == 0 && perp_dot(u, v) == 0) by (nonlinear_arith)
            requires
                u.x == 0 && u.y == 0,
        ;
    }
    if b.start == b.end {
        assert(v.x == 0 && v.y == 0);
        assert(perp_dot(v, w) == 0 && perp_dot(u, v) == 0) by (nonlinear_arith)
            requires
                v.x == 0 && v.y == 0,
        ;
    }
    lemma_dot_add(w, u, minus(a.end, b.start), v);
    if let LineIntersection::Colinear(s) = intersection(a, b) {
        let w2 = minus(a.end, b.start);
        assert(w2.x == w.x + u.x && w2.y == w.y + u.y);
        assert(perp_dot(v, w2) == perp_dot(v, w) + perp_dot(v, u)) by (nonlinear_arith)
            requires
                w2.x == w.x + u.x,
                w2.y == w.y + u.y,
        ;
        crate::vec2::lemma_perp_dot_antisym(u, v);
        assert(perp_dot(v, v) == 0) by (nonlinear_arith);
        let z = minus(b.start, b.start);
        assert(z.x == 0 && z.y == 0);
        assert(perp_dot(v, z) == 0 && dot(z, v) == 0) by (nonlinear_arith)
            requires
                z.x == 0 && z.y == 0,
        ;
        assert(minus(b.end, b.start) == v);
        crate::vec2::lemma_sq_nonneg(v.x as int);
        crate::vec2::lemma_sq_nonneg(v.y as int);
    }
}

proof fn lemma_distrib4(p: int, q: int, r: int, s: int)
    ensures
        (p + q) * (r + s) == p * r + p * s + q * r + q * s,
{
    assert((p + q) * (r + s) == p * r + p * s + q * r + q * s) by (nonlinear_arith);
}

/// The Binet-Cauchy identity in the plane:
/// `(a.c)(b.d) - (a.d)(b.c) == (a x b)(c x d)`.
pub proof fn lemma_binet_cauchy(a: Vec2, b: Vec2, c: Vec2, d: Vec2)
    ensures
        dot(a, c) * dot(b, d) - dot(a, d) * dot(b, c) == perp_dot(a, b) * perp_dot(c, d),
{
    let (ax, ay, bx, by, cx, cy, dx, dy) = (
        a.x as int,
        a.y as int,
        b.x as int,
        b.y as int,
        c.x as int,
        c.y as int,
        d.x as int,
        d.y as int,
    );
    lemma_distrib4(ax * cx, ay * cy, bx * dx, by * dy);
    lemma_distrib4(ax * dx, ay * dy, bx * cx, by * cy);
    lemma_distrib4(ax * by, -(ay * bx), cx * dy, -(cy * dx));
    crate::vec2::lemma_mul4(ax, cx, bx, dx);
    crate::vec2::lemma_mul4(ax, dx, bx, cx);
    crate::vec2::lemma_mul4(ay, cy, by, dy);
    crate::vec2::lemma_mul4(ay, dy, by, cy);
    assert((ax * cx) * (by * dy) == (ax * by) * (cx * dy)) by (nonlinear_arith);
    assert((ay * cy) * (bx * dx) == (ay * bx) * (cy * dx)) by (nonlinear_arith);
    assert((ax * dx) * (by * cy) == (ax * by) * (cy * dx)) by (nonlinear_arith);
    assert((ay * dy) * (bx * cx) == (ay * bx) * (cx * dy)) by (nonlinear_arith);
    assert((ax * cx) * (bx * dx) == (ax * dx) * (bx * cx)) by (nonlinear_arith);
    assert((ay * cy) * (by * dy) == (ay * dy) * (by * cy)) by (nonlinear_arith);
    assert((ax * by) * (-(cy * dx)) == -((ax * by) * (cy * dx))) by (nonlinear_arith);
    assert((-(ay * bx)) * (cx * dy) == -((ay * bx) * (cx * dy))) by (nonlinear_arith);
    assert((-(ay * bx)) * (-(cy * dx)) == (ay * bx) * (cy * dx)) by (nonlinear_arith);
}

proof fn lemma_dot_add(w: Vec2, u: Vec2, s: Vec2, v: Vec2)
    requires
        s.x == w.x + u.x,
        s.y == w.y + u.y,
    ensures
        dot(s, v) == dot(w, v) + dot(u, v),
{
    assert(dot(s, v) == dot(w, v) + dot(u, v)) by (nonlinear_arith)
        requires
            s.x == w.x + u.x,
            s.y == w.y + u.y,
    ;
}

/// Two colinear proper segments miss each other seen from either one.
proof fn lemma_colinear_overlap_symmetric(a: Line, b: Line)
    requires
        a.wf(),
        b.wf(),
        a.start != a.end,
        b.start != b.end,
        perp_dot(a.dir(), b.dir()) == 0,
        perp_dot(a.dir(), minus(a.start, b.start)) == 0,
        perp_dot(b.dir(), minus(a.start, b.start)) == 0,
    ensures
        (colinear_overlap(a, b) is Disjoint) == (colinear_overlap(b, a) is Disjoint),
{
    let (u, v, w) = (a.dir(), b.dir(), minus(a.start, b.start));
    let c = dot(v, v);
    let cu = dot(u, u);
    let k = dot(u, v);
    let p0 = dot(w, v);
    let m = dot(w, u);
    // positions of a's ends along b, and of b's ends along a
    lemma_dot_add(w, u, minus(a.end, b.start), v);
    let nw = minus(b.start, a.start);
    assert(nw.x == -w.x && nw.y == -w.y);
    assert(nw.x * u.x + nw.y * u.y == -(w.x * u.x + w.y * u.y)) by (nonlinear_arith)
        requires
            nw.x == -w.x && nw.y == -w.y,
    ;
    lemma_dot_add(nw, v, minus(b.end, a.start), u);
    assert(v.x * u.x + v.y * u.y == u.x * v.x + u.y * v.y) by (nonlinear_arith);
    // the two scales are related through the common direction
    lemma_binet_cauchy(w, v, u, v);
    crate::vec2::lemma_perp_dot_antisym(v, w);
    assert(m * c == p0 * k);
    lemma_gram(u, v);
    assert(cu * c == k * k);
    crate::vec2::lemma_sq_nonneg(u.x as int);
    crate::vec2::lemma_sq_nonneg(u.y as int);
    crate::vec2::lemma_sq_nonneg(v.x as int);
    crate::vec2::lemma_sq_nonneg(v.y as int);
    if v.x != 0 {
        assert(v.x * v.x > 0) by (nonlinear_arith)
            requires
                v.x != 0,
        ;
    } else {
        assert(v.y != 0);
        assert(v.y * v.y > 0) by (nonlinear_arith)
            requires
                v.y != 0,
        ;
    }
    if u.x != 0 {
        assert(u.x * u.x > 0) by (nonlinear_arith)
            requires
                u.x != 0,
        ;
    } else {
        assert(u.y != 0);
        assert(u.y * u.y > 0) by (nonlinear_arith)
            requires
                u.y != 0,
        ;
    }
    assert(c > 0 && cu > 0);
    assert(k != 0) by (nonlinear_arith)
        requires
            cu * c == k * k,
            c > 0,
            cu > 0,
    ;
    if k > 0 {
        assert((-m > cu) == (p0 + k < 0)) by (nonlinear_arith)
            requires
                m * c == p0 * k,
                cu * c == k * k,
                c > 0,
                k > 0,
        ;
        assert((-m + k < 0) == (p0 > c)) by (nonlinear_arith)
            requires
                m * c == p0 * k,
                c > 0,
                k > 0,
        ;
    } else {
        assert((-m + k > cu) == (p0 + k > c)) by (nonlinear_arith)
            requires
                m * c == p0 * k,
                cu * c == k * k,
                c > 0,
                k < 0,
        ;
        assert((-m < 0) == (p0 < 0)) by (nonlinear_arith)
            requires
                m * c == p0 * k,
                c > 0,
                k < 0,
        ;
    }
}

proof fn lemma_cramer(w: Vec2, u: Vec2, v: Vec2)
    ensures
        w.x * perp_dot(u, v) + u.x * perp_dot(v, w) - v.x * perp_dot(u, w) == 0,
        w.y * perp_dot(u, v) + u.y * perp_dot(v, w) - v.y * perp_dot(u, w) == 0,
{
    let (wx, wy, ux, uy, vx, vy) = (w.x as int, w.y as int, u.x as int, u.y as int, v.x as int, v.y as int);
    assert(wx * (ux * vy - uy * vx) + ux * (vx * wy - vy * wx) - vx * (ux * wy - uy * wx) == 0)
        by (nonlinear_arith);
    assert(wy * (ux * vy - uy * vx) + uy * (vx * wy - vy * wx) - vy * (ux * wy - uy * wx) == 0)
        by (nonlinear_arith);
}

/// Two crossing segments report the same point whichever comes first.
pub proof fn lemma_crossing_symmetric(a: Line, b: Line)
    requires
        a.wf(),
        b.wf(),
        perp_dot(a.dir(), b.dir()) != 0,
    ensures
        intersection(a, b) == intersection(b, a),
{
    let (u, v, w) = (a.dir(), b.dir(), minus(a.start, b.start));
    let nw = minus(b.start, a.start);
    assert(nw.x == -w.x && nw.y == -w.y);
    crate::vec2::lemma_perp_dot_antisym(u, v);
    assert(perp_dot(u, nw) == -perp_dot(u, w)) by (nonlinear_arith)
        requires
            nw.x == -w.x && nw.y == -w.y,
    ;
    assert(perp_dot(v, nw) == -perp_dot(v, w)) by (nonlinear_arith)
        requires
            nw.x == -w.x && nw.y == -w.y,
    ;
    lemma_cramer(w, u, v);
    let (d, sn, tn) = (perp_dot(u, v), perp_dot(v, w), perp_dot(u, w));
    assert(a.start.x * d + u.x * sn == b.start.x * d + v.x * tn) by (nonlinear_arith)
        requires
            w.x * d + u.x * sn - v.x * tn == 0,
            w.x == a.start.x - b.start.x,
    ;
    assert(a.start.y * d + u.y * sn == b.start.y * d + v.y * tn) by (nonlinear_arith)
        requires
            w.y * d + u.y * sn - v.y * tn == 0,
            w.y == a.start.y - b.start.y,
    ;
    assert(a.start.x * (-d) + u.x * (-sn) == -(a.start.x * d + u.x * sn)) by (nonlinear_arith);
    assert(a.start.y * (-d) + u.y * (-sn) == -(a.start.y * d + u.y * sn)) by (nonlinear_arith);
    assert(b.start.x * (-d) + v.x * (-tn) == -(b.start.x * d + v.x * tn)) by (nonlinear_arith);
    assert(b.start.y * (-d) + v.y * (-tn) == -(b.start.y * d + v.y * tn)) by (nonlinear_arith);
}

/// `p` is a point of the segment `l`.
pub open spec fn on_segment(l: Line, p: Vec2) -> bool {
    if l.start == l.end {
        p == l.start
    } else {
        on_line_of(l, p) && 0 <= proj(l, p) <= dot(l.dir(), l.dir())
    }
}

/// For `x` along `u`, products with `x` scale like products with `u`.
proof fn lemma_along(x: Vec2, u: Vec2, v: Vec2)
    requires
        perp_dot(u, x) == 0,
    ensures
        perp_dot(v, x) * dot(u, u) == dot(x, u) * perp_dot(v, u),
        dot(x, v) * dot(u, u) == dot(x, u) * dot(u, v),
        x.x * dot(u, u) == dot(x, u) * u.x,
        x.y * dot(u, u) == dot(x, u) * u.y,
{
    let (xx, xy, ux, uy, vx, vy) = (x.x as int, x.y as int, u.x as int, u.y as int, v.x as int, v.y as int);
    let c = ux * ux + uy * uy;
    let l = xx * ux + xy * uy;
    assert(xx * c == l * ux) by (nonlinear_arith)
        requires
            ux * xy - uy * xx == 0,
            c == ux * ux + uy * uy,
            l == xx * ux + xy * uy,
    ;
    assert(xy * c == l * uy) by (nonlinear_arith)
        requires
            ux * xy - uy * xx == 0,
            c == ux * ux + uy * uy,
            l == xx * ux + xy * uy,
    ;
    assert((vx * xy - vy * xx) * c == vx * (xy * c) - vy * (xx * c)) by (nonlinear_arith);
    assert(vx * (l * uy) - vy * (l * ux) == l * (vx * uy - vy * ux)) by (nonlinear_arith);
    assert((xx * vx + xy * vy) * c == vx * (xx * c) + vy * (xy * c)) by (nonlinear_arith);
    assert(vx * (l * ux) + vy * (l * uy) == l * (ux * vx + uy * vy)) by (nonlinear_arith);
}

/// The length of a proper segment's direction is positive.
proof fn lemma_dir_positive(l: Line)
    requires
        l.wf(),
        l.start != l.end,
    ensures
        dot(l.dir(), l.dir()) > 0,
{
    let u = l.dir();
    crate::vec2::lemma_sq_nonneg(u.x as int);
    crate::vec2::lemma_sq_nonneg(u.y as int);
    if u.x != 0 {
        assert(u.x * u.x > 0) by (nonlinear_arith)
            requires
                u.x != 0,
        ;
    } else {
        assert(u.y != 0);
        assert(u.y * u.y > 0) by (nonlinear_arith)
            requires
                u.y != 0,
        ;
    }
}

/// A point of a proper segment lies between its ends, coordinate by
/// coordinate.
proof fn lemma_on_segment_between(l: Line, p: Vec2)
    requires
        l.wf(),
        p.wf(),
        l.start != l.end,
        on_segment(l, p),
    ensures
        l.covers_colinear(p),
{
    let u = l.dir();
    let x = minus(p, l.start);
    lemma_dir_positive(l);
    crate::vec2::lemma_perp_dot_antisym(u, x);
    lemma_along(x, u, u);
    let c = dot(u, u);
    let k = dot(x, u);
    assert(between(0, x.x as int, u.x as int)) by (nonlinear_arith)
        requires
            x.x * c == k * u.x,
            0 <= k <= c,
            c > 0,
    ;
    assert(between(0, x.y as int, u.y as int)) by (nonlinear_arith)
        requires
            x.y * c == k * u.y,
            0 <= k <= c,
            c > 0,
    ;
}

/// Segments that share a point of the grid never come out apart. (The
/// converse fails on a grid: segments may cross between grid points.)
pub proof fn lemma_shared_point_not_disjoint(a: Line, b: Line, p: Vec2)
    requires
        a.wf(),
        b.wf(),
        p.wf(),
        on_segment(a, p),
        on_segment(b, p),
    ensures
        !(intersection(a, b) is Disjoint),
{
    let (u, v, w) = (a.dir(), b.dir(), minus(a.start, b.start));
    let x = minus(p, a.start);
    let y = minus(p, b.start);
    assert(w.x == y.x - x.x && w.y == y.y - x.y);
    let d = perp_dot(u, v);
    assert(perp_dot(v, w) == perp_dot(v, y) - perp_dot(v, x)) by (nonlinear_arith)
        requires
            w.x == y.x - x.x && w.y == y.y - x.y,
    ;
    assert(perp_dot(u, w) == perp_dot(u, y) - perp_dot(u, x)) by (nonlinear_arith)
        requires
            w.x == y.x - x.x && w.y == y.y - x.y,
    ;
    crate::vec2::lemma_perp_dot_antisym(u, v);
    if a.start == a.end {
        assert(u.x == 0 && u.y == 0);
        assert(perp_dot(u, w) == 0 && perp_dot(u, v) == 0) by (nonlinear_arith)
            requires
                u.x == 0 && u.y == 0,
        ;
        assert(x.x == 0 && x.y == 0);
        assert(perp_dot(v, x) == 0) by (nonlinear_arith)
            requires
                x.x == 0 && x.y == 0,
        ;
        if b.start == b.end {
        } else {
            lemma_on_segment_between(b, p);
        }
    } else if b.start == b.end {
        assert(v.x == 0 && v.y == 0);
        assert(perp_dot(v, w) == 0 && perp_dot(u, v) == 0) by (nonlinear_arith)
            requires
                v.x == 0 && v.y == 0,
        ;
        assert(y.x == 0 && y.y == 0);
        assert(perp_dot(u, y) == 0) by (nonlinear_arith)
            requires
                y.x == 0 && y.y == 0,
        ;
        lemma_on_segment_between(a, p);
        crate::vec2::lemma_perp_dot_antisym(u, x);
    } else {
        lemma_dir_positive(a);
        lemma_dir_positive(b);
        crate::vec2::lemma_perp_dot_antisym(u, x);
        crate::vec2::lemma_perp_dot_antisym(v, y);
        lemma_along(x, u, v);
        lemma_along(y, v, u);
        let cu = dot(u, u);
        let cv = dot(v, v);
        let lx = dot(x, u);
        let ly = dot(y, v);
        let sn = perp_dot(v, w);
        let tn = perp_dot(u, w);
        // sn * |u|^2 == lx * d and tn * |v|^2 == ly * d
        let pvx = perp_dot(v, x);
        let pvu = perp_dot(v, u);
        assert(sn == -pvx);
        assert(pvu == -d);
        assert(sn * cu == lx * d) by (nonlinear_arith)
            requires
                sn == -pvx,
                pvx * cu == lx * pvu,
                pvu == -d,
        ;
        assert(tn == perp_dot(u, y));
        assert(tn * cv == ly * d);
        if d != 0 {
            assert(in_unit(sn, d)) by (nonlinear_arith)
                requires
                    sn * cu == lx * d,
                    0 <= lx <= cu,
                    cu > 0,
                    d != 0,
            ;
            assert(in_unit(tn, d)) by (nonlinear_arith)
                requires
                    tn * cv == ly * d,
                    0 <= ly <= cv,
                    cv > 0,
                    d != 0,
            ;
        } else {
            assert(sn == 0) by (nonlinear_arith)
                requires
                    sn * cu == lx * d,
                    d == 0,
                    cu > 0,
            ;
            assert(tn == 0) by (nonlinear_arith)
                requires
                    tn * cv == ly * d,
                    d == 0,
                    cv > 0,
            ;
            // positions along b: a's ends at p0 and p0 + k, p somewhere between
            let k = dot(u, v);
            let p0 = dot(w, v);
            lemma_dot_add(w, u, minus(a.end, b.start), v);
            lemma_dot_add(w, x, y, v);
            let xv = dot(x, v);
            assert(xv * cu == lx * k);
            assert((k >= 0 ==> 0 <= xv <= k) && (k < 0 ==> k <= xv <= 0)) by (nonlinear_arith)
                requires
                    xv * cu == lx * k,
                    0 <= lx <= cu,
                    cu > 0,
            ;
            assert(ly == p0 + xv);
            assert(0 <= ly <= cv);
        }
    }
}

/// The exact distance from `p` to the segment `l`, which [`within_sq`]
/// compares with `bound`, is no more than the distance to any grid point `q`
/// of `l`: whenever some point of the segment is within reach, the test says
/// so. (The exact closest point is minimal; the closest point reported on the
/// grid rounds it.)
pub proof fn lemma_within_sq_minimal(l: Line, p: Vec2, q: Vec2, bound: int)
    requires
        l.wf(),
        p.wf(),
        q.wf(),
        on_segment(l, q),
        crate::vec2::dist_sq(q, p) <= bound,
    ensures
        within_sq(l, p, bound),
{
    let v = l.dir();
    let w = minus(p, l.start);
    let c1 = dot(w, v);
    let c2 = dot(v, v);
    if l.start == l.end {
        assert(v.x == 0 && v.y == 0);
        assert(c1 == 0) by (nonlinear_arith)
            requires
                v.x == 0 && v.y == 0,
                c1 == w.x * v.x + w.y * v.y,
        ;
        assert(crate::vec2::dist_sq(l.start, p) == crate::vec2::dist_sq(q, p));
    } else {
        lemma_dir_positive(l);
        let x = minus(q, l.start);
        let z = minus(q, p);
        assert(z.x == x.x - w.x && z.y == x.y - w.y);
        crate::vec2::lemma_perp_dot_antisym(v, x);
        lemma_along(x, v, w);
        lemma_along(x, v, x);
        let lam = dot(x, v);
        let zz = dot(z, z);
        assert(z.x == q.x - p.x && z.y == q.y - p.y);
        assert(crate::vec2::dist_sq(q, p) == zz) by (nonlinear_arith)
            requires
                z.x == q.x - p.x && z.y == q.y - p.y,
                zz == z.x * z.x + z.y * z.y,
        ;
        assert(zz == dot(x, x) - 2 * dot(x, w) + dot(w, w)) by (nonlinear_arith)
            requires
                z.x == x.x - w.x && z.y == x.y - w.y,
                zz == z.x * z.x + z.y * z.y,
        ;
        assert(dot(v, w) == c1 && dot(v, x) == lam) by (nonlinear_arith)
            requires
                c1 == w.x * v.x + w.y * v.y,
                lam == x.x * v.x + x.y * v.y,
        ;
        assert(dot(x, w) * c2 == lam * c1);
        assert(dot(x, x) * c2 == lam * lam) by (nonlinear_arith)
            requires
                dot(x, x) * c2 == lam * dot(v, x),
                dot(v, x) == lam,
        ;
        crate::vec2::lemma_sq_nonneg(x.x as int);
        crate::vec2::lemma_sq_nonneg(x.y as int);
        if c1 <= 0 {
            assert(dot(x, w) <= 0) by (nonlinear_arith)
                requires
                    dot(x, w) * c2 == lam * c1,
                    lam >= 0,
                    c1 <= 0,
                    c2 > 0,
            ;
            assert(crate::vec2::dist_sq(l.start, p) == dot(w, w)) by (nonlinear_arith)
                requires
                    w.x == p.x - l.start.x && w.y == p.y - l.start.y,
            ;
        } else if c2 <= c1 {
            let e = minus(p, l.end);
            assert(e.x == w.x - v.x && e.y == w.y - v.y);
            assert(crate::vec2::dist_sq(l.end, p) == dot(w, w) - 2 * c1 + c2) by (nonlinear_arith)
                requires
                    e.x == w.x - v.x && e.y == w.y - v.y,
                    e.x == p.x - l.end.x && e.y == p.y - l.end.y,
                    c1 == w.x * v.x + w.y * v.y,
                    c2 == v.x * v.x + v.y * v.y,
            ;
            assert((zz - (dot(w, w) - 2 * c1 + c2)) * c2 == (c2 - lam) * (2 * c1 - c2 - lam))
                by (nonlinear_arith)
                requires
                    zz == dot(x, x) - 2 * dot(x, w) + dot(w, w),
                    dot(x, w) * c2 == lam * c1,
                    dot(x, x) * c2 == lam * lam,
            ;
            assert((c2 - lam) * (2 * c1 - c2 - lam) >= 0) by (nonlinear_arith)
                requires
                    0 <= lam <= c2,
                    c2 <= c1,
            ;
            assert(zz >= dot(w, w) - 2 * c1 + c2) by (nonlinear_arith)
                requires
                    (zz - (dot(w, w) - 2 * c1 + c2)) * c2 >= 0,
                    c2 > 0,
            ;
        } else {
            lemma_gram(z, v);
            assert(perp_dot(z, v) == perp_dot(x, v) - perp_dot(w, v)) by (nonlinear_arith)
                requires
                    z.x == x.x - w.x && z.y == x.y - w.y,
            ;
            crate::vec2::lemma_perp_dot_antisym(w, v);
            crate::vec2::lemma_sq_nonneg(dot(z, v));
            assert(perp_dot(x, v) == 0);
            assert(perp_dot(v, w) * perp_dot(v, w) <= zz * c2) by (nonlinear_arith)
                requires
                    zz * c2 - dot(z, v) * dot(z, v) == perp_dot(z, v) * perp_dot(z, v),
                    perp_dot(z, v) == perp_dot(v, w),
                    dot(z, v) * dot(z, v) >= 0,
            ;
            assert(zz * c2 <= bound * c2) by (nonlinear_arith)
                requires
                    zz <= bound,
                    c2 > 0,
            ;
        }
    }
}

/// A segment meets itself.
pub proof fn lemma_intersection_self(l: Line)
    requires
        l.wf(),
    ensures
        !(intersection(l, l) is Disjoint),
{
    let u = l.dir();
    let w = minus(l.start, l.start);
    assert(w.x == 0 && w.y == 0);
    assert(perp_dot(u, u) == 0) by (nonlinear_arith);
    assert(perp_dot(u, w) == 0 && dot(w, u) == 0) by (nonlinear_arith)
        requires
            w.x == 0 && w.y == 0,
    ;
    crate::vec2::lemma_sq_nonneg(u.x as int);
    crate::vec2::lemma_sq_nonneg(u.y as int);
    assert(minus(l.end, l.start) == u);
}

/// Two segments miss each other exactly when, taken in the other order, they
/// still do.
pub proof fn lemma_intersection_disjoint_symmetric(a: Line, b: Line)
    requires
        a.wf(),
        b.wf(),
    ensures
        (intersection(a, b) is Disjoint) == (intersection(b, a) is Disjoint),
{
    let (u, v, w) = (a.dir(), b.dir(), minus(a.start, b.start));
    let nw = minus(b.start, a.start);
    assert(nw.x == -w.x && nw.y == -w.y);
    crate::vec2::lemma_perp_dot_antisym(u, v);
    assert(perp_dot(u, nw) == -perp_dot(u, w)) by (nonlinear_arith)
        requires
            nw.x == -w.x && nw.y == -w.y,
    ;
    assert(perp_dot(v, nw) == -perp_dot(v, w)) by (nonlinear_arith)
        requires
            nw.x == -w.x && nw.y == -w.y,
    ;
    if perp_dot(u, v) == 0 && perp_dot(u, w) == 0 && perp_dot(v, w) == 0 && a.start != a.end
        && b.start != b.end {
        lemma_colinear_overlap_symmetric(a, b);
    }
}

/// The Gram determinant of two vectors is the square of their perp-dot
/// product.
pub proof fn lemma_gram(u: Vec2, v: Vec2)
    ensures
        dot(u, u) * dot(v, v) - dot(u, v) * dot(u, v) == perp_dot(u, v) * perp_dot(u, v),
{
    let (ux, uy, vx, vy) = (u.x as int, u.y as int, v.x as int, v.y as int);
    let (a1, a2, b1, b2) = (ux * ux, uy * uy, vx * vx, vy * vy);
    assert((a1 + a2) * (b1 + b2) == a1 * b1 + a1 * b2 + a2 * b1 + a2 * b2) by (nonlinear_arith);
    crate::vec2::lemma_sq_sum(ux * vx, uy * vy);
    crate::vec2::lemma_sq_sum(ux * vy, uy * vx);
    crate::vec2::lemma_mul4(ux, vx, ux, vx);
    crate::vec2::lemma_mul4(uy, vy, uy, vy);
    crate::vec2::lemma_mul4(ux, vy, ux, vy);
    crate::vec2::lemma_mul4(uy, vx, uy, vx);
    crate::vec2::lemma_mul4(ux, vy, uy, vx);
    assert((ux * vy) * (uy * vx) == (ux * vx) * (uy * vy)) by (nonlinear_arith);
}

/// A fraction `n / d` of a coordinate difference, rounded toward zero, lies
/// between zero and that difference.
pub proof fn lemma_fraction_between(m: int, n: int, d: int)
    requires
        0 <= n <= d,
        d > 0,
    ensures
        between(0, div_trunc(m * n, d), m),
{
    if m >= 0 {
        assert(0 <= m * n <= m * d) by (nonlinear_arith)
            requires
                0 <= n <= d,
                m >= 0,
        ;
        vstd::arithmetic::div_mod::lemma_div_is_ordered(m * n, m * d, d);
        assert(m * d == d * m) by (nonlinear_arith);
        vstd::arithmetic::div_mod::lemma_div_multiples_vanish(m, d);
        lemma_div_trunc_bounds(m * n, d, m * n);
    } else {
        let k = -m;
        assert(m * n == -(k * n)) by (nonlinear_arith)
            requires
                k == -m,
        ;
        assert(0 <= k * n <= k * d) by (nonlinear_arith)
            requires
                0 <= n <= d,
                k > 0,
        ;
        vstd::arithmetic::div_mod::lemma_div_is_ordered(k * n, k * d, d);
        assert(k * d == d * k) by (nonlinear_arith);
        vstd::arithmetic::div_mod::lemma_div_multiples_vanish(k, d);
        lemma_div_trunc_bounds(k * n, d, k * n);
    }
}

/// A point at a parameter in `[0, 1]` of a segment on the grid is on the grid.
pub proof fn lemma_lerp_wf(l: Line, n: int, d: int)
    requires
        l.wf(),
        0 <= n <= d,
        d > 0,
    ensures
        lerp(l.start, l.dir(), n, d).wf(),
{
    lemma_fraction_between(l.dir().x as int, n, d);
    lemma_fraction_between(l.dir().y as int, n, d);
}

/// The closest point of a segment on the grid is on the grid.
pub proof fn lemma_closest_point_wf(l: Line, p: Vec2)
    requires
        l.wf(),
        p.wf(),
    ensures
        closest_point(l, p).wf(),
{
    let v = l.dir();
    let c1 = dot(minus(p, l.start), v);
    let c2 = dot(v, v);
    if c1 > 0 && c2 > c1 {
        lemma_lerp_wf(l, c1, c2);
    }
}

/// The closest points of two segments on the grid are on the grid.
pub proof fn lemma_closest_pair_wf(a: Line, b: Line)
    requires
        a.wf(),
        b.wf(),
    ensures
        closest_pair(a, b).wf(),
{
    lemma_closest_point_wf(a, b.start);
    lemma_closest_point_wf(b, a.start);
    let u = a.dir();
    let v = b.dir();
    lemma_gram(u, v);
    crate::vec2::lemma_sq_nonneg(perp_dot(u, v));
    crate::vec2::lemma_sq_nonneg(u.x as int);
    crate::vec2::lemma_sq_nonneg(u.y as int);
    crate::vec2::lemma_sq_nonneg(v.x as int);
    crate::vec2::lemma_sq_nonneg(v.y as int);
    let (sn, sd, tn, td) = closest_params(a, b);
    assert(0 <= sn <= sd && (sn != 0 ==> sd > 0));
    assert(0 <= tn <= td && (tn != 0 ==> td > 0));
    if sn != 0 {
        lemma_lerp_wf(a, sn, sd);
    }
    if tn != 0 {
        lemma_lerp_wf(b, tn, td);
    }
}

/// A value between `lo * d` and `hi * d`, divided by `d` and rounded toward
/// zero, lies between `lo` and `hi`.
proof fn lemma_trunc_within(x: int, d: int, lo: int, hi: int)
    requires
        d > 0,
        lo * d <= x <= hi * d,
    ensures
        lo <= div_trunc(x, d) <= hi,
{
    assert(lo * d == d * lo && hi * d == d * hi) by (nonlinear_arith);
    vstd::arithmetic::div_mod::lemma_div_multiples_vanish(lo, d);
    vstd::arithmetic::div_mod::lemma_div_multiples_vanish(hi, d);
    if x >= 0 {
        vstd::arithmetic::div_mod::lemma_div_is_ordered(lo * d, x, d);
        vstd::arithmetic::div_mod::lemma_div_is_ordered(x, hi * d, d);
    } else {
        assert((-hi) * d == -(hi * d) && (-lo) * d == -(lo * d)) by (nonlinear_arith);
        assert((-hi) * d == d * (-hi) && (-lo) * d == d * (-lo)) by (nonlinear_arith);
        vstd::arithmetic::div_mod::lemma_div_multiples_vanish(-hi, d);
        vstd::arithmetic::div_mod::lemma_div_multiples_vanish(-lo, d);
        vstd::arithmetic::div_mod::lemma_div_is_ordered((-hi) * d, -x, d);
        vstd::arithmetic::div_mod::lemma_div_is_ordered(-x, (-lo) * d, d);
    }
}

/// The exact point at a parameter in `[0, 1]`, rounded, stays between the
/// segment's ends.
proof fn lemma_grid_point_between(s: int, m: int, n: int, d: int)
    requires
        0 <= n <= d,
        d > 0,
    ensures
        between(s, div_trunc(s * d + m * n, d), s + m),
{
    if m >= 0 {
        assert(s * d <= s * d + m * n <= (s + m) * d) by (nonlinear_arith)
            requires
                0 <= n <= d,
                m >= 0,
        ;
        lemma_trunc_within(s * d + m * n, d, s, s + m);
    } else {
        assert((s + m) * d <= s * d + m * n <= s * d) by (nonlinear_arith)
            requires
                0 <= n <= d,
                m < 0,
        ;
        lemma_trunc_within(s * d + m * n, d, s + m, s);
    }
}

/// The exact point `start + dir * n / d`, rounded toward zero, for
/// `0 <= n <= d`: a point of the segment's bounding box.
fn grid_point_exec(start: Vec2, dir: Vec2, n: i128, d: i128) -> (r: Vec2)
    requires
        start.wf(),
        (Line { start, end: Vec2 { x: (start.x + dir.x) as i64, y: (start.y + dir.y) as i64 } }).wf(),
        dir.small(),
        0 <= n <= d <= 0x10_0000_0000_0000_0000_0000_0000,
        d > 0,
    ensures
        r == grid_point(start, dir, n as int, d as int),
        r.wf(),
{
    proof {
        let big: int = 0x10_0000_0000_0000_0000_0000_0000;
        lemma_mul_bound(dir.x as int, n as int, DIFF_LIMIT as int, big);
        lemma_mul_bound(dir.y as int, n as int, DIFF_LIMIT as int, big);
        lemma_mul_bound(start.x as int, d as int, DIFF_LIMIT as int, big);
        lemma_mul_bound(start.y as int, d as int, DIFF_LIMIT as int, big);
        lemma_grid_point_between(start.x as int, dir.x as int, n as int, d as int);
        lemma_grid_point_between(start.y as int, dir.y as int, n as int, d as int);
    }
    let qx = div_trunc_i128((start.x as i128) * d + (dir.x as i128) * n, d);
    let qy = div_trunc_i128((start.y as i128) * d + (dir.y as i128) * n, d);
    Vec2 { x: qx as i64, y: qy as i64 }
}

/// `start + dir * n / d` rounded toward zero, for `0 <= n <= d`: a point of the
/// segment's bounding box.
fn lerp_exec(start: Vec2, dir: Vec2, n: i128, d: i128) -> (r: Vec2)
    requires
        start.wf(),
        (Line { start, end: Vec2 { x: (start.x + dir.x) as i64, y: (start.y + dir.y) as i64 } }).wf(),
        dir.small(),
        0 <= n <= d <= 0x10_0000_0000_0000_0000_0000_0000,
        d > 0,
    ensures
        r == lerp(start, dir, n as int, d as int),
        between(start.x as int, r.x as int, start.x + dir.x),
        between(start.y as int, r.y as int, start.y + dir.y),
        r.wf(),
{
    proof {
        lemma_mul_bound(dir.x as int, n as int, DIFF_LIMIT as int, 0x10_0000_0000_0000_0000_0000_0000);
        lemma_mul_bound(dir.y as int, n as int, DIFF_LIMIT as int, 0x10_0000_0000_0000_0000_0000_0000);
        lemma_fraction_between(dir.x as int, n as int, d as int);
        lemma_fraction_between(dir.y as int, n as int, d as int);
    }
    let qx = div_trunc_i128((dir.x as i128) * n, d);
    let qy = div_trunc_i128((dir.y as i128) * n, d);
    Vec2 { x: start.x + qx as i64, y: start.y + qy as i64 }
}

/// A straight segment from `start` to `end`; it may degenerate to a point.
#[derive(Clone, Copy, Debug, PartialEq, Eq, Structural)]
pub struct Line {
    pub start: Vec2,
    pub end: Vec2,
}

/// `a <= x <= b` or `b <= x <= a`.
pub open spec fn between(a: int, x: int, b: int) -> bool {
    (a <= x && x <= b) || (a >= x && x >= b)
}

impl Line {
    pub open spec fn wf(self) -> bool {
        self.start.wf() && self.end.wf()
    }

    /// The direction `end - start`.
    pub open spec fn dir(self) -> Vec2 {
        minus(self.end, self.start)
    }

    /// Whether a point on the infinite line through `self` lies on the segment.
    pub open spec fn covers_colinear(self, p: Vec2) -> bool {
        if self.start.x != self.end.x {
            between(self.start.x as int, p.x as int, self.end.x as int)
        } else {
            between(self.start.y as int, p.y as int, self.end.y as int)
        }
    }

    pub fn new(start: Vec2, end: Vec2) -> (r: Line)
        ensures
            r == (Line { start, end }),
    {
        Line { start, end }
    }

    /// The vector from `start` to `end`.
    pub fn as_difference(&self) -> (r: Vec2)
        requires
            self.wf(),
        ensures
            r == self.dir(),
            r.small(),
    {
        self.end.sub(self.start)
    }

    /// The squared length.
    pub fn length_squared(&self) -> (r: i64)
        requires
            self.wf(),
        ensures
            r == dot(self.dir(), self.dir()),
    {
        let d = self.as_difference();
        d.dot(d)
    }

    /// The direction turned a quarter counter-clockwise.
    pub fn perp(&self) -> (r: Vec2)
        requires
            self.wf(),
        ensures
            r.x == -self.dir().y,
            r.y == self.dir().x,
    {
        let d = self.as_difference();
        Vec2::new(-d.y, d.x)
    }

    pub fn is_point(&self) -> (r: bool)
        ensures
            r == (self.start == self.end),
    {
        self.start == self.end
    }

    /// Whether the two directions are parallel (a degenerate segment is
    /// parallel to every segment).
    pub fn is_parallel_to(&self, other: &Line) -> (r: bool)
        requires
            self.wf(),
            other.wf(),
        ensures
            r == (perp_dot(self.dir(), other.dir()) == 0),
    {
        self.as_difference().perp_dot(other.as_difference()) == 0
    }

    pub fn is_vertical(&self) -> (r: bool)
        ensures
            r == (self.start.x == self.end.x),
    {
        self.start.x == self.end.x
    }

    pub fn is_horizontal(&self) -> (r: bool)
        ensures
            r == (self.start.y == self.end.y),
    {
        self.start.y == self.end.y
    }

    /// Where `self` and `other` meet: nowhere, in one point, or along a
    /// shared piece when they are colinear.
    pub fn intersect_line(&self, other: &Line) -> (r: LineIntersection)
        requires
            self.wf(),
            other.wf(),
        ensures
            r == intersection(*self, *other),
            r matches LineIntersection::Intersecting(p) ==> p.wf(),
            r matches LineIntersection::Colinear(l) ==> l.wf(),
    {
        let u = self.as_difference();
        let v = other.as_difference();
        let w = self.start.sub(other.start);
        let d = u.perp_dot(v);
        let sn = v.perp_dot(w);
        let tn = u.perp_dot(w);
        if d != 0 {
            let s_in = if d > 0 { 0 <= sn && sn <= d } else { d <= sn && sn <= 0 };
            let t_in = if d > 0 { 0 <= tn && tn <= d } else { d <= tn && tn <= 0 };
            if s_in && t_in {
                let p = if d > 0 {
                    grid_point_exec(self.start, u, sn as i128, d as i128)
                } else {
                    grid_point_exec(self.start, u, -sn as i128, -d as i128)
                };
                LineIntersection::Intersecting(p)
            } else {
                LineIntersection::Disjoint
            }
        } else if tn != 0 || sn != 0 {
            LineIntersection::Disjoint
        } else if self.is_point() && other.is_point() {
            if self.start == other.start {
                LineIntersection::Intersecting(self.start)
            } else {
                LineIntersection::Disjoint
            }
        } else if self.is_point() {
            if other.intersects_colinear_point(&self.start) {
                LineIntersection::Intersecting(self.start)
            } else {
                LineIntersection::Disjoint
            }
        } else if other.is_point() {
            if self.intersects_colinear_point(&other.start) {
                LineIntersection::Intersecting(other.start)
            } else {
                LineIntersection::Disjoint
            }
        } else {
            self.overlap_colinear(other)
        }
    }

    /// The overlap of two colinear proper segments.
    fn overlap_colinear(&self, other: &Line) -> (r: LineIntersection)
        requires
            self.wf(),
            other.wf(),
        ensures
            r == colinear_overlap(*self, *other),
            r matches LineIntersection::Intersecting(p) ==> p.wf(),
            r matches LineIntersection::Colinear(l) ==> l.wf(),
    {
        let v = other.as_difference();
        let c = v.dot(v);
        let p0 = self.start.sub(other.start).dot(v);
        let p1 = self.end.sub(other.start).dot(v);
        let (lo, hi, lo_pt, hi_pt) = if p0 <= p1 {
            (p0, p1, self.start, self.end)
        } else {
            (p1, p0, self.end, self.start)
        };
        if lo > c || hi < 0 {
            LineIntersection::Disjoint
        } else {
            let from = if lo <= 0 { other.start } else { lo_pt };
            let to = if hi >= c { other.end } else { hi_pt };
            let lo_c = if lo <= 0 { 0 } else { lo };
            let hi_c = if hi >= c { c } else { hi };
            if lo_c == hi_c {
                LineIntersection::Intersecting(from)
            } else {
                LineIntersection::Colinear(Line::new(from, to))
            }
        }
    }

    /// The point of the segment closest to `point` (rounded toward zero when
    /// it falls between grid points).
    pub fn closest_point_to_point(&self, point: &Vec2) -> (r: Vec2)
        requires
            self.wf(),
            point.wf(),
        ensures
            r == closest_point(*self, *point),
            r.wf(),
    {
        let v = self.as_difference();
        let w = point.sub(self.start);
        let c1 = w.dot(v);
        if c1 <= 0 {
            return self.start;
        }
        let c2 = v.dot(v);
        if c2 <= c1 {
            return self.end;
        }
        lerp_exec(self.start, v, c1 as i128, c2 as i128)
    }

    /// The closest points of two segments, as a segment from the point on
    /// `self` to the point on `other`.
    pub fn closest_point_to_line(&self, other: &Line) -> (r: Line)
        requires
            self.wf(),
            other.wf(),
        ensures
            r == closest_pair(*self, *other),
            r.wf(),
    {
        if other.is_point() {
            return Line::new(self.closest_point_to_point(&other.start), other.start);
        }
        if self.is_point() {
            return Line::new(self.start, other.closest_point_to_point(&self.start));
        }
        let u = self.as_difference();
        let v = other.as_difference();
        let w = self.start.sub(other.start);
        let a = u.dot(u) as i128;
        let b = u.dot(v) as i128;
        let c = v.dot(v) as i128;
        let d = u.dot(w) as i128;
        let e = v.dot(w) as i128;
        proof {
            lemma_gram(u, v);
            crate::vec2::lemma_sq_nonneg(perp_dot(u, v));
            crate::vec2::lemma_sq_nonneg(u.x as int);
            crate::vec2::lemma_sq_nonneg(u.y as int);
            crate::vec2::lemma_sq_nonneg(v.x as int);
            crate::vec2::lemma_sq_nonneg(v.y as int);
            let m: int = 0x2_0000_0000_0000;
            lemma_mul_bound(a as int, c as int, m, m);
            lemma_mul_bound(b as int, b as int, m, m);
            lemma_mul_bound(b as int, e as int, m, m);
            lemma_mul_bound(c as int, d as int, m, m);
            lemma_mul_bound(a as int, e as int, m, m);
            lemma_mul_bound(b as int, d as int, m, m);
        }
        proof {
            crate::vec2::lemma_sq_nonneg(b as int);
            assert(a * c <= 0x2_0000_0000_0000 * 0x2_0000_0000_0000);
        }
        let den = a * c - b * b;
        let mut sn: i128;
        let mut sd: i128 = den;
        let mut tn: i128;
        let mut td: i128 = den;
        if den == 0 {
            sn = 0;
            sd = 1;
            tn = e;
            td = c;
        } else {
            sn = b * e - c * d;
            tn = a * e - b * d;
            if sn < 0 {
                sn = 0;
                tn = e;
                td = c;
            } else if sn > sd {
                sn = sd;
                tn = e + b;
                td = c;
            }
        }
        if tn < 0 {
            tn = 0;
            if -d < 0 {
                sn = 0;
            } else if -d > a {
                sn = sd;
            } else {
                sn = -d;
                sd = a;
            }
        } else if tn > td {
            tn = td;
            if -d + b < 0 {
                sn = 0;
            } else if -d + b > a {
                sn = sd;
            } else {
                sn = -d + b;
                sd = a;
            }
        }
        assert((sn as int, sd as int, tn as int, td as int) == closest_params(*self, *other));
        let p = if sn == 0 {
            self.start
        } else {
            lerp_exec(self.start, u, sn, sd)
        };
        let q = if tn == 0 {
            other.start
        } else {
            lerp_exec(other.start, v, tn, td)
        };
        Line::new(p, q)
    }

    /// `self` cut to the range spanned by the projections of `other`'s
    /// endpoints onto it; `None` where the ranges do not overlap.
    pub fn clip_to_parallel_line(&self, other: &Line) -> (r: Option<Line>)
        requires
            self.wf(),
            other.wf(),
        ensures
            r == clipped(*self, *other),
            r matches Some(l) ==> l.wf(),
    {
        let d = self.as_difference();
        let len = d.dot(d);
        let p0 = other.start.sub(self.start).dot(d);
        let p1 = other.end.sub(self.start).dot(d);
        let (lo, hi) = if p0 <= p1 { (p0, p1) } else { (p1, p0) };
        if hi < 0 || lo > len {
            return None;
        }
        let start = if lo <= 0 {
            self.start
        } else {
            lerp_exec(self.start, d, lo as i128, len as i128)
        };
        let end = if hi >= len {
            self.end
        } else {
            lerp_exec(self.start, d, hi as i128, len as i128)
        };
        Some(Line::new(start, end))
    }

    /// Projects `other` onto the direction of `self` and pairs up the ends of
    /// the shared range: `None` where the ranges miss.
    pub fn clip_with(&self, other: &Line) -> (r: Option<(Line, Line)>)
        requires
            self.wf(),
            other.wf(),
        ensures
            r == clipped_pair(*self, *other),
            r matches Some((ca, cb)) ==> ca.wf() && cb.wf(),
    {
        let t = self.as_difference();
        let len1 = t.dot(t);
        let q0 = other.start.sub(self.start).dot(t);
        let q1 = other.end.sub(self.start).dot(t);
        let (o, r0, r1) = if q1 < q0 {
            (Line::new(other.end, other.start), q1, q0)
        } else {
            (*other, q0, q1)
        };
        if r0 > len1 || 0 > r1 {
            return None;
        }
        let len2 = r1 - r0;
        let od = o.as_difference();
        let ca = if r0 > 0 {
            Line::new(lerp_exec(self.start, t, r0 as i128, len1 as i128), o.start)
        } else if r0 == 0 {
            Line::new(self.start, o.start)
        } else {
            Line::new(self.start, lerp_exec(o.start, od, -r0 as i128, len2 as i128))
        };
        let cb = if r1 < len1 {
            let p = if r1 == 0 {
                self.start
            } else {
                lerp_exec(self.start, t, r1 as i128, len1 as i128)
            };
            Line::new(p, o.end)
        } else if len1 - r0 == 0 {
            Line::new(self.end, o.start)
        } else {
            Line::new(self.end, lerp_exec(o.start, od, (len1 - r0) as i128, len2 as i128))
        };
        Some((ca, cb))
    }

    /// Whether the distance from `point` to the segment is at most
    /// `sqrt(bound)`, decided exactly.
    pub fn within_distance_squared(&self, point: &Vec2, bound: i64) -> (r: bool)
        requires
            self.wf(),
            point.wf(),
            0 <= bound <= 0x20_0000_0000_0000,
        ensures
            r == within_sq(*self, *point, bound as int),
    {
        let v = self.as_difference();
        let w = point.sub(self.start);
        let c1 = w.dot(v);
        let c2 = v.dot(v);
        if c1 <= 0 {
            self.start.distance_squared(*point) <= bound
        } else if c2 <= c1 {
            self.end.distance_squared(*point) <= bound
        } else {
            let pd = v.perp_dot(w) as i128;
            proof {
                lemma_mul_bound(pd as int, pd as int, 0x20_0000_0000_0000, 0x20_0000_0000_0000);
                lemma_mul_bound(bound as int, c2 as int, 0x20_0000_0000_0000, 0x20_0000_0000_0000);
            }
            pd * pd <= (bound as i128) * (c2 as i128)
        }
    }

    /// The midpoint, rounded toward the start.
    pub fn midpoint(&self) -> (r: Vec2)
        requires
            self.wf(),
        ensures
            r == lerp(self.start, self.dir(), 1, 2),
            r.wf(),
    {
        lerp_exec(self.start, self.as_difference(), 1, 2)
    }

    /// Whether `point`, which lies on the infinite line through `self`, lies on
    /// the segment.
    pub fn intersects_colinear_point(&self, point: &Vec2) -> (r: bool)
        ensures
            r == self.covers_colinear(*point),
    {
        if self.start.x != self.end.x {
            (self.start.x <= point.x && point.x <= self.end.x) || (self.start.x >= point.x
                && point.x >= self.end.x)
        } else {
            (self.start.y <= point.y && point.y <= self.end.y) || (self.start.y >= point.y
                && point.y >= self.end.y)
        }
    }
}

} // verus!
