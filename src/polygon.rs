use crate::line::Line;
use crate::vec2::{lemma_mul_bound, Vec2};
use vstd::prelude::*;

verus! {

/// A polygon given by its vertices in order; an edge closes it from the last
/// vertex back to the first.
#[derive(Clone, Debug)]
pub struct Polygon {
    pub vertices: Vec<Vec2>,
}

/// The number of edges of a polygon of `n` vertices: a lone vertex has none.
pub open spec fn edge_count(n: int) -> int {
    if n >= 2 { n } else { 0 }
}

/// Edge `i` of the polygon with vertices `vs`: from vertex `i` to the next one,
/// wrapping to the first.
pub open spec fn edge_of(vs: Seq<Vec2>, i: int) -> Line {
    Line { start: vs[i], end: if i + 1 < vs.len() { vs[i + 1] } else { vs[0] } }
}

/// Twice the signed area of the triangle (edge start, edge end, `p`): positive
/// when `p` lies left of the edge.
pub open spec fn is_left(e: Line, p: Vec2) -> int {
    (e.end.x - e.start.x) * (p.y - e.start.y) - (p.x - e.start.x) * (e.end.y - e.start.y)
}

/// What an edge adds to the winding number around `p`: +1 for an upward
/// crossing of the ray to the right of `p` with `p` left of the edge, -1 for a
/// downward crossing with `p` right of the edge.
pub open spec fn winding_step(e: Line, p: Vec2) -> int {
    if e.start.y <= p.y {
        if e.end.y > p.y && is_left(e, p) > 0 { 1 } else { 0 }
    } else {
        if e.end.y <= p.y && is_left(e, p) < 0 { -1 } else { 0 }
    }
}

/// Whether an edge crosses the horizontal ray going right from `p`, the
/// crossing point compared exactly.
pub open spec fn crosses_ray(e: Line, p: Vec2) -> bool {
    let dy = e.end.y - e.start.y;
    let lhs = (p.x - e.start.x) * dy;
    let rhs = (p.y - e.start.y) * (e.end.x - e.start.x);
    if e.start.y <= p.y && e.end.y > p.y {
        lhs < rhs
    } else if e.start.y > p.y && e.end.y <= p.y {
        lhs > rhs
    } else {
        false
    }
}

/// The winding number around `p` of the first `k` edges.
pub open spec fn winding_prefix(vs: Seq<Vec2>, p: Vec2, k: int) -> int
    decreases k,
{
    if k <= 0 {
        0
    } else {
        winding_prefix(vs, p, k - 1) + winding_step(edge_of(vs, k - 1), p)
    }
}

/// The number of the first `k` edges that cross the ray right of `p`.
pub open spec fn crossing_prefix(vs: Seq<Vec2>, p: Vec2, k: int) -> int
    decreases k,
{
    if k <= 0 {
        0
    } else {
        crossing_prefix(vs, p, k - 1) + if crosses_ray(edge_of(vs, k - 1), p) { 1int } else { 0 }
    }
}

/// The winding number of the polygon `vs` around `p`.
pub open spec fn winding(vs: Seq<Vec2>, p: Vec2) -> int {
    winding_prefix(vs, p, edge_count(vs.len() as int))
}

/// Whether the polygon `vs` contains `p`: a nonzero winding number.
pub open spec fn polygon_contains(vs: Seq<Vec2>, p: Vec2) -> bool {
    winding(vs, p) != 0
}

proof fn lemma_winding_prefix_bound(vs: Seq<Vec2>, p: Vec2, k: int)
    requires
        k >= 0,
    ensures
        -k <= winding_prefix(vs, p, k) <= k,
        0 <= crossing_prefix(vs, p, k) <= k,
    decreases k,
{
    if k > 0 {
        lemma_winding_prefix_bound(vs, p, k - 1);
    }
}

/// Largest number of vertices of a polygon.
pub const MAX_VERTICES: usize = 0x7fff_ffff;

/// The edges of a polygon, for cursors over them.
pub struct EdgesIterator<'a> {
    vertices: &'a [Vec2],
    index: usize,
}

impl<'a> EdgesIterator<'a> {
    pub closed spec fn vertices_view(&self) -> Seq<Vec2> {
        self.vertices@
    }

    pub closed spec fn position(&self) -> int {
        self.index as int
    }

    /// A cursor at the first edge of the polygon with these vertices.
    pub fn new(vertices: &'a [Vec2]) -> (r: EdgesIterator<'a>)
        ensures
            r.vertices_view() == vertices@,
            r.position() == 0,
    {
        EdgesIterator { vertices, index: 0 }
    }

    /// How many edges are left to hand out, as a lower and an upper bound.
    pub fn size_hint(&self) -> (r: (usize, Option<usize>))
        requires
            self.position() <= edge_count(self.vertices_view().len() as int),
        ensures
            r.0 == edge_count(self.vertices_view().len() as int) - self.position(),
            r.1 == Some(r.0),
    {
        let n = self.vertices.len();
        let count = if n >= 2 { n } else { 0 };
        let left = count - self.index;
        (left, Some(left))
    }

    /// The next edge, or `None` when every edge has been handed out.
    pub fn next(&mut self) -> (r: Option<Line>)
        requires
            old(self).position() <= edge_count(old(self).vertices_view().len() as int),
        ensures
            final(self).vertices_view() == old(self).vertices_view(),
            final(self).position() <= edge_count(final(self).vertices_view().len() as int),
            old(self).position() < edge_count(old(self).vertices_view().len() as int) ==> {
                &&& r == Some(edge_of(old(self).vertices_view(), old(self).position()))
                &&& final(self).position() == old(self).position() + 1
            },
            old(self).position() >= edge_count(old(self).vertices_view().len() as int) ==> {
                &&& r is None
                &&& final(self).position() == old(self).position()
            },
    {
        let n = self.vertices.len();
        if n < 2 || self.index >= n {
            return None;
        }
        let i = self.index;
        let end = if i + 1 < n { self.vertices[i + 1] } else { self.vertices[0] };
        self.index = i + 1;
        Some(Line::new(self.vertices[i], end))
    }
}

impl Polygon {
    /// Every vertex lies on the grid, and there are not too many of them.
    pub open spec fn wf(&self) -> bool {
        &&& self.vertices@.len() <= MAX_VERTICES
        &&& forall|i: int| 0 <= i < self.vertices@.len() ==> (#[trigger] self.vertices@[i]).wf()
    }

    /// Whether every vertex lies on the grid and there are not too many.
    pub fn is_valid(&self) -> (r: bool)
        ensures
            r == self.wf(),
    {
        let n = self.vertices.len();
        if n > MAX_VERTICES {
            return false;
        }
        let mut i: usize = 0;
        while i < n
            invariant
                n == self.vertices@.len(),
                n <= MAX_VERTICES,
                i <= n,
                forall|j: int| 0 <= j < i ==> (#[trigger] self.vertices@[j]).wf(),
            decreases n - i,
        {
            if !self.vertices[i].is_valid() {
                return false;
            }
            i = i + 1;
        }
        true
    }

    pub fn new(vertices: Vec<Vec2>) -> (r: Polygon)
        ensures
            r.vertices@ == vertices@,
    {
        Polygon { vertices }
    }

    /// The edge from vertex `i` to the next one, wrapping to the first.
    pub fn edge(&self, i: usize) -> (r: Line)
        requires
            i < self.vertices@.len(),
        ensures
            r == edge_of(self.vertices@, i as int),
    {
        let end = if i < self.vertices.len() - 1 {
            self.vertices[i + 1]
        } else {
            self.vertices[0]
        };
        Line::new(self.vertices[i], end)
    }

    /// A cursor over the edges.
    pub fn edges(&self) -> (r: EdgesIterator<'_>)
        ensures
            r.vertices_view() == self.vertices@,
            r.position() == 0,
    {
        EdgesIterator::new(self.vertices.as_slice())
    }

    /// The number of edges that cross the horizontal ray going right from
    /// `point`.
    pub fn crossing_number(&self, point: Vec2) -> (r: u64)
        requires
            self.wf(),
            point.wf(),
        ensures
            r == crossing_prefix(self.vertices@, point, edge_count(self.vertices@.len() as int)),
    {
        let n = self.vertices.len();
        let count = if n >= 2 { n } else { 0 };
        let mut crossings: u64 = 0;
        let mut i: usize = 0;
        while i < count
            invariant
                self.wf(),
                point.wf(),
                n == self.vertices@.len(),
                count == edge_count(n as int),
                i <= count,
                crossings == crossing_prefix(self.vertices@, point, i as int),
            decreases count - i,
        {
            proof {
                lemma_winding_prefix_bound(self.vertices@, point, i as int);
            }
            let e = self.edge(i);
            assert(e.start.wf() && e.end.wf());
            let dy = e.end.y - e.start.y;
            proof {
                lemma_mul_bound((point.x - e.start.x) as int, dy as int, 0x400_0000, 0x400_0000);
                lemma_mul_bound(
                    (point.y - e.start.y) as int,
                    (e.end.x - e.start.x) as int,
                    0x400_0000,
                    0x400_0000,
                );
            }
            let lhs = (point.x - e.start.x) * dy;
            let rhs = (point.y - e.start.y) * (e.end.x - e.start.x);
            let crosses = if e.start.y <= point.y && e.end.y > point.y {
                lhs < rhs
            } else if e.start.y > point.y && e.end.y <= point.y {
                lhs > rhs
            } else {
                false
            };
            if crosses {
                crossings = crossings + 1;
            }
            i = i + 1;
        }
        crossings
    }

    /// The winding number of the polygon around `point`.
    pub fn winding_number(&self, point: Vec2) -> (r: i64)
        requires
            self.wf(),
            point.wf(),
        ensures
            r == winding(self.vertices@, point),
    {
        let n = self.vertices.len();
        let count = if n >= 2 { n } else { 0 };
        let mut wn: i64 = 0;
        let mut i: usize = 0;
        while i < count
            invariant
                self.wf(),
                point.wf(),
                n == self.vertices@.len(),
                count == edge_count(n as int),
                i <= count,
                wn == winding_prefix(self.vertices@, point, i as int),
            decreases count - i,
        {
            proof {
                lemma_winding_prefix_bound(self.vertices@, point, i as int);
            }
            let e = self.edge(i);
            assert(e.start.wf() && e.end.wf());
            proof {
                lemma_mul_bound(
                    (e.end.x - e.start.x) as int,
                    (point.y - e.start.y) as int,
                    0x400_0000,
                    0x400_0000,
                );
                lemma_mul_bound(
                    (point.x - e.start.x) as int,
                    (e.end.y - e.start.y) as int,
                    0x400_0000,
                    0x400_0000,
                );
            }
            let left = (e.end.x - e.start.x) * (point.y - e.start.y) - (point.x - e.start.x) * (
            e.end.y - e.start.y);
            if e.start.y <= point.y {
                if e.end.y > point.y && left > 0 {
                    wn = wn + 1;
                }
            } else {
                if e.end.y <= point.y && left < 0 {
                    wn = wn - 1;
                }
            }
            i = i + 1;
        }
        wn
    }

    /// Whether the polygon contains `point`: a nonzero winding number.
    pub fn contains(&self, point: Vec2) -> (r: bool)
        requires
            self.wf(),
            point.wf(),
        ensures
            r == polygon_contains(self.vertices@, point),
    {
        self.winding_number(point) != 0
    }
}

} // verus!
