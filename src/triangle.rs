use crate::polygon::Polygon;
use crate::vec2::Vec2;
use vstd::prelude::*;

verus! {

/// A triangle with corners `a`, `b`, `c`.
#[derive(Clone, Copy, Debug, PartialEq, Eq, Structural)]
pub struct Triangle {
    pub a: Vec2,
    pub b: Vec2,
    pub c: Vec2,
}

impl Triangle {
    pub open spec fn wf(self) -> bool {
        self.a.wf() && self.b.wf() && self.c.wf()
    }

    /// The corners in order, as a polygon's vertices.
    pub open spec fn corners(self) -> Seq<Vec2> {
        seq![self.a, self.b, self.c]
    }

    pub fn new(a: Vec2, b: Vec2, c: Vec2) -> (r: Triangle)
        ensures
            r == (Triangle { a, b, c }),
    {
        Triangle { a, b, c }
    }

    pub fn from_array(arr: [Vec2; 3]) -> (r: Triangle)
        ensures
            r == (Triangle { a: arr[0], b: arr[1], c: arr[2] }),
    {
        Triangle { a: arr[0], b: arr[1], c: arr[2] }
    }

    /// Twice the area.
    pub fn double_area(&self) -> (r: i64)
        requires
            self.wf(),
        ensures
            r == crate::vec2::abs_i(
                crate::vec2::perp_dot(crate::vec2::minus(self.b, self.a), crate::vec2::minus(self.c, self.a)),
            ),
    {
        let p = self.b.sub(self.a).perp_dot(self.c.sub(self.a));
        if p >= 0 { p } else { -p }
    }

    /// The triangle as a polygon of three vertices.
    pub fn to_polygon(&self) -> (r: Polygon)
        requires
            self.wf(),
        ensures
            r.vertices@ == self.corners(),
            r.wf(),
    {
        let r = Polygon::new(vec![self.a, self.b, self.c]);
        assert(r.vertices@ =~= self.corners());
        r
    }
}

} // verus!
