use crate::line::Line;
use crate::vec2::{dot, lemma_perp_dot_antisym, minus, perp_dot, Vec2};
use vstd::prelude::*;

verus! {

/// A contact normal: a nonzero direction with small coordinates. Normals are
/// stored as the primitive integer vector of their direction, so the axis
/// directions are exactly the unit vectors.
pub open spec fn normal_ok(n: Vec2) -> bool {
    n.small() && !(n.x == 0 && n.y == 0)
}

/// The opposite vector.
pub open spec fn neg_vec(n: Vec2) -> Vec2 {
    Vec2 { x: (-n.x) as i64, y: (-n.y) as i64 }
}

/// Two segments whose directions are parallel (or degenerate).
pub open spec fn parallel(a: Line, b: Line) -> bool {
    perp_dot(minus(a.end, a.start), minus(b.end, b.start)) == 0
}

/// A single point of contact on each shape, with the normal pointing from
/// "us" toward "them". The normal is the primitive integer vector of its
/// direction (coordinates without a common factor), not a vector of unit
/// length: `(1, 0)` or `(0, -1)` along the axes, `(3, 4)` on a diagonal.
#[derive(Clone, Copy, Debug, PartialEq, Eq, Structural)]
pub struct ContactPoint {
    pub us: Vec2,
    pub them: Vec2,
    pub normal: Vec2,
}

/// A pair of parallel contact edges, with the normal pointing from "us" toward
/// "them", given as the primitive integer vector of its direction.
#[derive(Clone, Copy, Debug, PartialEq, Eq, Structural)]
pub struct ContactEdge {
    pub us: Line,
    pub them: Line,
    pub normal: Vec2,
}

/// How two shapes touch.
#[derive(Clone, Copy, Debug, PartialEq, Eq, Structural)]
pub enum ContactManifold {
    Disjoint,
    Point(ContactPoint),
    Edge(ContactEdge),
    Coincident(Vec2),
}

impl ContactPoint {
    pub open spec fn wf(self) -> bool {
        normal_ok(self.normal) && self.us.near() && self.them.near()
    }

    /// The same contact seen from the other shape.
    pub open spec fn neg_spec(self) -> ContactPoint {
        ContactPoint { us: self.them, them: self.us, normal: neg_vec(self.normal) }
    }

    pub fn new(us: Vec2, them: Vec2, normal: Vec2) -> (r: ContactPoint)
        requires
            normal_ok(normal),
        ensures
            r == (ContactPoint { us, them, normal }),
    {
        ContactPoint { us, them, normal }
    }

    /// The vector from our contact point to theirs.
    pub fn separation_vector(&self) -> (r: Vec2)
        requires
            self.wf(),
        ensures
            r == minus(self.them, self.us),
    {
        self.them.sub(self.us)
    }

    /// The separation measured along the normal, in units of the normal's
    /// length.
    pub fn penetration_depth(&self) -> (r: i64)
        requires
            self.wf(),
        ensures
            r == dot(minus(self.them, self.us), self.normal),
    {
        self.separation_vector().dot(self.normal)
    }

    /// The same contact seen from the other shape.
    pub fn neg(self) -> (r: ContactPoint)
        requires
            normal_ok(self.normal),
        ensures
            r == self.neg_spec(),
    {
        ContactPoint { us: self.them, them: self.us, normal: Vec2::new(-self.normal.x, -self.normal.y) }
    }

    /// Turns the contact around, in place.
    pub fn negate(&mut self)
        requires
            normal_ok(old(self).normal),
        ensures
            *final(self) == old(self).neg_spec(),
    {
        *self = self.neg();
    }
}

impl ContactEdge {
    pub open spec fn wf(self) -> bool {
        normal_ok(self.normal) && parallel(self.us, self.them)
    }

    /// The same contact seen from the other shape.
    pub open spec fn neg_spec(self) -> ContactEdge {
        ContactEdge { us: self.them, them: self.us, normal: neg_vec(self.normal) }
    }

    pub fn new(us: Line, them: Line, normal: Vec2) -> (r: ContactEdge)
        requires
            normal_ok(normal),
            parallel(us, them),
        ensures
            r == (ContactEdge { us, them, normal }),
    {
        ContactEdge { us, them, normal }
    }

    /// The same contact seen from the other shape.
    pub fn neg(self) -> (r: ContactEdge)
        requires
            normal_ok(self.normal),
        ensures
            r == self.neg_spec(),
    {
        ContactEdge { us: self.them, them: self.us, normal: Vec2::new(-self.normal.x, -self.normal.y) }
    }

    /// Turns the contact around, in place.
    pub fn negate(&mut self)
        requires
            normal_ok(old(self).normal),
        ensures
            *final(self) == old(self).neg_spec(),
    {
        *self = self.neg();
    }
}

impl ContactManifold {
    /// Every normal is a valid direction and every edge pair is parallel.
    pub open spec fn wf(self) -> bool {
        match self {
            ContactManifold::Point(p) => p.wf(),
            ContactManifold::Edge(e) => e.wf(),
            _ => true,
        }
    }

    /// The same manifold seen from the other shape.
    pub open spec fn neg_spec(self) -> ContactManifold {
        match self {
            ContactManifold::Disjoint => ContactManifold::Disjoint,
            ContactManifold::Point(p) => ContactManifold::Point(p.neg_spec()),
            ContactManifold::Edge(e) => ContactManifold::Edge(e.neg_spec()),
            ContactManifold::Coincident(p) => ContactManifold::Coincident(p),
        }
    }

    pub fn disjoint() -> (r: ContactManifold)
        ensures
            r == ContactManifold::Disjoint,
    {
        ContactManifold::Disjoint
    }

    pub fn point(us: Vec2, them: Vec2, normal: Vec2) -> (r: ContactManifold)
        requires
            normal_ok(normal),
        ensures
            r == ContactManifold::Point(ContactPoint { us, them, normal }),
    {
        ContactManifold::Point(ContactPoint::new(us, them, normal))
    }

    pub fn edge(us: Line, them: Line, normal: Vec2) -> (r: ContactManifold)
        requires
            normal_ok(normal),
            parallel(us, them),
        ensures
            r == ContactManifold::Edge(ContactEdge { us, them, normal }),
    {
        ContactManifold::Edge(ContactEdge::new(us, them, normal))
    }

    pub fn coincident(point: Vec2) -> (r: ContactManifold)
        ensures
            r == ContactManifold::Coincident(point),
    {
        ContactManifold::Coincident(point)
    }

    /// The same manifold seen from the other shape.
    pub fn neg(self) -> (r: ContactManifold)
        requires
            self.wf(),
        ensures
            r == self.neg_spec(),
            r.wf(),
    {
        proof {
            lemma_neg_wf(self);
        }
        match self {
            ContactManifold::Disjoint => ContactManifold::Disjoint,
            ContactManifold::Point(p) => ContactManifold::Point(p.neg()),
            ContactManifold::Edge(e) => ContactManifold::Edge(e.neg()),
            ContactManifold::Coincident(p) => ContactManifold::Coincident(p),
        }
    }

    /// Turns the manifold around, in place.
    pub fn negate(&mut self)
        requires
            old(self).wf(),
        ensures
            *final(self) == old(self).neg_spec(),
            final(self).wf(),
    {
        *self = self.neg();
    }

    pub fn is_disjoint(&self) -> (r: bool)
        ensures
            r == (*self == ContactManifold::Disjoint),
    {
        matches!(self, ContactManifold::Disjoint)
    }

    pub fn is_colliding(&self) -> (r: bool)
        ensures
            r == (*self != ContactManifold::Disjoint),
    {
        !self.is_disjoint()
    }
}

/// Turning a manifold around twice gives it back.
pub proof fn lemma_neg_involutive(m: ContactManifold)
    requires
        m.wf(),
    ensures
        m.neg_spec().neg_spec() == m,
        m.neg_spec().wf(),
{
    lemma_neg_wf(m);
}

proof fn lemma_neg_wf(m: ContactManifold)
    requires
        m.wf(),
    ensures
        m.neg_spec().wf(),
{
    if let ContactManifold::Edge(e) = m {
        lemma_perp_dot_antisym(e.us.dir(), e.them.dir());
    }
}

} // verus!
