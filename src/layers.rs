use vstd::prelude::*;

verus! {

/// A set of collision layers, one bit per layer.
#[derive(Clone, Copy, Debug, PartialEq, Eq, Structural)]
pub struct CollisionLayerFlags {
    pub bits: u64,
}

/// Every layer at once.
pub const EVERYTHING: u64 = 0xffff_ffff_ffff_ffff;

impl CollisionLayerFlags {
    pub fn from_bits(bits: u64) -> (r: CollisionLayerFlags)
        ensures
            r.bits == bits,
    {
        CollisionLayerFlags { bits }
    }

    /// Every layer at once.
    pub fn everything() -> (r: CollisionLayerFlags)
        ensures
            r.bits == EVERYTHING,
    {
        CollisionLayerFlags { bits: EVERYTHING }
    }

    /// Whether the two sets share a layer.
    pub fn intersects(&self, other: &CollisionLayerFlags) -> (r: bool)
        ensures
            r == (self.bits & other.bits != 0),
    {
        self.bits & other.bits != 0
    }
}

/// Which other shapes a shape is tested against. A shape without layers meets
/// every shape but an exclusive one; an inclusive shape meets every shape
/// without layers; two shapes with layers meet when they share one.
#[derive(Clone, Copy, Debug, PartialEq, Eq, Structural)]
pub enum CollisionLayers {
    Unlayered,
    Inclusive(CollisionLayerFlags),
    Exclusive(CollisionLayerFlags),
}

/// Whether shapes with these layers are tested against each other.
pub open spec fn layers_meet(a: CollisionLayers, b: CollisionLayers) -> bool {
    match (a, b) {
        (CollisionLayers::Unlayered, CollisionLayers::Exclusive(_)) => false,
        (CollisionLayers::Unlayered, _) => true,
        (CollisionLayers::Inclusive(_), CollisionLayers::Unlayered) => true,
        (CollisionLayers::Exclusive(_), CollisionLayers::Unlayered) => false,
        (CollisionLayers::Inclusive(x), CollisionLayers::Inclusive(y)) => x.bits & y.bits != 0,
        (CollisionLayers::Inclusive(x), CollisionLayers::Exclusive(y)) => x.bits & y.bits != 0,
        (CollisionLayers::Exclusive(x), CollisionLayers::Inclusive(y)) => x.bits & y.bits != 0,
        (CollisionLayers::Exclusive(x), CollisionLayers::Exclusive(y)) => x.bits & y.bits != 0,
    }
}

impl CollisionLayers {
    /// The layers, for a shape that has any.
    pub fn flags(&self) -> (r: Option<CollisionLayerFlags>)
        ensures
            r == match *self {
                CollisionLayers::Unlayered => None,
                CollisionLayers::Inclusive(f) => Some(f),
                CollisionLayers::Exclusive(f) => Some(f),
            },
    {
        match self {
            CollisionLayers::Unlayered => None,
            CollisionLayers::Inclusive(flags) => Some(*flags),
            CollisionLayers::Exclusive(flags) => Some(*flags),
        }
    }

    /// Whether shapes with these layers are tested against each other.
    pub fn intersects(&self, other: &CollisionLayers) -> (r: bool)
        ensures
            r == layers_meet(*self, *other),
    {
        let flags = match self.flags() {
            Some(f) => f,
            None => {
                return !matches!(other, CollisionLayers::Exclusive(_));
            },
        };
        let theirs = match other.flags() {
            Some(f) => f,
            None => {
                return matches!(self, CollisionLayers::Inclusive(_));
            },
        };
        flags.intersects(&theirs)
    }
}

/// Layer filtering does not depend on the order of the two shapes.
pub proof fn lemma_layers_meet_symmetric(a: CollisionLayers, b: CollisionLayers)
    ensures
        layers_meet(a, b) == layers_meet(b, a),
{
    let x: u64 = match a {
        CollisionLayers::Inclusive(f) => f.bits,
        CollisionLayers::Exclusive(f) => f.bits,
        CollisionLayers::Unlayered => 0,
    };
    let y: u64 = match b {
        CollisionLayers::Inclusive(f) => f.bits,
        CollisionLayers::Exclusive(f) => f.bits,
        CollisionLayers::Unlayered => 0,
    };
    assert(x & y == y & x) by (bit_vector);
}

} // verus!
