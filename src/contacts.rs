use crate::algorithms::manifold_ok;
use crate::collider::{collision, Collider};
use crate::contact::ContactManifold;
use crate::layers::{layers_meet, CollisionLayers};
use crate::transform::{collider_maps_ok, is_image, Transform};
use std::collections::HashMap;
use vstd::prelude::*;

verus! {

broadcast use vstd::std_specs::hash::group_hash_axioms;

/// The contacts of one shape: for each entity it touches, the manifold seen
/// from this shape.
#[derive(Debug)]
pub struct Colliding {
    pub contacts: HashMap<u64, ContactManifold>,
}

impl Colliding {
    pub fn new() -> (r: Colliding)
        ensures
            r.contacts@ == Map::<u64, ContactManifold>::empty(),
    {
        Colliding { contacts: HashMap::new() }
    }
}

/// Two shapes started to touch.
#[derive(Clone, Copy, Debug, PartialEq, Eq, Structural)]
pub struct CollisionBegan {
    pub us: u64,
    pub them: u64,
    pub contact: ContactManifold,
}

/// Two shapes stopped touching.
#[derive(Clone, Copy, Debug, PartialEq, Eq, Structural)]
pub struct CollisionEnded {
    pub us: u64,
    pub them: u64,
}

/// A change in whether two shapes touch.
#[derive(Clone, Copy, Debug, PartialEq, Eq, Structural)]
pub enum CollisionEvent {
    Began(CollisionBegan),
    Ended(CollisionEnded),
}

impl CollisionEvent {
    pub fn began(us: u64, them: u64, contact: ContactManifold) -> (r: CollisionEvent)
        ensures
            r == CollisionEvent::Began(CollisionBegan { us, them, contact }),
    {
        CollisionEvent::Began(CollisionBegan { us, them, contact })
    }

    pub fn ended(us: u64, them: u64) -> (r: CollisionEvent)
        ensures
            r == CollisionEvent::Ended(CollisionEnded { us, them }),
    {
        CollisionEvent::Ended(CollisionEnded { us, them })
    }
}

/// Folds the result of testing the shape of entity `us` against that of
/// entity `them` into both contact sets. A contact is stored in each set, seen
/// from its owner, and begins a collision when neither set held the other
/// entity; no contact removes both entries, and ends a collision when both
/// sets held one.
pub fn record_contact(
    us: u64,
    us_colliding: &mut Colliding,
    them: u64,
    them_colliding: &mut Colliding,
    contact: Option<ContactManifold>,
) -> (r: Option<CollisionEvent>)
    requires
        manifold_ok(contact),
    ensures
        match contact {
            Some(m) => {
                &&& final(us_colliding).contacts@ == old(us_colliding).contacts@.insert(them, m)
                &&& final(them_colliding).contacts@ == old(them_colliding).contacts@.insert(
                    us,
                    m.neg_spec(),
                )
                &&& r == if !old(us_colliding).contacts@.contains_key(them) && !old(
                    them_colliding,
                ).contacts@.contains_key(us) {
                    Some(CollisionEvent::Began(CollisionBegan { us, them, contact: m }))
                } else {
                    None
                }
            },
            None => {
                &&& final(us_colliding).contacts@ == old(us_colliding).contacts@.remove(them)
                &&& final(them_colliding).contacts@ == old(them_colliding).contacts@.remove(us)
                &&& r == if old(us_colliding).contacts@.contains_key(them) && old(
                    them_colliding,
                ).contacts@.contains_key(us) {
                    Some(CollisionEvent::Ended(CollisionEnded { us, them }))
                } else {
                    None
                }
            },
        },
{
    match contact {
        Some(m) => {
            let us_was_apart = us_colliding.contacts.insert(them, m).is_none();
            let them_was_apart = them_colliding.contacts.insert(us, m.neg()).is_none();
            if us_was_apart && them_was_apart {
                Some(CollisionEvent::began(us, them, m))
            } else {
                None
            }
        },
        None => {
            let us_was_touching = us_colliding.contacts.remove(&them).is_some();
            let them_was_touching = them_colliding.contacts.remove(&us).is_some();
            if us_was_touching && them_was_touching {
                Some(CollisionEvent::ended(us, them))
            } else {
                None
            }
        },
    }
}

/// One shape of the world: its entity, where it stands, what it is, which
/// layers it is on.
#[derive(Clone, Debug)]
pub struct Body {
    pub entity: u64,
    pub transform: Transform,
    pub collider: Collider,
    pub layers: CollisionLayers,
}

impl Body {
    /// The shape is well formed and its placed image lies on the grid.
    pub open spec fn wf(&self) -> bool {
        &&& self.collider.wf()
        &&& self.transform.wf()
        &&& collider_maps_ok(self.transform, self.collider)
    }

    /// Whether the shape is well formed and its placed image lies on the grid.
    pub fn is_valid(&self) -> (r: bool)
        ensures
            r == self.wf(),
    {
        self.collider.is_valid() && self.transform.is_valid()
            && self.transform.maps_shape_into_range(&self.collider)
    }
}

/// Tests one pair of bodies, once per frame: bodies whose layers do not meet
/// are skipped and change nothing; otherwise both shapes are placed in the
/// world, collided, and the result folded into both contact sets.
pub fn step_pair(
    us: &Body,
    us_colliding: &mut Colliding,
    them: &Body,
    them_colliding: &mut Colliding,
) -> (r: Option<CollisionEvent>)
    requires
        us.wf(),
        them.wf(),
    ensures
        !layers_meet(us.layers, them.layers) ==> {
            &&& r is None
            &&& final(us_colliding).contacts@ == old(us_colliding).contacts@
            &&& final(them_colliding).contacts@ == old(them_colliding).contacts@
        },
        layers_meet(us.layers, them.layers) ==> exists|a: Collider, b: Collider|
            {
                &&& is_image(us.transform, us.collider, a)
                &&& is_image(them.transform, them.collider, b)
                &&& match collision(a, b) {
                    Some(m) => {
                        &&& final(us_colliding).contacts@ == old(us_colliding).contacts@.insert(
                            them.entity,
                            m,
                        )
                        &&& final(them_colliding).contacts@ == old(
                            them_colliding,
                        ).contacts@.insert(us.entity, m.neg_spec())
                        &&& r == if !old(us_colliding).contacts@.contains_key(them.entity)
                            && !old(them_colliding).contacts@.contains_key(us.entity) {
                            Some(
                                CollisionEvent::Began(
                                    CollisionBegan { us: us.entity, them: them.entity, contact: m },
                                ),
                            )
                        } else {
                            None
                        }
                    },
                    None => {
                        &&& final(us_colliding).contacts@ == old(us_colliding).contacts@.remove(
                            them.entity,
                        )
                        &&& final(them_colliding).contacts@ == old(
                            them_colliding,
                        ).contacts@.remove(us.entity)
                        &&& r == if old(us_colliding).contacts@.contains_key(them.entity) && old(
                            them_colliding,
                        ).contacts@.contains_key(us.entity) {
                            Some(CollisionEvent::Ended(CollisionEnded { us: us.entity, them: them.entity }))
                        } else {
                            None
                        }
                    },
                }
            },
{
    if !us.layers.intersects(&them.layers) {
        return None;
    }
    let a = us.collider.to_transformed(&us.transform);
    let b = them.collider.to_transformed(&them.transform);
    let contact = a.collide(&b);
    let r = record_contact(us.entity, us_colliding, them.entity, them_colliding, contact);
    assert(is_image(us.transform, us.collider, a) && is_image(them.transform, them.collider, b));
    r
}

} // verus!
