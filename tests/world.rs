use overlap_2d::capsule::Capsule;
use overlap_2d::circle::Circle;
use overlap_2d::collider::Collider;
use overlap_2d::contact::{ContactManifold, ContactPoint};
use overlap_2d::contacts::{record_contact, step_pair, Body, CollisionEvent, Colliding};
use overlap_2d::layers::{CollisionLayerFlags, CollisionLayers};
use overlap_2d::line::Line;
use overlap_2d::transform::Transform;
use overlap_2d::vec2::Vec2;

fn v(x: i64, y: i64) -> Vec2 {
    Vec2::new(x, y)
}

fn layers(bits: u64) -> CollisionLayerFlags {
    CollisionLayerFlags::from_bits(bits)
}

fn shifted(x: i64, y: i64) -> Transform {
    Transform { x_axis: v(1, 0), y_axis: v(0, 1), translation: v(x, y) }
}

#[test]
fn clip_segments_against_each_other() {
    let a = Line::new(v(0, 0), v(10, 0));
    let b = Line::new(v(12, 3), v(4, 3));
    assert_eq!(
        a.clip_with(&b),
        Some((Line::new(v(4, 0), v(4, 3)), Line::new(v(10, 0), v(10, 3))))
    );
    let c = Line::new(v(-4, 2), v(20, 2));
    assert_eq!(
        a.clip_with(&c),
        Some((Line::new(v(0, 0), v(0, 2)), Line::new(v(10, 0), v(10, 2))))
    );
    assert_eq!(a.clip_with(&Line::new(v(11, 1), v(15, 1))), None);
}

#[test]
fn layer_rules() {
    let none = CollisionLayers::Unlayered;
    let inc = CollisionLayers::Inclusive(layers(0b01));
    let exc = CollisionLayers::Exclusive(layers(0b10));
    assert!(none.intersects(&none));
    assert!(none.intersects(&inc));
    assert!(!none.intersects(&exc));
    assert!(inc.intersects(&none));
    assert!(!exc.intersects(&none));
    assert!(!inc.intersects(&exc));
    assert!(exc.intersects(&CollisionLayers::Inclusive(layers(0b11))));
    assert!(CollisionLayerFlags::everything().intersects(&layers(0b100)));
    assert_eq!(inc.flags(), Some(layers(0b01)));
    assert_eq!(none.flags(), None);
}

#[test]
fn contacts_begin_and_end_once() {
    let mut a = Colliding::new();
    let mut b = Colliding::new();
    let m = ContactManifold::point(v(1, 0), v(2, 0), v(1, 0));
    assert_eq!(record_contact(1, &mut a, 2, &mut b, Some(m)), Some(CollisionEvent::began(1, 2, m)));
    assert_eq!(a.contacts.get(&2), Some(&m));
    assert_eq!(b.contacts.get(&1), Some(&m.neg()));
    assert_eq!(record_contact(1, &mut a, 2, &mut b, Some(m)), None);
    assert_eq!(record_contact(1, &mut a, 2, &mut b, None), Some(CollisionEvent::ended(1, 2)));
    assert!(a.contacts.is_empty());
    assert!(b.contacts.is_empty());
    assert_eq!(record_contact(1, &mut a, 2, &mut b, None), None);
}

#[test]
fn pairs_are_placed_filtered_and_recorded() {
    let left = Body {
        entity: 7,
        transform: shifted(0, 0),
        collider: Collider::Circle(Circle::new(v(0, 0), 5)),
        layers: CollisionLayers::Unlayered,
    };
    let right = Body {
        entity: 9,
        transform: shifted(10, 0),
        collider: Collider::Circle(Circle::new(v(0, 0), 5)),
        layers: CollisionLayers::Inclusive(layers(1)),
    };
    let mut a = Colliding::new();
    let mut b = Colliding::new();
    let touch = ContactManifold::Point(ContactPoint { us: v(5, 0), them: v(5, 0), normal: v(1, 0) });
    assert_eq!(step_pair(&left, &mut a, &right, &mut b), Some(CollisionEvent::began(7, 9, touch)));
    let hidden = Body { layers: CollisionLayers::Exclusive(layers(2)), ..left.clone() };
    let mut c = Colliding::new();
    let mut d = Colliding::new();
    assert_eq!(step_pair(&hidden, &mut c, &right, &mut d), None);
    let far = Body { transform: shifted(30, 0), ..right.clone() };
    assert_eq!(step_pair(&left, &mut a, &far, &mut b), Some(CollisionEvent::ended(7, 9)));
    let stick = Body {
        entity: 11,
        transform: shifted(0, 9),
        collider: Collider::Capsule(Capsule::new(Line::new(v(-5, 0), v(5, 0)), 4)),
        layers: CollisionLayers::Unlayered,
    };
    let mut e = Colliding::new();
    let mut f = Colliding::new();
    assert!(step_pair(&left, &mut e, &stick, &mut f).is_some());
}

#[test]
fn validity_checks() {
    assert!(v(4_194_304, -4_194_304).is_valid());
    assert!(!v(4_194_305, 0).is_valid());
    let bad_rect = Collider::Rectangle(overlap_2d::rect::Rectangle { min: v(5, 0), max: v(0, 5) });
    assert!(!bad_rect.is_valid());
    assert!(!Collider::Circle(Circle::new(v(0, 0), -1)).is_valid());
    assert!(Collider::Circle(Circle::new(v(0, 0), 3)).is_valid());
    let body = Body {
        entity: 1,
        transform: shifted(4_194_300, 0),
        collider: Collider::Circle(Circle::new(v(10, 0), 3)),
        layers: CollisionLayers::Unlayered,
    };
    assert!(!body.is_valid());
    let moved = Body { transform: shifted(100, 0), ..body.clone() };
    assert!(moved.is_valid());
    assert!(moved.transform.maps_into_range(v(4_194_204, 0)));
    assert!(!moved.transform.maps_into_range(v(4_194_205, 0)));
}
