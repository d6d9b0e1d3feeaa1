use overlap_2d::algorithms::{
    collide_capsule_capsule, collide_capsule_circle, collide_circle_circle, collide_circle_rect,
    collide_line_line, collide_line_point, collide_point_point, collide_polygon_polygon,
    collide_polygon_rect, collide_rect_rect,
};
use overlap_2d::capsule::Capsule;
use overlap_2d::circle::Circle;
use overlap_2d::collider::Collider;
use overlap_2d::contact::{ContactEdge, ContactManifold, ContactPoint};
use overlap_2d::line::{Line, LineIntersection};
use overlap_2d::point::Point;
use overlap_2d::polygon::Polygon;
use overlap_2d::rect::Rectangle;
use overlap_2d::transform::Transform;
use overlap_2d::triangle::Triangle;
use overlap_2d::vec2::Vec2;

fn v(x: i64, y: i64) -> Vec2 {
    Vec2::new(x, y)
}

fn line(a: (i64, i64), b: (i64, i64)) -> Line {
    Line::new(v(a.0, a.1), v(b.0, b.1))
}

fn square() -> Polygon {
    Polygon::new(vec![v(0, 0), v(10, 0), v(10, 10), v(0, 10)])
}

#[test]
fn it_works() {}

#[test]
fn circles_touching_at_the_boundary() {
    let a = Circle::new(v(0, 0), 5);
    let b = Circle::new(v(10, 0), 5);
    assert_eq!(
        collide_circle_circle(&a, &b),
        Some(ContactManifold::Point(ContactPoint { us: v(5, 0), them: v(5, 0), normal: v(1, 0) }))
    );
}

#[test]
fn circles_just_apart() {
    let a = Circle::new(v(0, 0), 5);
    let b = Circle::new(v(11, 0), 5);
    assert_eq!(collide_circle_circle(&a, &b), None);
}

#[test]
fn circles_overlapping_diagonally() {
    let a = Circle::new(v(0, 0), 5);
    let b = Circle::new(v(3, 4), 5);
    assert_eq!(
        collide_circle_circle(&a, &b),
        Some(ContactManifold::Point(ContactPoint { us: v(3, 4), them: v(0, 0), normal: v(3, 4) }))
    );
}

#[test]
fn circles_with_one_center() {
    let a = Circle::new(v(2, 2), 0);
    let b = Circle::new(v(2, 2), 0);
    assert_eq!(collide_circle_circle(&a, &b), Some(ContactManifold::Coincident(v(2, 2))));
}

#[test]
fn rectangle_contains_point() {
    let r = Rectangle::from_corners(v(0, 0), v(10, 10));
    assert!(r.contains(v(5, 5)));
    assert!(!r.contains(v(15, 5)));
    assert!(r.contains(v(10, 0)));
}

#[test]
fn rectangles_overlap_on_least_axis() {
    let a = Rectangle::from_corners(v(0, 0), v(10, 10));
    let b = Rectangle::from_corners(v(5, 5), v(15, 15));
    assert_eq!(
        collide_rect_rect(&a, &b),
        Some(ContactManifold::Edge(ContactEdge {
            us: line((5, 10), (10, 10)),
            them: line((5, 5), (10, 5)),
            normal: v(0, 1),
        }))
    );
}

#[test]
fn rectangles_overlap_from_the_left() {
    let a = Rectangle::from_corners(v(0, 0), v(10, 10));
    let b = Rectangle::from_corners(v(-8, 1), v(2, 9));
    assert_eq!(
        collide_rect_rect(&a, &b),
        Some(ContactManifold::Edge(ContactEdge {
            us: line((0, 1), (0, 9)),
            them: line((2, 1), (2, 9)),
            normal: v(-1, 0),
        }))
    );
}

#[test]
fn rectangles_apart() {
    let a = Rectangle::from_corners(v(0, 0), v(10, 10));
    let b = Rectangle::from_corners(v(11, 0), v(20, 10));
    assert_eq!(collide_rect_rect(&a, &b), None);
}

#[test]
fn square_polygon_winding() {
    let p = square();
    assert_eq!(p.winding_number(v(5, 5)), 1);
    assert!(p.contains(v(5, 5)));
    assert!(!p.contains(v(15, 15)));
    assert_eq!(p.crossing_number(v(5, 5)), 1);
    assert_eq!(p.crossing_number(v(-5, 5)), 2);
}

#[test]
fn clockwise_polygon_winds_negatively() {
    let p = Polygon::new(vec![v(0, 0), v(0, 10), v(10, 10), v(10, 0)]);
    assert_eq!(p.winding_number(v(5, 5)), -1);
    assert!(p.contains(v(5, 5)));
}

#[test]
fn empty_polygon_contains_nothing() {
    let p = Polygon::new(vec![]);
    assert!(!p.contains(v(0, 0)));
    let one = Polygon::new(vec![v(1, 1)]);
    assert_eq!(one.edges().next(), None);
}

#[test]
fn polygon_edges_wrap_around() {
    let p = square();
    let mut it = p.edges();
    assert_eq!(it.size_hint(), (4, Some(4)));
    assert_eq!(it.next(), Some(line((0, 0), (10, 0))));
    assert_eq!(it.size_hint(), (3, Some(3)));
    assert_eq!(it.next(), Some(line((10, 0), (10, 10))));
    assert_eq!(it.next(), Some(line((10, 10), (0, 10))));
    assert_eq!(it.next(), Some(line((0, 10), (0, 0))));
    assert_eq!(it.next(), None);
}

#[test]
fn crossing_segments_intersect() {
    let a = line((0, 0), (10, 10));
    let b = line((0, 10), (10, 0));
    assert_eq!(a.intersect_line(&b), LineIntersection::Intersecting(v(5, 5)));
    assert_eq!(collide_line_line(&a, &b), Some(ContactManifold::Coincident(v(5, 5))));
}

#[test]
fn colinear_segments_overlap() {
    let a = line((0, 0), (10, 0));
    let b = line((5, 0), (15, 0));
    assert_eq!(a.intersect_line(&b), LineIntersection::Colinear(line((5, 0), (10, 0))));
    assert_eq!(collide_line_line(&a, &b), Some(ContactManifold::Coincident(v(7, 0))));
}

#[test]
fn colinear_segments_touching_at_a_point() {
    let a = line((0, 0), (10, 0));
    let b = line((10, 0), (20, 0));
    assert_eq!(a.intersect_line(&b), LineIntersection::Intersecting(v(10, 0)));
}

#[test]
fn parallel_segments_apart() {
    let a = line((0, 0), (10, 0));
    let b = line((0, 1), (10, 1));
    assert_eq!(a.intersect_line(&b), LineIntersection::Disjoint);
    assert_eq!(collide_line_line(&a, &b), None);
}

#[test]
fn degenerate_segments_meet_as_points() {
    let a = line((3, 3), (3, 3));
    let b = line((0, 0), (6, 6));
    assert_eq!(a.intersect_line(&b), LineIntersection::Intersecting(v(3, 3)));
    assert_eq!(a.intersect_line(&line((4, 4), (4, 4))), LineIntersection::Disjoint);
}

#[test]
fn closest_point_on_segment() {
    let l = line((0, 0), (10, 0));
    assert_eq!(l.closest_point_to_point(&v(5, 7)), v(5, 0));
    assert_eq!(l.closest_point_to_point(&v(-3, 7)), v(0, 0));
    assert_eq!(l.closest_point_to_point(&v(30, -7)), v(10, 0));
    let d = line((0, 0), (3, 0));
    assert_eq!(d.closest_point_to_point(&v(1, 5)), v(1, 0));
}

#[test]
fn closest_points_of_two_segments() {
    let a = line((0, 0), (10, 0));
    let b = line((5, 2), (5, 8));
    assert_eq!(a.closest_point_to_line(&b), line((5, 0), (5, 2)));
    let c = line((0, 3), (10, 3));
    assert_eq!(a.closest_point_to_line(&c), line((0, 0), (0, 3)));
}

#[test]
fn clip_parallel_segments() {
    let a = line((0, 0), (10, 0));
    assert_eq!(a.clip_to_parallel_line(&line((4, 2), (20, 2))), Some(line((4, 0), (10, 0))));
    assert_eq!(a.clip_to_parallel_line(&line((11, 2), (20, 2))), None);
}

#[test]
fn point_near_segment() {
    let l = line((0, 0), (10, 10));
    assert_eq!(collide_line_point(&l, &Point::new(v(4, 4))), Some(ContactManifold::Coincident(v(4, 4))));
    assert_eq!(collide_line_point(&l, &Point::new(v(4, 5))), None);
}

#[test]
fn points_coincide_only_when_equal() {
    let a = Point::new(v(1, 2));
    assert_eq!(collide_point_point(&a, &Point::new(v(1, 2))), Some(ContactManifold::Coincident(v(1, 2))));
    assert_eq!(collide_point_point(&a, &Point::new(v(1, 3))), None);
}

#[test]
fn parallel_capsules_touch_along_an_edge() {
    let a = Capsule::new(line((0, 0), (10, 0)), 2);
    let b = Capsule::new(line((0, 3), (10, 3)), 2);
    assert_eq!(
        collide_capsule_capsule(&a, &b),
        Some(ContactManifold::Edge(ContactEdge {
            us: line((0, 0), (10, 0)),
            them: line((0, 3), (10, 3)),
            normal: v(0, 1),
        }))
    );
    let far = Capsule::new(line((0, 5), (10, 5)), 2);
    assert_eq!(collide_capsule_capsule(&a, &far), None);
}

#[test]
fn crossing_capsules_coincide() {
    let a = Capsule::new(line((0, 0), (10, 10)), 1);
    let b = Capsule::new(line((0, 10), (10, 0)), 1);
    assert_eq!(collide_capsule_capsule(&a, &b), Some(ContactManifold::Coincident(v(5, 5))));
}

#[test]
fn capsule_touches_circle() {
    let a = Capsule::new(line((0, 0), (10, 0)), 1);
    let c = Circle::new(v(5, 3), 2);
    assert_eq!(
        collide_capsule_circle(&a, &c),
        Some(ContactManifold::Point(ContactPoint { us: v(5, 1), them: v(5, 1), normal: v(0, 1) }))
    );
    assert_eq!(collide_capsule_circle(&a, &Circle::new(v(5, 4), 2)), None);
}

#[test]
fn circle_outside_rectangle() {
    let c = Circle::new(v(5, 12), 3);
    let r = Rectangle::from_corners(v(0, 0), v(10, 10));
    assert_eq!(
        collide_circle_rect(&c, &r),
        Some(ContactManifold::Point(ContactPoint { us: v(5, 9), them: v(5, 10), normal: v(0, -1) }))
    );
    assert_eq!(collide_circle_rect(&Circle::new(v(5, 14), 3), &r), None);
}

#[test]
fn circle_center_inside_rectangle() {
    let c = Circle::new(v(2, 5), 3);
    let r = Rectangle::from_corners(v(0, 0), v(10, 10));
    assert_eq!(
        collide_circle_rect(&c, &r),
        Some(ContactManifold::Point(ContactPoint { us: v(5, 5), them: v(0, 5), normal: v(1, 0) }))
    );
}

#[test]
fn polygon_against_rectangle_and_polygon() {
    let tri = Polygon::new(vec![v(0, 0), v(10, 0), v(0, 10)]);
    let inner = Rectangle::from_corners(v(2, 2), v(3, 3));
    assert_eq!(collide_polygon_rect(&tri, &inner), Some(ContactManifold::Coincident(v(2, 2))));
    let far = Rectangle::from_corners(v(8, 8), v(9, 9));
    assert_eq!(collide_polygon_rect(&tri, &far), None);
    let cross = Polygon::new(vec![v(-1, 4), v(11, 4), v(11, 6), v(-1, 6)]);
    assert!(collide_polygon_polygon(&square(), &cross).is_some());
    let away = Polygon::new(vec![v(20, 20), v(30, 20), v(30, 30)]);
    assert_eq!(collide_polygon_polygon(&square(), &away), None);
}

#[test]
fn negation_swaps_and_flips() {
    let mut m = ContactManifold::point(v(1, 2), v(3, 4), v(0, 1));
    m.negate();
    assert_eq!(m, ContactManifold::Point(ContactPoint { us: v(3, 4), them: v(1, 2), normal: v(0, -1) }));
    let mut c = ContactManifold::coincident(v(7, 7));
    c.negate();
    assert_eq!(c, ContactManifold::Coincident(v(7, 7)));
    assert!(ContactManifold::disjoint().is_disjoint());
    assert!(c.is_colliding());
}

#[test]
fn dispatch_reverses_with_negation() {
    let c = Collider::Circle(Circle::new(v(5, 12), 3));
    let r = Collider::Rectangle(Rectangle::from_corners(v(0, 0), v(10, 10)));
    let forward = c.collide(&r).unwrap();
    let backward = r.collide(&c).unwrap();
    assert_eq!(backward, forward.neg());
    let t = Collider::Triangle(Triangle::new(v(0, 0), v(10, 0), v(0, 10)));
    let p = Collider::Point(Point::new(v(1, 1)));
    assert_eq!(t.collide(&p), Some(ContactManifold::Coincident(v(1, 1))));
    assert_eq!(p.collide(&t), Some(ContactManifold::Coincident(v(1, 1))));
}

#[test]
fn reversed_calls_negate_each_other() {
    let a = Collider::Circle(Circle::new(v(0, 0), 5));
    let b = Collider::Circle(Circle::new(v(6, 8), 6));
    assert_eq!(b.collide(&a), a.collide(&b).map(|m| m.neg()));
    let r = Collider::Rectangle(Rectangle::from_corners(v(0, 0), v(10, 10)));
    let s = Collider::Rectangle(Rectangle::from_corners(v(8, 2), v(20, 6)));
    assert_eq!(s.collide(&r), r.collide(&s).map(|m| m.neg()));
    let k = Collider::Capsule(Capsule::new(line((0, 0), (0, 10)), 2));
    let p = Collider::Polygon(square());
    assert_eq!(p.collide(&k), k.collide(&p).map(|m| m.neg()));
    let l = Collider::Line(line((-5, 5), (5, 5)));
    assert_eq!(l.collide(&r), r.collide(&l).map(|m| m.neg()));
}

#[test]
fn reversed_calls_agree_on_missing() {
    let a = Collider::Line(line((0, 0), (3, 1)));
    let b = Collider::Line(line((0, 1), (3, 0)));
    assert!(a.collide(&b).is_some());
    assert!(b.collide(&a).is_some());
    let c = Collider::Line(line((0, 0), (10, 0)));
    let d = Collider::Line(line((11, 0), (20, 0)));
    assert_eq!(c.collide(&d), None);
    assert_eq!(d.collide(&c), None);
    let t1 = Collider::Triangle(Triangle::new(v(0, 0), v(4, 0), v(0, 4)));
    let t2 = Collider::Triangle(Triangle::new(v(3, 3), v(9, 3), v(3, 9)));
    assert_eq!(t1.collide(&t2), None);
    assert_eq!(t2.collide(&t1), None);
}

#[test]
fn crossing_does_not_depend_on_order() {
    let a = line((0, 0), (3, 1));
    let b = line((0, 1), (3, 0));
    assert_eq!(a.intersect_line(&b), LineIntersection::Intersecting(v(1, 0)));
    assert_eq!(b.intersect_line(&a), LineIntersection::Intersecting(v(1, 0)));
    let c = line((0, 0), (-3, -1));
    let d = line((0, -1), (-3, 0));
    assert_eq!(c.intersect_line(&d), LineIntersection::Intersecting(v(-1, 0)));
    assert_eq!(d.intersect_line(&c), LineIntersection::Intersecting(v(-1, 0)));
}

#[test]
fn closest_points_to_a_single_point() {
    let a = line((0, 0), (10, 0));
    let p = line((5, 5), (5, 5));
    assert_eq!(a.closest_point_to_line(&p), line((5, 0), (5, 5)));
    assert_eq!(p.closest_point_to_line(&a), line((5, 5), (5, 0)));
    let q = line((-4, 3), (-4, 3));
    assert_eq!(a.closest_point_to_line(&q), line((0, 0), (-4, 3)));
}

#[test]
fn capsule_against_a_round_capsule() {
    let a = Capsule::new(line((0, 0), (10, 0)), 1);
    let b = Capsule::new(line((5, 2), (5, 2)), 1);
    assert_eq!(
        collide_capsule_capsule(&a, &b),
        Some(ContactManifold::Edge(ContactEdge {
            us: line((5, 0), (5, 0)),
            them: line((5, 2), (5, 2)),
            normal: v(0, 1),
        }))
    );
    assert_eq!(
        collide_capsule_capsule(&b, &a),
        Some(ContactManifold::Edge(ContactEdge {
            us: line((5, 2), (5, 2)),
            them: line((5, 0), (5, 0)),
            normal: v(0, -1),
        }))
    );
}

#[test]
fn parallel_capsules_touching_end_to_end() {
    let a = Capsule::new(line((0, 0), (10, 0)), 1);
    let b = Capsule::new(line((10, 1), (20, 1)), 1);
    assert_eq!(
        collide_capsule_capsule(&a, &b),
        Some(ContactManifold::Edge(ContactEdge {
            us: line((10, 0), (10, 0)),
            them: line((10, 1), (10, 1)),
            normal: v(0, 1),
        }))
    );
}

#[test]
fn support_points_stay_inside_the_circles() {
    let a = Circle::new(v(0, 0), 5);
    let b = Circle::new(v(1, 1), 5);
    assert_eq!(
        collide_circle_circle(&a, &b),
        Some(ContactManifold::Point(ContactPoint { us: v(3, 3), them: v(-2, -2), normal: v(1, 1) }))
    );
    let big = Circle::new(v(0, 0), 1000);
    let p = big.support_point(v(1, 1));
    assert_eq!(p, v(707, 707));
    assert!(big.contains(p));
    assert_eq!(v(1, 1).toward(5), v(3, 3));
}

#[test]
fn circle_centered_on_a_rectangle_side() {
    let r = Rectangle::from_corners(v(0, 0), v(10, 10));
    assert_eq!(
        collide_circle_rect(&Circle::new(v(0, 5), 3), &r),
        Some(ContactManifold::Point(ContactPoint { us: v(3, 5), them: v(0, 5), normal: v(1, 0) }))
    );
    assert_eq!(
        collide_circle_rect(&Circle::new(v(5, 10), 2), &r),
        Some(ContactManifold::Point(ContactPoint { us: v(5, 8), them: v(5, 10), normal: v(0, -1) }))
    );
}

#[test]
fn witness_pairs_negate_each_other() {
    let pairs = vec![
        (Collider::Line(line((0, 0), (3, 1))), Collider::Line(line((0, 1), (3, 0)))),
        (Collider::Line(line((0, 0), (10, 0))), Collider::Line(line((15, 0), (3, 0)))),
        (
            Collider::Capsule(Capsule::new(line((0, 0), (10, 0)), 2)),
            Collider::Capsule(Capsule::new(line((12, 3), (2, 3)), 2)),
        ),
        (
            Collider::Capsule(Capsule::new(line((0, 0), (10, 0)), 2)),
            Collider::Capsule(Capsule::new(line((10, 10), (11, 3)), 2)),
        ),
        (
            Collider::Polygon(square()),
            Collider::Polygon(Polygon::new(vec![v(-1, 4), v(11, 4), v(11, 6), v(-1, 6)])),
        ),
        (
            Collider::Triangle(Triangle::new(v(0, 0), v(9, 1), v(2, 7))),
            Collider::Triangle(Triangle::new(v(1, 5), v(8, 6), v(6, -2))),
        ),
    ];
    for (a, b) in &pairs {
        let forward = a.collide(b);
        assert!(forward.is_some());
        assert_eq!(b.collide(a), forward.map(|m| m.neg()));
    }
}

#[test]
fn identity_transform_changes_nothing() {
    let t = Transform::identity();
    let shapes = vec![
        Collider::Capsule(Capsule::new(line((0, 0), (10, 0)), 2)),
        Collider::Circle(Circle::new(v(5, 3), 2)),
        Collider::Line(line((-5, 5), (5, -5))),
        Collider::Point(Point::new(v(1, 1))),
        Collider::Polygon(square()),
        Collider::Rectangle(Rectangle::from_corners(v(2, 2), v(6, 7))),
        Collider::Triangle(Triangle::new(v(0, 0), v(4, 0), v(0, 4))),
    ];
    for a in &shapes {
        for b in &shapes {
            let a2 = a.to_transformed(&t);
            let b2 = b.to_transformed(&t);
            assert_eq!(a2.collide(&b2), a.collide(b));
        }
    }
}

#[test]
fn translation_moves_every_point() {
    let t = Transform { x_axis: v(1, 0), y_axis: v(0, 1), translation: v(3, -2) };
    assert_eq!(t.transform_point2(v(1, 1)), v(4, -1));
    let r = Collider::Rectangle(Rectangle::from_corners(v(0, 0), v(2, 2)));
    match r.to_transformed(&t) {
        Collider::Rectangle(q) => assert_eq!(q, Rectangle::from_corners(v(3, -2), v(5, 0))),
        _ => panic!("kind changed"),
    }
    let flip = Transform { x_axis: v(-1, 0), y_axis: v(0, 1), translation: v(0, 0) };
    match r.to_transformed(&flip) {
        Collider::Rectangle(q) => assert_eq!(q, Rectangle::from_corners(v(-2, 0), v(0, 2))),
        _ => panic!("kind changed"),
    }
}

#[test]
fn degenerate_shapes_give_valid_manifolds() {
    let dot = Capsule::new(line((3, 3), (3, 3)), 0);
    let zero = Circle::new(v(3, 3), 0);
    assert_eq!(collide_capsule_circle(&dot, &zero), Some(ContactManifold::Coincident(v(3, 3))));
    let a = Collider::Line(line((2, 2), (2, 2)));
    let b = Collider::Point(Point::new(v(2, 2)));
    assert_eq!(a.collide(&b), Some(ContactManifold::Coincident(v(2, 2))));
    let c = Collider::Circle(Circle::new(v(0, 0), 0));
    let d = Collider::Circle(Circle::new(v(1, 0), 1));
    assert_eq!(
        c.collide(&d),
        Some(ContactManifold::Point(ContactPoint { us: v(0, 0), them: v(0, 0), normal: v(1, 0) }))
    );
    let e = Collider::Polygon(Polygon::new(vec![]));
    assert_eq!(e.collide(&d), None);
}

#[test]
fn contact_point_measures() {
    let p = ContactPoint::new(v(1, 1), v(4, 5), v(0, 1));
    assert_eq!(p.separation_vector(), v(3, 4));
    assert_eq!(p.penetration_depth(), 4);
    assert_eq!(line((0, 0), (3, 4)).length_squared(), 25);
}

#[test]
fn rectangle_helpers() {
    let r = Rectangle::new(10, 0, 0, 6);
    assert_eq!(r.min(), v(0, 0));
    assert_eq!(r.max(), v(10, 6));
    assert_eq!(r.size(), v(10, 6));
    assert_eq!(r.half_size(), v(5, 3));
    assert_eq!(r.center(), v(5, 3));
    assert_eq!(r.width(), 10);
    assert_eq!(r.height(), 6);
    assert!(!r.is_empty());
    assert_eq!(r.closest_point_on_perimeter(v(2, 3)), (v(0, 3), true));
    assert_eq!(r.closest_point_on_perimeter(v(12, 3)), (v(10, 3), false));
    assert_eq!(r.union_point(v(-1, 8)), Rectangle::from_corners(v(-1, 0), v(10, 8)));
    let s = Rectangle::from_corners(v(20, 20), v(30, 30));
    assert!(r.intersect(s).is_empty());
    assert_eq!(r.union(s), Rectangle::from_corners(v(0, 0), v(30, 30)));
    assert_eq!(Rectangle::from_center_size(v(5, 5), v(4, 3)), Rectangle::from_corners(v(3, 4), v(7, 7)));
    assert_eq!(Rectangle::from_center_half_size(v(5, 5), v(2, 1)), Rectangle::from_corners(v(3, 4), v(7, 6)));
    assert_eq!(r.inset(1), Rectangle::from_corners(v(-1, -1), v(11, 7)));
    assert_eq!(r.inset(-4), Rectangle::from_corners(v(4, 2), v(6, 2)));
}

#[test]
fn circle_and_triangle_helpers() {
    let c = Circle::from_diameter(v(1, 1), 9);
    assert_eq!(c.radius, 4);
    assert_eq!(c.diameter(), 8);
    assert_eq!(c.radius_squared(), 16);
    assert!(c.contains(v(5, 1)));
    assert!(!c.contains(v(5, 2)));
    assert_eq!(c.support_point(v(0, -7)), v(1, -3));
    let t = Triangle::from_array([v(0, 0), v(4, 0), v(0, 3)]);
    assert_eq!(t.double_area(), 12);
    assert_eq!(v(6, -9).primitive(), v(2, -3));
    assert_eq!(v(3, 4).toward(10), v(6, 8));
}
