use raytracer::aabb::{Aabb, Slab, Slabs, Span};
use raytracer::geometry::{
    AABox, RectangleNotAxisAlignedError, RectangleXY, RectangleXZ, RectangleYZ,
};
use raytracer::scalar::Scalar;
use raytracer::vec3::Vec3;
use std::cmp::Ordering;

fn s(x: f64) -> Scalar {
    Scalar::from_bits(x.to_bits())
}

fn f(x: Scalar) -> f64 {
    f64::from_bits(x.to_bits())
}

fn v(x: f64, y: f64, z: f64) -> Vec3 {
    Vec3::new(s(x), s(y), s(z))
}

fn slab(minimum: f64, maximum: f64, origin: f64, direction: f64) -> Slab {
    let inverse = 1.0 / direction;
    Slab {
        inverse: s(inverse),
        at_minimum: s((minimum - origin) * inverse),
        at_maximum: s((maximum - origin) * inverse),
    }
}

fn slabs(bbox: &Aabb, origin: [f64; 3], direction: [f64; 3]) -> Slabs {
    Slabs {
        x: slab(f(bbox.minimum.x), f(bbox.maximum.x), origin[0], direction[0]),
        y: slab(f(bbox.minimum.y), f(bbox.maximum.y), origin[1], direction[1]),
        z: slab(f(bbox.minimum.z), f(bbox.maximum.z), origin[2], direction[2]),
    }
}

fn unit_box() -> Aabb {
    Aabb::new(v(-1.0, -1.0, -1.0), v(1.0, 1.0, 1.0))
}

#[test]
fn slab_test_accepts_a_ray_through_the_interior() {
    let through = slabs(&unit_box(), [0.0, 0.0, 5.0], [0.0, 0.0, -1.0]);
    assert!(through.clip(s(0.0), s(f64::INFINITY)));
    let slanted = slabs(&unit_box(), [-4.0, -3.0, -5.0], [4.0, 3.2, 5.1]);
    assert!(slanted.clip(s(0.0), s(f64::INFINITY)));
    let inside = slabs(&unit_box(), [0.1, 0.2, 0.3], [1.0, 2.0, -3.0]);
    assert!(inside.clip(s(0.0), s(f64::INFINITY)));
}

#[test]
fn slab_test_rejects_a_ray_that_misses() {
    let away = slabs(&unit_box(), [0.0, 0.0, 5.0], [0.0, 0.0, 1.0]);
    assert!(!away.clip(s(0.0), s(f64::INFINITY)));
    let beside = slabs(&unit_box(), [3.0, 0.0, 5.0], [0.0, 0.0, -1.0]);
    assert!(!beside.clip(s(0.0), s(f64::INFINITY)));
    let across = slabs(&unit_box(), [-5.0, 4.0, 0.0], [1.0, 0.1, 0.0]);
    assert!(!across.clip(s(0.0), s(f64::INFINITY)));
}

#[test]
fn slab_test_respects_the_range() {
    let through = slabs(&unit_box(), [0.0, 0.0, 5.0], [0.0, 0.0, -1.0]);
    assert!(through.clip(s(0.0), s(4.5)));
    assert!(!through.clip(s(0.0), s(4.0)));
    assert!(!through.clip(s(0.0), s(3.0)));
    assert!(through.clip(s(5.0), s(7.0)));
    assert!(!through.clip(s(6.0), s(7.0)));
    assert!(!through.clip(s(6.5), s(7.0)));
}

#[test]
fn a_slab_narrows_a_range_from_both_ends() {
    let forward = Slab { inverse: s(1.0), at_minimum: s(2.0), at_maximum: s(6.0) };
    let span = forward.narrow(Span { low: s(0.0), high: s(10.0) });
    assert_eq!((f(span.low), f(span.high)), (2.0, 6.0));
    let span = forward.narrow(Span { low: s(3.0), high: s(4.0) });
    assert_eq!((f(span.low), f(span.high)), (3.0, 4.0));
    let backward = Slab { inverse: s(-1.0), at_minimum: s(6.0), at_maximum: s(2.0) };
    let span = backward.narrow(Span { low: s(0.0), high: s(10.0) });
    assert_eq!((f(span.low), f(span.high)), (2.0, 6.0));
    let parallel = Slab { inverse: s(f64::INFINITY), at_minimum: s(f64::NAN), at_maximum: s(f64::INFINITY) };
    let span = parallel.narrow(Span { low: s(0.0), high: s(10.0) });
    assert_eq!((f(span.low), f(span.high)), (0.0, 10.0));
}

#[test]
fn surrounding_box_encloses_both() {
    let a = Aabb::new(v(0.0, 0.0, 0.0), v(1.0, 2.0, 3.0));
    let b = Aabb::new(v(-1.0, 0.5, 1.0), v(0.5, 4.0, 2.0));
    let both = a.surrounding_box(&b);
    assert_eq!(both.minimum, v(-1.0, 0.0, 0.0));
    assert_eq!(both.maximum, v(1.0, 4.0, 3.0));
    assert_eq!(b.surrounding_box(&a), both);
    assert_eq!(a.surrounding_box(&a), a);
}

#[test]
fn boxes_compare_by_their_minimum_on_an_axis() {
    let a = Aabb::new(v(0.0, 5.0, -0.0), v(1.0, 6.0, 3.0));
    let b = Aabb::new(v(-1.0, 5.0, 0.0), v(0.5, 9.0, 2.0));
    assert_eq!(a.compare_axis(&b, 0), Ordering::Greater);
    assert_eq!(b.compare_axis(&a, 0), Ordering::Less);
    assert_eq!(a.compare_axis(&b, 1), Ordering::Equal);
    assert_eq!(a.compare_axis(&b, 2), Ordering::Less);
    assert_eq!(a.compare_axis(&a, 2), Ordering::Equal);
}

#[test]
fn rectangles_order_their_corners() {
    let made = RectangleXY::new(v(3.0, -1.0, 2.0), v(1.0, 4.0, 2.0), s(1.0), 7u8);
    let rectangle = made.expect("the corners share their z");
    assert_eq!(rectangle.start, v(1.0, -1.0, 2.0));
    assert_eq!(rectangle.end, v(3.0, 4.0, 2.0));
    assert_eq!(f(rectangle.direction), 1.0);
    assert_eq!(rectangle.material, 7);

    let made = RectangleXZ::new(v(3.0, 2.0, -1.0), v(1.0, 2.0, 4.0), s(-1.0), 8u8);
    let rectangle = made.expect("the corners share their y");
    assert_eq!(rectangle.start, v(1.0, 2.0, -1.0));
    assert_eq!(rectangle.end, v(3.0, 2.0, 4.0));
    assert_eq!(f(rectangle.direction), -1.0);

    let made = RectangleYZ::new(v(2.0, 3.0, -1.0), v(2.0, 1.0, 4.0), s(1.0), 9u8);
    let rectangle = made.expect("the corners share their x");
    assert_eq!(rectangle.start, v(2.0, 1.0, -1.0));
    assert_eq!(rectangle.end, v(2.0, 3.0, 4.0));
}

#[test]
fn rectangles_off_their_plane_are_rejected() {
    assert!(RectangleXY::new(v(0.0, 0.0, 0.0), v(1.0, 1.0, 0.5), s(1.0), ()).is_err());
    assert!(RectangleXZ::new(v(0.0, 0.0, 0.0), v(1.0, 0.5, 1.0), s(1.0), ()).is_err());
    assert!(RectangleYZ::new(v(0.0, 0.0, 0.0), v(0.5, 1.0, 1.0), s(1.0), ()).is_err());
    assert!(RectangleXY::new(v(0.0, 0.0, f64::NAN), v(1.0, 1.0, f64::NAN), s(1.0), ()).is_err());
    assert!(RectangleXY::new(v(0.0, 0.0, 0.0), v(1.0, 1.0, -0.0), s(1.0), ()).is_ok());
    assert_eq!(RectangleNotAxisAlignedError.message(), "rectangle axis is not aligned");
}

#[test]
fn a_box_has_six_outward_faces() {
    let made = AABox::new(v(1.0, 5.0, -1.0), v(-2.0, 3.0, 4.0), 'm');
    assert_eq!(made.minimum, v(-2.0, 3.0, -1.0));
    assert_eq!(made.maximum, v(1.0, 5.0, 4.0));
    let sides = &made.sides;
    assert_eq!((sides.back.start, sides.back.end), (v(-2.0, 3.0, -1.0), v(1.0, 5.0, -1.0)));
    assert_eq!((sides.front.start, sides.front.end), (v(-2.0, 3.0, 4.0), v(1.0, 5.0, 4.0)));
    assert_eq!((sides.bottom.start, sides.bottom.end), (v(-2.0, 3.0, -1.0), v(1.0, 3.0, 4.0)));
    assert_eq!((sides.top.start, sides.top.end), (v(-2.0, 5.0, -1.0), v(1.0, 5.0, 4.0)));
    assert_eq!((sides.left.start, sides.left.end), (v(-2.0, 3.0, -1.0), v(-2.0, 5.0, 4.0)));
    assert_eq!((sides.right.start, sides.right.end), (v(1.0, 3.0, -1.0), v(1.0, 5.0, 4.0)));
    assert_eq!(f(sides.back.direction), -1.0);
    assert_eq!(f(sides.front.direction), 1.0);
    assert_eq!(f(sides.bottom.direction), -1.0);
    assert_eq!(f(sides.top.direction), 1.0);
    assert_eq!(f(sides.left.direction), -1.0);
    assert_eq!(f(sides.right.direction), 1.0);
    assert_eq!(sides.top.material, 'm');
    let bbox = made.bounding_box();
    assert_eq!((bbox.minimum, bbox.maximum), (made.minimum, made.maximum));
}
