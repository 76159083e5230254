// Coordinates are in thousandths of a unit.
use shape_intersect::bound::{Bound, BoundType, UNBOUNDED};
use shape_intersect::bound_aabb::{AxisAlignedBBox, Axis};
use shape_intersect::intersect_gjk::query_intersect;
use shape_intersect::line::Line;
use shape_intersect::plane::Plane;
use shape_intersect::point::Point;
use shape_intersect::ray::Ray;
use shape_intersect::rect_box::RectBox;
use shape_intersect::shape::{AnyBase, AnyShape, Shape, ShapeType};
use shape_intersect::sphere::Sphere;
use shape_intersect::tri_prism::TriPrism;
use shape_intersect::vector::{isqrt_exec, Vec3};
use shape_intersect::vicinity::Vicinity;

fn v(x: i128, y: i128, z: i128) -> Vec3 {
    Vec3::new(x, y, z)
}

const PRISM_BASE: [i64; 9] = [0, 0, 0, 1000, 0, 0, 1000, 1000, 0];

#[test]
fn sphere_sphere_closed_form_boundary() {
    let a = Sphere::init(&[0, 0, 0], 5000);
    let b = Sphere::init(&[7000, 0, 0], 2100);
    let c = Sphere::init(&[7000, 0, 0], 1990);
    assert!(a.get_intersect(&b).0);
    assert_eq!(a.get_intersect(&c), (false, None));
}

#[test]
fn sphere_sphere_tangent_meets_at_contact() {
    let a = Sphere::init(&[0, 0, 0], 3000);
    let b = Sphere::init(&[5000, 0, 0], 2000);
    assert_eq!(a.get_intersect(&b), (true, Some(v(3000, 0, 0))));
}

#[test]
fn ray_sphere_reversed_direction_misses() {
    let b = Sphere::init(&[20000, 0, 0], 5000);
    let fwd = Ray::init(&[5000, 0, 0], &[1000, 0, 0]);
    let back = Ray::init(&[5000, 0, 0], &[-1000, 0, 0]);
    assert_eq!(fwd.get_intersect(&b), (true, Some(v(15000, 0, 0))));
    assert_eq!(b.get_intersect(&fwd), (true, Some(v(15000, 0, 0))));
    assert_eq!(back.get_intersect(&b), (false, None));
}

#[test]
fn ray_inside_sphere_exits_forward() {
    let s = Sphere::init(&[0, 0, 0], 5000);
    let r = Ray::init(&[1000, 0, 0], &[0, 3, 0]);
    //from (1, 0, 0) along y the sphere of radius 5 is left at y = sqrt(24)
    let (hit, loc) = r.get_intersect(&s);
    assert!(hit);
    let loc = loc.unwrap();
    assert_eq!((loc.x, loc.z), (1000, 0));
    assert_eq!(loc.y, 4898);
}

#[test]
fn ray_ray_parallel_and_colinear() {
    let a = Ray::init(&[20000, 0, 0], &[1, 1, 1]);
    let b = Ray::init(&[25000, 0, 0], &[1, 1, 1]);
    let c = Ray::init(&[22000, 2000, 2000], &[1, 1, 1]);
    assert_eq!(a.get_intersect(&b), (false, None));
    assert_eq!(a.get_intersect(&c), (true, Some(v(22000, 2000, 2000))));
}

#[test]
fn ray_ray_tolerance_accepts_near_colinear() {
    //b's origin lies 3 / sqrt(2) from a's line
    let mut a = Ray::init(&[0, 0, 0], &[1, 1, 0]);
    let b = Ray::init(&[5000, 5003, 0], &[1, 1, 0]);
    assert_eq!(a.get_intersect(&b), (false, None));
    a.set_vicinity(-3);
    assert_eq!(a._vicinity, 3);
    assert_eq!(a.get_intersect(&b), (true, Some(v(5001, 5001, 0))));
    //asked of b, the distance is measured with b's own tolerance
    assert_eq!(b.get_intersect(&a), (false, None));
}

#[test]
fn point_point_tolerance() {
    let a = Point::init(&[25000, 5000, 5000]);
    let b = Point::init(&[25000, 5000, 5000]);
    let c = Point::init(&[25100, 5000, 5000]);
    assert_eq!(a.get_intersect(&b), (true, Some(a._ori)));
    assert_eq!(a.get_intersect(&c), (false, None));
    assert_eq!(c.get_intersect(&a), (false, None));
}

#[test]
fn point_point_within_wider_tolerance() {
    let mut a = Point::init(&[0, 0, 0]);
    a.set_vicinity(50);
    let b = Point::init(&[40, -50, 0]);
    //the bounds of two distinct points are disjoint, so the broad phase rejects first
    assert_eq!(a.get_intersect(&b), (false, None));
    assert!(a.within_vicinity(0, 50) && a.within_vicinity(0, -50) && !a.within_vicinity(0, 51));
}

#[test]
fn symmetric_answers_for_every_closed_form_pair() {
    let shapes: Vec<AnyShape> = vec![
        Point::init(&[1000, 1000, 0]).as_any(),
        Point::init(&[250, 250, 500]).as_any(),
        Ray::init(&[0, 0, 0], &[1, 1, 0]).as_any(),
        Ray::init(&[1000, 0, 0], &[0, 1, 0]).as_any(),
        Sphere::init(&[1000, 1000, 0], 1500).as_any(),
        Sphere::init(&[3000, 1000, 0], 600).as_any(),
        Plane::init(&[0, 0, 0], &[0, 0, 1]).as_any(),
        RectBox::init(&[1000, 1000, 0], 500).as_any(),
        Line::init(&[-1000, 500, 500], &[2000, 500, 500]).as_any(),
        TriPrism::init(&PRISM_BASE, 1000).as_any(),
    ];
    let owns = |a: ShapeType, b: ShapeType| {
        matches!(
            (a, b),
            (ShapeType::Point, ShapeType::Point)
                | (ShapeType::Plane, ShapeType::Point)
                | (ShapeType::Sphere, ShapeType::Point)
                | (ShapeType::Box, ShapeType::Point)
                | (ShapeType::TriPrism, ShapeType::Point)
                | (ShapeType::Ray, ShapeType::Ray)
                | (ShapeType::Ray, ShapeType::Point)
                | (ShapeType::Ray, ShapeType::Sphere)
                | (ShapeType::Ray, ShapeType::Plane)
                | (ShapeType::Sphere, ShapeType::Sphere)
                | (ShapeType::TriPrism, ShapeType::Line)
        )
    };
    let mut checked = 0;
    for a in shapes.iter() {
        for b in shapes.iter() {
            if owns(a.get_type(), b.get_type()) || owns(b.get_type(), a.get_type()) {
                assert_eq!(a.get_intersect(b).0, b.get_intersect(a).0);
                checked += 1;
            }
        }
    }
    assert!(checked > 30);
}

#[test]
fn disjoint_bounds_give_no_intersection() {
    let s = Sphere::init(&[0, 0, 0], 1000);
    let p = Point::init(&[0, 0, 1001]);
    assert!(!s.get_bound().intersect(p.get_bound()));
    assert_eq!(s.get_intersect(&p), (false, None));
    let r = Ray::init(&[0, 0, 5000], &[0, 0, 1]);
    assert!(!s.get_bound().intersect(r.get_bound()));
    assert_eq!(r.get_intersect(&s), (false, None));
}

#[test]
fn gjk_agrees_with_closed_form_on_sphere_pairs() {
    let mut seed: u64 = 0x2545f4914f6cdd1d;
    let mut next = |m: u64| {
        seed ^= seed << 13;
        seed ^= seed >> 7;
        seed ^= seed << 17;
        seed % m
    };
    for _ in 0..300 {
        let c1 = [next(20001) as i64 - 10000, next(20001) as i64 - 10000, next(20001) as i64 - 10000];
        let c2 = [next(20001) as i64 - 10000, next(20001) as i64 - 10000, next(20001) as i64 - 10000];
        let a = Sphere::init(&c1, next(8000) as i64 + 1);
        let b = Sphere::init(&c2, next(8000) as i64 + 1);
        let closed = a.get_intersect(&b).0;
        assert_eq!(query_intersect(&a, &b), Some(closed), "{:?} {:?}", a, b);
    }
}

#[test]
fn gjk_stops_at_a_support_point_on_the_origin() {
    //touching spheres: the closed form counts contact as intersection, while
    //GJK stops as soon as a support point fails to pass beyond the origin
    let a = Sphere::init(&[0, 0, 0], 3000);
    let b = Sphere::init(&[5000, 0, 0], 2000);
    assert!(a.get_intersect(&b).0);
    assert_eq!(query_intersect(&a, &b), Some(false));
    let c = Sphere::init(&[5000, 0, 0], 2001);
    assert_eq!(query_intersect(&a, &c), Some(true));
}

#[test]
fn gjk_without_support_mapping() {
    let a = Sphere::init(&[0, 0, 0], 3000);
    let r = Ray::init(&[0, 0, 0], &[1, 0, 0]);
    let p = Plane::init(&[0, 0, 0], &[0, 0, 1]);
    assert_eq!(query_intersect(&a, &r), None);
    assert_eq!(query_intersect(&p, &a), None);
}

#[test]
fn gjk_on_cube_and_prism() {
    let cube = RectBox::init(&[0, 0, 0], 1000);
    let near = TriPrism::init(&[500, 500, 0, 2500, 500, 0, 2500, 2500, 0], 1000);
    let far = TriPrism::init(&[1500, 1500, 0, 3500, 1500, 0, 3500, 3500, 0], 1000);
    assert_eq!(query_intersect(&cube, &near), Some(true));
    assert_eq!(query_intersect(&cube, &far), Some(false));
}

#[test]
fn prism_line_endpoint_order() {
    let t = TriPrism::init(&PRISM_BASE, 1000);
    let l = Line::init(&[250, 250, 500], &[5000, 250, 500]);
    let m = Line::init(&[5000, 250, 500], &[250, 250, 500]);
    assert_eq!(t.get_intersect(&l), (true, Some(v(250, 250, 500))));
    assert_eq!(t.get_intersect(&m), (true, Some(v(250, 250, 500))));
}

#[test]
fn prism_line_facet_location_is_inside() {
    let t = TriPrism::init(&PRISM_BASE, 1000);
    let l = Line::init(&[500, -50000, 0], &[500, 50000, 0]);
    let (hit, loc) = t.get_intersect(&l);
    assert!(hit);
    let loc = loc.unwrap();
    assert_eq!(loc, v(500, 0, 0));
    let p = Point::init(&[500, 0, 0]);
    assert!(t.get_intersect(&p).0);
    //crossing the sloped side from outside
    let s = Line::init(&[0, 1000, 500], &[1500, -500, 500]);
    let (hit, loc) = t.get_intersect(&s);
    assert!(hit);
    let loc = loc.unwrap();
    assert_eq!(loc, v(500, 500, 500));
}

#[test]
fn prism_height_below_base() {
    let t = TriPrism::init(&PRISM_BASE, -2000);
    assert_eq!(t._normal_height, v(0, 0, -2000));
    assert_eq!(t._tri_base2[1], v(1000, 0, -2000));
    assert_eq!(t.get_bound().bound_lower, v(0, 0, -2000));
    assert_eq!(t.get_bound().bound_upper, v(1000, 1000, 0));
}

#[test]
fn prism_rounds_a_slanted_normal() {
    let t = TriPrism::init(&[0, 0, 0, 1000, 0, 0, 0, 1000, 1000], 1000);
    //the normal is (0, -1, 1) / sqrt(2), scaled to 1000 and rounded down
    assert_eq!(t._normal_height, v(0, -708, 707));
}

#[test]
fn plane_point_within_tolerance() {
    let mut p = Plane::init(&[0, 0, 0], &[0, 0, 2]);
    let q = Point::init(&[5, 5, 3]);
    assert_eq!(p.get_intersect(&q), (false, None));
    p.set_vicinity(3);
    assert_eq!(p.get_intersect(&q), (true, Some(v(5, 5, 3))));
    assert_eq!(q.get_intersect(&p), (true, Some(v(5, 5, 3))));
}

#[test]
fn ray_plane_cases() {
    let pl = Plane::init(&[0, 0, 1000], &[0, 0, 1]);
    let down = Ray::init(&[300, 400, 5000], &[1, 0, -2]);
    assert_eq!(down.get_intersect(&pl), (true, Some(v(2300, 400, 1000))));
    assert_eq!(pl.get_intersect(&down), (true, Some(v(2300, 400, 1000))));
    //facing along the normal: the plane is one-sided for rays
    let up = Ray::init(&[0, 0, 0], &[0, 0, 1]);
    assert_eq!(up.get_intersect(&pl), (false, None));
    //parallel, on the plane and off it
    let on = Ray::init(&[7, 8, 1000], &[1, 0, 0]);
    let off = Ray::init(&[7, 8, 999], &[1, 0, 0]);
    assert_eq!(on.get_intersect(&pl), (true, Some(v(7, 8, 1000))));
    assert_eq!(off.get_intersect(&pl), (false, None));
    //plane behind the origin
    let behind = Ray::init(&[0, 0, 500], &[0, 0, -1]);
    assert_eq!(behind.get_intersect(&pl), (false, None));
}

#[test]
fn sphere_point_is_a_per_axis_test() {
    let s = Sphere::init(&[0, 0, 0], 1000);
    //a corner of the bounding cube lies outside the ball yet passes
    let p = Point::init(&[900, 900, 900]);
    assert_eq!(s.get_intersect(&p), (true, Some(v(900, 900, 900))));
}

#[test]
fn aabb_new_for_each_kind() {
    let r = AxisAlignedBBox::new(ShapeType::Ray, &[1, 2, 3, 5, -1, 0]);
    assert_eq!(r.bound_lower, v(1, -UNBOUNDED, 3));
    assert_eq!(r.bound_upper, v(UNBOUNDED, 2, 3));
    let p = AxisAlignedBBox::new(ShapeType::Point, &[1, 2, 3]);
    assert_eq!((p.bound_lower, p.bound_upper), (v(1, 2, 3), v(1, 2, 3)));
    let s = AxisAlignedBBox::new(ShapeType::Sphere, &[1, 2, 3, 4]);
    assert_eq!((s.bound_lower, s.bound_upper), (v(-3, -2, -1), v(5, 6, 7)));
    let b = AxisAlignedBBox::new(ShapeType::Box, &[0, 0, 0, 2]);
    assert_eq!((b.bound_lower, b.bound_upper), (v(-2, -2, -2), v(2, 2, 2)));
    let pl = AxisAlignedBBox::new(ShapeType::Plane, &[0, 0, 0, 0, 0, 1]);
    assert_eq!(pl.bound_lower, v(-UNBOUNDED, -UNBOUNDED, -UNBOUNDED));
    assert_eq!(pl.bound_upper, v(UNBOUNDED, UNBOUNDED, UNBOUNDED));
    let re = AxisAlignedBBox::new(ShapeType::Rect, &[0, 1, 2, 3, 4, 5]);
    assert_eq!((re.bound_lower, re.bound_upper), (v(0, 1, 2), v(3, 4, 5)));
    assert_eq!(re.get_type(), BoundType::AxisAlignBox);
}

#[test]
fn aabb_intersect_touching_and_apart() {
    let a = AxisAlignedBBox::new(ShapeType::Rect, &[0, 0, 0, 10, 10, 10]);
    let b = AxisAlignedBBox::new(ShapeType::Rect, &[10, 10, 10, 20, 20, 20]);
    let c = AxisAlignedBBox::new(ShapeType::Rect, &[0, 11, 0, 10, 20, 10]);
    assert!(a.intersect(&b) && b.intersect(&a));
    assert!(!a.intersect(&c) && !c.intersect(&a));
}

#[test]
fn aabb_union_centroid_and_longest_axis() {
    let a = AxisAlignedBBox::new(ShapeType::Rect, &[0, 0, 0, 10, 4, 2]);
    let b = AxisAlignedBBox::new(ShapeType::Rect, &[-5, 1, 1, 3, 30, 3]);
    let mut u = AxisAlignedBBox::default();
    u.get_union(&[a, b]);
    assert_eq!((u.bound_lower, u.bound_upper), (v(-5, 0, 0), v(10, 30, 3)));
    assert_eq!(u.get_centroid(), v(2, 15, 1));
    assert_eq!(u.get_longest_axis(), (Axis::Y, 30));
    assert_eq!(a.get_longest_axis(), (Axis::X, 10));
    let cube = AxisAlignedBBox::new(ShapeType::Box, &[0, 0, 0, 1]);
    assert_eq!(cube.get_longest_axis(), (Axis::Z, 2));
    let mut e = AxisAlignedBBox::default();
    e.get_union(&[]);
    assert_eq!(e.bound_lower, v(UNBOUNDED, UNBOUNDED, UNBOUNDED));
    assert_eq!(e.bound_upper, v(-UNBOUNDED, -UNBOUNDED, -UNBOUNDED));
}

#[test]
fn supports_of_each_shape() {
    let cube = RectBox::init(&[10, 20, 30], 5);
    assert_eq!(cube.get_support(&v(1, -1, 1)), Some(v(15, 15, 35)));
    assert_eq!(cube.get_support(&v(0, 0, 1)), Some(v(5, 15, 35)));
    assert_eq!(cube.get_support(&v(0, 0, 0)), None);
    let t = TriPrism::init(&PRISM_BASE, 1000);
    assert_eq!(t.get_support(&v(-1, 1, 1)), Some(v(1000, 1000, 1000)));
    assert_eq!(t.get_support(&v(0, -1, -1)), Some(v(1000, 0, 0)));
    let l = Line::init(&[0, 0, 0], &[10, 0, 0]);
    assert_eq!(l.get_support(&v(-1, 0, 0)), Some(v(0, 0, 0)));
    assert_eq!(l.get_support(&v(0, 1, 0)), Some(v(10, 0, 0)));
    let p = Point::init(&[3, 4, 5]);
    assert_eq!(p.get_support(&v(0, 0, 0)), Some(v(3, 4, 5)));
    let s = Sphere::init(&[0, 0, 0], 1000);
    assert_eq!(s.get_support(&v(3, 4, 0)), Some(v(600, 800, 0)));
    assert_eq!(s.get_support(&v(0, 0, 0)), None);
    let r = Ray::init(&[0, 0, 0], &[1, 0, 0]);
    assert_eq!(r.get_support(&v(1, 0, 0)), None);
}

#[test]
fn shape_tags_and_bounds() {
    let t = TriPrism::init(&PRISM_BASE, 1000);
    assert_eq!(t.get_type(), ShapeType::TriPrism);
    assert_eq!(t.get_bound().bound_lower, v(0, 0, 0));
    assert_eq!(t.get_bound().bound_upper, v(1000, 1000, 1000));
    let l = Line::init(&[5, -5, 0], &[-5, 5, 1]);
    assert_eq!(l.get_type(), ShapeType::Line);
    assert_eq!(l.get_bound().bound_lower, v(-5, -5, 0));
    assert_eq!(l.get_bound().bound_upper, v(5, 5, 1));
    assert_eq!(RectBox::init(&[0, 0, 0], 1).get_type(), ShapeType::Box);
}

#[test]
fn integer_square_root() {
    assert_eq!(isqrt_exec(0), 0);
    assert_eq!(isqrt_exec(24), 4);
    assert_eq!(isqrt_exec(25), 5);
    assert_eq!(isqrt_exec(75_000_000), 8660);
}

#[test]
fn prism_line_crossing_decided_exactly() {
    //the segment crosses the sloped side at x = 1.5, which rounds to 1, a
    //point outside; the crossing itself is inside, in either order
    let t = TriPrism::init(&[0, 0, 0, 4, 0, 0, 4, 8, 0], 4);
    let l = Line::init(&[0, 3, 1], &[5, 3, 1]);
    let m = Line::init(&[5, 3, 1], &[0, 3, 1]);
    assert_eq!(t.get_intersect(&l), (true, Some(v(1, 3, 1))));
    assert_eq!(t.get_intersect(&m), (true, Some(v(4, 3, 1))));
}

#[test]
fn prism_line_miss_in_both_orders() {
    let t = TriPrism::init(&PRISM_BASE, 1000);
    let l = Line::init(&[815, 64, 1575], &[-262, 2781, -1326]);
    let m = Line::init(&[-262, 2781, -1326], &[815, 64, 1575]);
    assert_eq!(t.get_intersect(&l), (false, None));
    assert_eq!(t.get_intersect(&m), (false, None));
}

#[test]
fn ray_plane_parallel_within_tolerance() {
    let mut r = Ray::init(&[0, 0, 0], &[1, 0, 0]);
    let pl = Plane::init(&[0, 5, 0], &[0, 1, 0]);
    assert_eq!(r.get_intersect(&pl), (false, None));
    r.set_vicinity(5);
    assert_eq!(r.get_intersect(&pl), (true, Some(v(0, 0, 0))));
    assert_eq!(pl.get_intersect(&r), (true, Some(v(0, 0, 0))));
    r.set_vicinity(4);
    assert_eq!(r.get_intersect(&pl), (false, None));
}

#[test]
fn ray_point_reports_a_point_of_the_ray() {
    let mut r = Ray::init(&[0, 0, 0], &[1, 1, 0]);
    let p = Point::init(&[100, 102, 0]);
    assert_eq!(r.get_intersect(&p), (false, None));
    r.set_vicinity(3);
    //nearest point of the ray: (101, 101, 0)
    assert_eq!(r.get_intersect(&p), (true, Some(v(101, 101, 0))));
    assert_eq!(p.get_intersect(&r), (true, Some(v(101, 101, 0))));
}

#[test]
fn unregistered_pair_with_disjoint_bounds_misses() {
    let r = Ray::init(&[0, 0, 0], &[1, 0, 0]);
    let l = Line::init(&[0, 10, 10], &[5, 20, 20]);
    let s = Sphere::init(&[100, 100, 100], 5);
    let b = RectBox::init(&[-100, -100, -100], 5);
    assert_eq!(r.get_intersect(&l), (false, None));
    assert_eq!(l.get_intersect(&r), (false, None));
    assert_eq!(s.get_intersect(&b), (false, None));
    assert_eq!(l.get_intersect(&s), (false, None));
}
