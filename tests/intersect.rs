// Coordinates are in thousandths of a unit: 25.1 is written 25100.
use shape_intersect::intersect_gjk::query_intersect;
use shape_intersect::line::Line;
use shape_intersect::plane::Plane;
use shape_intersect::point::Point;
use shape_intersect::ray::Ray;
use shape_intersect::rect_box::RectBox;
use shape_intersect::shape::Shape;
use shape_intersect::sphere::Sphere;
use shape_intersect::tri_prism::TriPrism;
use shape_intersect::vector::Vec3;

fn v(x: i128, y: i128, z: i128) -> Vec3 {
    Vec3::new(x, y, z)
}

fn close(loc: Vec3, x: f64, y: f64, z: f64, tol: f64) -> bool {
    (loc.x as f64 - x).abs() <= tol && (loc.y as f64 - y).abs() <= tol && (loc.z as f64 - z).abs() <= tol
}

const PRISM_BASE: [i64; 9] = [0, 0, 0, 1000, 0, 0, 1000, 1000, 0];

#[test]
fn test_intersect_gjk_shape_support() {
    for i in 0..10i64 {
        for j in 0..10i64 {
            for k in 0..10i64 {
                let a = Sphere::init(&[-5000, 2500, 15000], 5500);
                let v_x = 200 * i;
                let v_y = 200 * j;
                let v_z = 200 * k;
                match a.get_support(&v(v_x as i128, v_y as i128, v_z as i128)) {
                    Some(o) => {
                        let (fx, fy, fz) = (v_x as f64, v_y as f64, v_z as f64);
                        let l = (fx * fx + fy * fy + fz * fz).sqrt();
                        assert!(close(
                            o,
                            -5000.0 + fx / l * 5500.0,
                            2500.0 + fy / l * 5500.0,
                            15000.0 + fz / l * 5500.0,
                            1.0
                        ));
                    }
                    _ => {
                        if i != 0 || j != 0 || k != 0 {
                            panic!("unexpected result");
                        }
                    }
                }
            }
        }
    }
}

#[test]
fn test_intersect_gjk_query_intersect_positive_0() {
    let a = Sphere::init(&[0, 0, 0], 5000);
    let b = Sphere::init(&[7000, 0, 0], 2100);
    let ret = query_intersect(&a, &b);
    assert!(ret.expect("gjk return unexpected"));
}

#[test]
fn test_intersect_gjk_query_intersect_positive_1() {
    let a = Sphere::init(&[0, 5000, 0], 5000);
    let b = Sphere::init(&[0, 0, 0], 2000);
    let ret = query_intersect(&a, &b);
    assert!(ret.expect("gjk return unexpected"));
}

#[test]
fn test_intersect_gjk_query_intersect_positive_2() {
    let a = Sphere::init(&[0, 5000, 0], 10000);
    let b = Sphere::init(&[1000, 1000, 0], 2000);
    let ret = query_intersect(&a, &b);
    assert!(ret.expect("gjk return unexpected"));
}

#[test]
fn test_intersect_gjk_query_intersect_positive_3() {
    let a = Sphere::init(&[0, -4999, 0], 5000);
    let b = Sphere::init(&[0, 5000, 0], 5000);
    let ret = query_intersect(&a, &b);
    assert!(ret.expect("gjk return unexpected"));
}

#[test]
fn test_intersect_gjk_query_intersect_negative_0() {
    let a = Sphere::init(&[0, 0, 0], 5000);
    let b = Sphere::init(&[7000, 0, 0], 1990);
    let ret = query_intersect(&a, &b);
    assert!(!ret.expect("gjk return unexpected"));
}

#[test]
fn test_intersect_gjk_query_intersect_negative_1() {
    let a = Sphere::init(&[0, 5000, 0], 5000);
    let b = Sphere::init(&[0, 0, 10000], 2000);
    let ret = query_intersect(&a, &b);
    assert!(!ret.expect("gjk return unexpected"));
}

#[test]
fn test_intersect_gjk_query_intersect_negative_2() {
    let a = Sphere::init(&[0, -5000, 0], 5000);
    let b = Sphere::init(&[0, 5000, 0], 5000);
    let ret = query_intersect(&a, &b);
    assert!(!ret.expect("gjk return unexpected"));
}

#[test]
fn test_intersect_plane_point_0() {
    let a = Point::init(&[2000, 1000, 2000]);
    let b = Plane::init(&[1000, 1000, 1000], &[0, 1000, 0]);
    match a.get_intersect(&b) {
        (true, Some(loc)) => assert_eq!(loc, v(2000, 1000, 2000)),
        _ => panic!("unexpected result for plane point intersection"),
    }
}

#[test]
fn test_intersect_plane_point_1() {
    let a = Point::init(&[2000, 1000, 2000]);
    let b = Plane::init(&[1000, 1000, 1000], &[0, 1000, 0]);
    match b.get_intersect(&a) {
        (true, Some(loc)) => assert_eq!(loc, v(2000, 1000, 2000)),
        _ => panic!("unexpected result for plane point intersection"),
    }
}

#[test]
fn test_intersect_plane_point_2() {
    let a = Point::init(&[2000, 1050, 2000]);
    let b = Plane::init(&[1000, 1000, 1000], &[0, 1000, 0]);
    match a.get_intersect(&b) {
        (false, None) => (),
        _ => panic!("unexpected result for plane point no intersection"),
    }
}

#[test]
fn test_intersect_plane_point_3() {
    let a = Point::init(&[2000, 990, 2000]);
    let b = Plane::init(&[1000, 1000, 1000], &[0, 1000, 0]);
    match a.get_intersect(&b) {
        (false, None) => (),
        _ => panic!("unexpected result for plane point no intersection"),
    }
}

#[test]
fn test_intersect_point_point() {
    {
        let a = Point::init(&[25000, 5000, 5000]);
        let b = Point::init(&[25000, 5000, 5000]);
        match a.get_intersect(&b) {
            (true, Some(loc)) => assert!(loc == b._ori),
            _ => panic!("unexpected result for ray point intersection"),
        }
    }
    {
        let a = Point::init(&[25000, 5000, 5000]);
        let b = Point::init(&[25100, 5000, 5000]);
        match a.get_intersect(&b) {
            (false, None) => (),
            _ => panic!("unexpected result for ray point intersection"),
        }
    }
}

#[test]
fn test_intersect_ray_ray() {
    //parallel rays, no intersection
    {
        let a = Ray::init(&[20000, 0, 0], &[1000, 1000, 1000]);
        let b = Ray::init(&[25000, 0, 0], &[1000, 1000, 1000]);
        match a.get_intersect(&b) {
            (false, None) => (),
            _ => panic!("unexpected result for parallel rays, no intersection"),
        }
    }
    //colinear rays, intersection
    {
        let a = Ray::init(&[20000, 0, 0], &[1000, 1000, 1000]);
        let b = Ray::init(&[22000, 2000, 2000], &[1000, 1000, 1000]);
        match a.get_intersect(&b) {
            (true, Some(loc)) => assert!(loc == b._ori),
            _ => panic!("unexpected result for colinear rays"),
        }
    }
    //colinear rays, intersection
    {
        let a = Ray::init(&[25000, 5000, 5000], &[1000, 1000, 1000]);
        let b = Ray::init(&[22000, 2000, 2000], &[1000, 1000, 1000]);
        match a.get_intersect(&b) {
            (true, Some(loc)) => assert!(loc == a._ori),
            _ => panic!("unexpected result for colinear rays"),
        }
    }
    //rays, intersection
    {
        let a = Ray::init(&[5000, 5000, 0], &[-1000, 0, 0]);
        let b = Ray::init(&[0, 0, 0], &[0, 1000, 0]);
        match a.get_intersect(&b) {
            (true, Some(loc)) => assert!(loc == v(0, 5000, 0)),
            _ => panic!("unexpected result for ray intersection"),
        }
    }
    //non-coplaner rays, no intersection
    {
        let a = Ray::init(&[5000, 5000, 2000], &[-1000, -1000, 0]);
        let b = Ray::init(&[5000, 5000, 0], &[1000, 1000, 0]);
        match a.get_intersect(&b) {
            (false, None) => (),
            _ => panic!("unexpected result for ray intersection"),
        }
    }
}

#[test]
fn test_intersect_ray_point() {
    {
        let a = Ray::init(&[20000, 0, 0], &[1000, 1000, 1000]);
        let b = Point::init(&[25000, 5000, 5000]);
        match a.get_intersect(&b) {
            (true, Some(loc)) => assert!(loc == b._ori),
            _ => panic!("unexpected result for ray point intersection"),
        }
    }
    {
        let a = Ray::init(&[20000, 0, 0], &[1000, 1000, 1000]);
        let b = Point::init(&[15000, -5000, -5000]);
        match a.get_intersect(&b) {
            (false, None) => (),
            _ => panic!("unexpected result for ray point no intersection, point behind ray"),
        }
    }
    {
        let a = Ray::init(&[20000, 0, 0], &[1000, 1000, 1000]);
        let b = Point::init(&[25000, 5000, 5100]);
        match a.get_intersect(&b) {
            (false, None) => (),
            _ => panic!("unexpected result for ray point no intersection"),
        }
    }
    //the same, asked of the point
    {
        let a = Ray::init(&[20000, 0, 0], &[1000, 1000, 1000]);
        let b = Point::init(&[25000, 5000, 5000]);
        match b.get_intersect(&a) {
            (true, Some(loc)) => assert!(loc == b._ori),
            _ => panic!("unexpected result for ray point intersection"),
        }
    }
    {
        let a = Ray::init(&[20000, 0, 0], &[1000, 1000, 1000]);
        let b = Point::init(&[15000, -5000, -5000]);
        match b.get_intersect(&a) {
            (false, None) => (),
            _ => panic!("unexpected result for ray point no intersection, point behind ray"),
        }
    }
    {
        let a = Ray::init(&[20000, 0, 0], &[1000, 1000, 1000]);
        let b = Point::init(&[25000, 5000, 5100]);
        match b.get_intersect(&a) {
            (false, None) => (),
            _ => panic!("unexpected result for ray point no intersection"),
        }
    }
}

#[test]
fn test_intersect_rectbox_point_0() {
    let a = Point::init(&[-9900, 9900, 9900]);
    let b = RectBox::init(&[0, 0, 0], 10000);
    match a.get_intersect(&b) {
        (true, Some(loc)) => assert_eq!(loc, a._ori),
        _ => panic!("unexpected result for box point intersection"),
    }
}

#[test]
fn test_intersect_rectbox_point_1() {
    let a = Point::init(&[-9900, 9900, -10100]);
    let b = RectBox::init(&[0, 0, 0], 10000);
    match a.get_intersect(&b) {
        (false, None) => (),
        _ => panic!("unexpected result for box point intersection"),
    }
}

#[test]
fn test_intersect_sphere_sphere_0() {
    let a = Sphere::init(&[10000, 0, 0], 5000);
    let b = Sphere::init(&[20000, 0, 0], 5000);
    match a.get_intersect(&b) {
        (true, Some(loc)) => assert_eq!(loc, v(15000, 0, 0)),
        _ => panic!("unexpected result for sphere sphere intersection"),
    }
}

#[test]
fn test_intersect_sphere_sphere_1() {
    let a = Sphere::init(&[10000, 0, 0], 5000);
    let b = Sphere::init(&[13000, 4000, 0], 5000);
    match a.get_intersect(&b) {
        (true, Some(loc)) => assert_eq!(loc, v(11500, 2000, 0)),
        _ => panic!("unexpected result for sphere sphere intersection"),
    }
}

#[test]
fn test_intersect_sphere_sphere_2() {
    let a = Sphere::init(&[10000, 0, 0], 5000);
    let b = Sphere::init(&[20000, 100, 0], 5000);
    match a.get_intersect(&b) {
        (false, None) => (),
        _ => panic!("unexpected result for sphere sphere intersection"),
    }
}

#[test]
fn test_intersect_sphere_point_0() {
    let a = Sphere::init(&[10000, 0, 0], 5000);
    let b = Point::init(&[8000, 2000, 3000]);
    match a.get_intersect(&b) {
        (true, Some(loc)) => assert_eq!(loc, v(8000, 2000, 3000)),
        _ => panic!("unexpected result for sphere point intersection"),
    }
}

#[test]
fn test_intersect_sphere_point_1() {
    let a = Sphere::init(&[10000, 0, 0], 5000);
    let b = Point::init(&[10000, 5000, 0]);
    match a.get_intersect(&b) {
        (true, Some(loc)) => assert_eq!(loc, v(10000, 5000, 0)),
        _ => panic!("unexpected result for sphere point intersection"),
    }
}

#[test]
fn test_intersect_sphere_point_2() {
    let a = Sphere::init(&[10000, 0, 0], 5000);
    let b = Point::init(&[0, 5100, 0]);
    match a.get_intersect(&b) {
        (false, None) => (),
        _ => panic!("unexpected result for sphere point no intersection"),
    }
}

#[test]
fn test_intersect_ray_sphere_0() {
    let a = Ray::init(&[5000, 0, 0], &[1000, 0, 0]);
    let b = Sphere::init(&[20000, 0, 0], 5000);
    match a.get_intersect(&b) {
        (true, Some(loc)) => assert_eq!(loc, v(15000, 0, 0)),
        _ => panic!("unexpected result for ray sphere intersection"),
    }
}

#[test]
fn test_intersect_ray_sphere_1() {
    let a = Ray::init(&[5000, 0, 0], &[-1000, 0, 0]);
    let b = Sphere::init(&[20000, 0, 0], 5000);
    match a.get_intersect(&b) {
        (false, None) => (),
        _ => panic!("unexpected result for ray sphere no intersection"),
    }
}

#[test]
fn test_intersect_ray_sphere_2() {
    let a = Ray::init(&[30000, 10000, 10000], &[-1000, 0, 0]);
    let b = Sphere::init(&[20000, 10000, 10000], 5000);
    match a.get_intersect(&b) {
        (true, Some(loc)) => assert_eq!(loc, v(25000, 10000, 10000)),
        _ => panic!("unexpected result for ray sphere intersection"),
    }
}

#[test]
fn test_intersect_ray_sphere_3() {
    //oblique angle: the location is irrational and lands within one grid unit
    let a = Ray::init(&[30000, 10000, 10000], &[-1000, -1000, -1000]);
    let b = Sphere::init(&[20000, 0, 0], 5000);
    match a.get_intersect(&b) {
        (true, Some(loc)) => {
            let c = (25f64 / 3f64).sqrt() * 1000.0;
            assert!(close(loc, 20000.0 + c, c, c, 1.0));
        }
        _ => panic!("unexpected result for ray sphere intersection"),
    }
}

#[test]
fn test_intersect_ray_sphere_4() {
    let a = Ray::init(&[30000, 10000, 10000], &[-1000, 0, -1000]);
    let b = Sphere::init(&[20000, 0, 0], 5000);
    match a.get_intersect(&b) {
        (false, None) => (),
        _ => panic!("unexpected result for ray sphere no intersection"),
    }
}

#[test]
fn test_intersect_triprism_line_0() {
    let a = TriPrism::init(&PRISM_BASE, 1000);
    let b = Line::init(&[250, 250, 0], &[1000, 1000, 0]);
    match a.get_intersect(&b) {
        (true, Some(_loc)) => {}
        _ => panic!("unexpected result for triprism line intersection"),
    }
}

#[test]
fn test_intersect_triprism_line_1() {
    let a = TriPrism::init(&PRISM_BASE, 1000);
    let b = Line::init(&[500, -50000, 0], &[500, 50000, 0]);
    match a.get_intersect(&b) {
        (true, Some(_loc)) => {}
        _ => panic!("unexpected result for triprism line intersection"),
    }
}

#[test]
fn test_intersect_triprism_line_2() {
    let a = TriPrism::init(&PRISM_BASE, 1000);
    let b = Line::init(&[250, 250, 500], &[260, 260, 500]);
    match a.get_intersect(&b) {
        (true, Some(_loc)) => {}
        _ => panic!("unexpected result for triprism line intersection"),
    }
}

#[test]
fn test_intersect_triprism_line_3() {
    let a = TriPrism::init(&PRISM_BASE, 1000);
    let b = Line::init(&[250, 250, 0], &[1000, 1000, 0]);
    match b.get_intersect(&a) {
        (true, Some(_loc)) => {}
        _ => panic!("unexpected result for triprism line intersection"),
    }
}

#[test]
fn test_intersect_triprism_line_4() {
    let a = TriPrism::init(&PRISM_BASE, 1000);
    let b = Line::init(&[500, -50000, 0], &[500, 50000, 0]);
    match b.get_intersect(&a) {
        (true, Some(_loc)) => {}
        _ => panic!("unexpected result for triprism line intersection"),
    }
}

#[test]
fn test_intersect_triprism_line_5() {
    let a = TriPrism::init(&PRISM_BASE, 1000);
    let b = Line::init(&[250, 250, 500], &[260, 260, 500]);
    match b.get_intersect(&a) {
        (true, Some(_loc)) => {}
        _ => panic!("unexpected result for triprism line intersection"),
    }
}

#[test]
fn test_intersect_triprism_line_6() {
    let a = TriPrism::init(&PRISM_BASE, 1000);
    let b = Line::init(&[250, 250, 1500], &[1000, 1000, 1500]);
    match a.get_intersect(&b) {
        (true, Some(_loc)) => panic!("unexpected result for triprism line intersection"),
        _ => {}
    }
}

#[test]
fn test_intersect_triprism_line_7() {
    let a = TriPrism::init(&PRISM_BASE, 1000);
    let b = Line::init(&[0, -5000, 500], &[50000, 45000, 500]);
    match a.get_intersect(&b) {
        (true, Some(_loc)) => panic!("unexpected result for triprism line intersection"),
        _ => {}
    }
}

#[test]
fn test_intersect_triprism_point_0() {
    let a = TriPrism::init(&PRISM_BASE, 1000);
    let b = Point::init(&[250, 250, 0]);
    match a.get_intersect(&b) {
        (true, Some(loc)) => assert_eq!(loc, b._ori),
        _ => panic!("unexpected result for triprism point intersection"),
    }
}

#[test]
fn test_intersect_triprism_point_1() {
    let a = TriPrism::init(&PRISM_BASE, 1000);
    let b = Point::init(&[250, 250, 500]);
    match a.get_intersect(&b) {
        (true, Some(loc)) => assert_eq!(loc, b._ori),
        _ => panic!("unexpected result for triprism point intersection"),
    }
}

#[test]
fn test_intersect_triprism_point_2() {
    let a = TriPrism::init(&PRISM_BASE, 1000);
    let b = Point::init(&[250, 250, 1000]);
    match a.get_intersect(&b) {
        (true, Some(loc)) => assert_eq!(loc, b._ori),
        _ => panic!("unexpected result for triprism point intersection"),
    }
}

#[test]
fn test_intersect_triprism_point_3() {
    let a = TriPrism::init(&PRISM_BASE, 1000);
    let b = Point::init(&[250, 250, 0]);
    match b.get_intersect(&a) {
        (true, Some(loc)) => assert_eq!(loc, b._ori),
        _ => panic!("unexpected result for triprism point intersection"),
    }
}

#[test]
fn test_intersect_triprism_point_4() {
    let a = TriPrism::init(&PRISM_BASE, 1000);
    let b = Point::init(&[250, 250, 500]);
    match b.get_intersect(&a) {
        (true, Some(loc)) => assert_eq!(loc, b._ori),
        _ => panic!("unexpected result for triprism point intersection"),
    }
}

#[test]
fn test_intersect_triprism_point_5() {
    let a = TriPrism::init(&PRISM_BASE, 1000);
    let b = Point::init(&[250, 250, 1000]);
    match b.get_intersect(&a) {
        (true, Some(loc)) => assert_eq!(loc, b._ori),
        _ => panic!("unexpected result for triprism point intersection"),
    }
}

#[test]
fn test_intersect_triprism_point_6() {
    let a = TriPrism::init(&PRISM_BASE, 1000);
    let b = Point::init(&[250, 250, 1001]);
    match a.get_intersect(&b) {
        (false, None) => (),
        _ => panic!("unexpected result for triprism point no intersection"),
    }
}

#[test]
fn test_intersect_triprism_point_7() {
    let a = TriPrism::init(&PRISM_BASE, 1000);
    let b = Point::init(&[500, 550, 500]);
    match a.get_intersect(&b) {
        (false, None) => (),
        _ => panic!("unexpected result for triprism point no intersection"),
    }
}
