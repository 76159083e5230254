//! The shape capability surface and the pairwise dispatch of intersection queries.
use crate::bound::{boxes_overlap, Bound};
use crate::bound_aabb::AxisAlignedBBox;
use crate::line::{line_support, Line};
use crate::plane::{plane_point, Plane};
use crate::point::{point_point, Point};
use crate::ray::{ray_plane, ray_sphere, Ray};
use crate::ray_point_intersect::ray_point;
use crate::ray_ray_intersect::{lemma_ray_ray_symmetric, ray_ray};
use crate::rect_box::{box_point, box_support, RectBox};
use crate::sphere::{sphere_point, sphere_sphere, sphere_support, Sphere};
use crate::tri_prism::{prism_line, prism_point, prism_support, TriPrism};
use crate::vector::{opt_view, v_bounded, v_neg, v_norm2, v_sub, Vec3, LIM_DIR, V3};
use crate::vicinity::Vicinity;
use vstd::prelude::*;

verus! {

/// Runtime tag of a shape, used to route a pair of shapes to its algorithm.
#[derive(Clone, Copy, Debug, PartialEq, Eq, Structural)]
pub enum ShapeType {
    Point,
    Ray,
    Sphere,
    Plane,
    Trig,
    Box,
    Rect,
    TriPrism,
    Line,
    Frustum,
    Complex,
}

/// The result of an intersection query in the model: whether the shapes meet,
/// and a location where they do.
pub type Hit = (bool, Option<V3>);

/// The model of an executable query result.
pub open spec fn hit_view(r: (bool, Option<Vec3>)) -> Hit {
    (r.0, opt_view(r.1))
}

/// Any of the primitive shapes.
#[derive(Clone, Copy, Debug)]
pub enum AnyShape {
    Point(Point),
    Ray(Ray),
    Sphere(Sphere),
    Plane(Plane),
    Box(RectBox),
    Line(Line),
    TriPrism(TriPrism),
}

/// `a` owns the closed-form test of the ordered pair `(a, b)`.
pub open spec fn owns_pair(a: ShapeType, b: ShapeType) -> bool {
    ||| a == ShapeType::Point && b == ShapeType::Point
    ||| a == ShapeType::Plane && b == ShapeType::Point
    ||| a == ShapeType::Sphere && b == ShapeType::Point
    ||| a == ShapeType::Box && b == ShapeType::Point
    ||| a == ShapeType::TriPrism && b == ShapeType::Point
    ||| a == ShapeType::Ray && b == ShapeType::Ray
    ||| a == ShapeType::Ray && b == ShapeType::Point
    ||| a == ShapeType::Ray && b == ShapeType::Sphere
    ||| a == ShapeType::Ray && b == ShapeType::Plane
    ||| a == ShapeType::Sphere && b == ShapeType::Sphere
    ||| a == ShapeType::TriPrism && b == ShapeType::Line
}

/// A closed form is registered for the pair, in one order or the other.
pub open spec fn closed_form_pair(a: ShapeType, b: ShapeType) -> bool {
    owns_pair(a, b) || owns_pair(b, a)
}

/// The closed-form test of a pair, run by whichever shape owns it.
pub open spec fn pair_hit(a: AnyShape, b: AnyShape) -> Hit {
    match a {
        AnyShape::Point(p) => match b {
            AnyShape::Point(q) => point_point(p, q),
            AnyShape::Ray(r) => ray_point(r, p),
            AnyShape::Sphere(s) => sphere_point(s, p),
            AnyShape::Plane(l) => plane_point(l, p),
            AnyShape::Box(x) => box_point(x, p),
            AnyShape::TriPrism(t) => prism_point(t, p),
            _ => (false, None),
        },
        AnyShape::Ray(r) => match b {
            AnyShape::Point(p) => ray_point(r, p),
            AnyShape::Ray(q) => ray_ray(r, q),
            AnyShape::Sphere(s) => ray_sphere(r, s),
            AnyShape::Plane(l) => ray_plane(r, l),
            _ => (false, None),
        },
        AnyShape::Sphere(s) => match b {
            AnyShape::Point(p) => sphere_point(s, p),
            AnyShape::Ray(r) => ray_sphere(r, s),
            AnyShape::Sphere(q) => sphere_sphere(s, q),
            _ => (false, None),
        },
        AnyShape::Plane(l) => match b {
            AnyShape::Point(p) => plane_point(l, p),
            AnyShape::Ray(r) => ray_plane(r, l),
            _ => (false, None),
        },
        AnyShape::Box(x) => match b {
            AnyShape::Point(p) => box_point(x, p),
            _ => (false, None),
        },
        AnyShape::Line(l) => match b {
            AnyShape::TriPrism(t) => prism_line(t, l),
            _ => (false, None),
        },
        AnyShape::TriPrism(t) => match b {
            AnyShape::Point(p) => prism_point(t, p),
            AnyShape::Line(l) => prism_line(t, l),
            _ => (false, None),
        },
    }
}

/// The query of `a` against `b`: no intersection when the bounds are disjoint,
/// else the closed-form test of the pair.
pub open spec fn intersect_spec(a: AnyShape, b: AnyShape) -> Hit {
    if !boxes_overlap(a.bound().lower(), a.bound().upper(), b.bound().lower(), b.bound().upper()) {
        (false, None)
    } else {
        pair_hit(a, b)
    }
}

impl AnyShape {
    pub open spec fn shape_type(&self) -> ShapeType {
        match self {
            AnyShape::Point(_) => ShapeType::Point,
            AnyShape::Ray(_) => ShapeType::Ray,
            AnyShape::Sphere(_) => ShapeType::Sphere,
            AnyShape::Plane(_) => ShapeType::Plane,
            AnyShape::Box(_) => ShapeType::Box,
            AnyShape::Line(_) => ShapeType::Line,
            AnyShape::TriPrism(_) => ShapeType::TriPrism,
        }
    }

    pub open spec fn bound(&self) -> AxisAlignedBBox {
        match self {
            AnyShape::Point(s) => s._bound,
            AnyShape::Ray(s) => s._bound,
            AnyShape::Sphere(s) => s._bound,
            AnyShape::Plane(s) => s._bound,
            AnyShape::Box(s) => s._bound,
            AnyShape::Line(s) => s._bound,
            AnyShape::TriPrism(s) => s._bound,
        }
    }

    pub open spec fn wf(&self) -> bool {
        match self {
            AnyShape::Point(s) => s.wf(),
            AnyShape::Ray(s) => s.wf(),
            AnyShape::Sphere(s) => s.wf(),
            AnyShape::Plane(s) => s.wf(),
            AnyShape::Box(s) => s.wf(),
            AnyShape::Line(s) => s.wf(),
            AnyShape::TriPrism(s) => s.wf(),
        }
    }

    pub open spec fn vicinity(&self) -> int {
        match self {
            AnyShape::Point(s) => s._vicinity as int,
            AnyShape::Ray(s) => s._vicinity as int,
            AnyShape::Sphere(s) => s._vicinity as int,
            AnyShape::Plane(s) => s._vicinity as int,
            AnyShape::Box(s) => s._vicinity as int,
            AnyShape::Line(s) => s._vicinity as int,
            AnyShape::TriPrism(s) => s._vicinity as int,
        }
    }

    /// The support mapping: the point of the shape farthest along `v`; none
    /// for unbounded shapes and, but for a point, for a zero `v`.
    pub open spec fn support(&self, v: V3) -> Option<V3> {
        match self {
            AnyShape::Point(s) => Some(s._ori@),
            AnyShape::Ray(_) => None,
            AnyShape::Sphere(s) => sphere_support(*s, v),
            AnyShape::Plane(_) => None,
            AnyShape::Box(s) => box_support(*s, v),
            AnyShape::Line(s) => line_support(*s, v),
            AnyShape::TriPrism(s) => prism_support(*s, v),
        }
    }

    pub fn get_type(&self) -> (r: ShapeType)
        ensures
            r == self.shape_type(),
    {
        match self {
            AnyShape::Point(_) => ShapeType::Point,
            AnyShape::Ray(_) => ShapeType::Ray,
            AnyShape::Sphere(_) => ShapeType::Sphere,
            AnyShape::Plane(_) => ShapeType::Plane,
            AnyShape::Box(_) => ShapeType::Box,
            AnyShape::Line(_) => ShapeType::Line,
            AnyShape::TriPrism(_) => ShapeType::TriPrism,
        }
    }

    pub fn get_bound(&self) -> (r: &AxisAlignedBBox)
        ensures
            *r == self.bound(),
    {
        match self {
            AnyShape::Point(s) => &s._bound,
            AnyShape::Ray(s) => &s._bound,
            AnyShape::Sphere(s) => &s._bound,
            AnyShape::Plane(s) => &s._bound,
            AnyShape::Box(s) => &s._bound,
            AnyShape::Line(s) => &s._bound,
            AnyShape::TriPrism(s) => &s._bound,
        }
    }

    pub fn get_support(&self, v: &Vec3) -> (r: Option<Vec3>)
        requires
            self.wf(),
            v_bounded(v@, LIM_DIR as int),
        ensures
            opt_view(r) == self.support(v@),
            r matches Some(p) ==> v_bounded(p@, 2097152),
    {
        match self {
            AnyShape::Point(s) => Some(s._ori),
            AnyShape::Ray(_) => None,
            AnyShape::Sphere(s) => s.support(*v),
            AnyShape::Plane(_) => None,
            AnyShape::Box(s) => s.support(*v),
            AnyShape::Line(s) => s.support(*v),
            AnyShape::TriPrism(s) => s.support(*v),
        }
    }

    /// Broad phase on the bounds, then the closed-form test of the pair, run
    /// by the shape that owns it (the other shape delegates to it). Any pair
    /// may be asked; a closed form is needed only when the bounds overlap.
    pub fn get_intersect(&self, other: &AnyShape) -> (r: (bool, Option<Vec3>))
        requires
            self.wf(),
            other.wf(),
            boxes_overlap(
                self.bound().lower(),
                self.bound().upper(),
                other.bound().lower(),
                other.bound().upper(),
            ) ==> closed_form_pair(self.shape_type(), other.shape_type()),
        ensures
            hit_view(r) == intersect_spec(*self, *other),
    {
        if !self.get_bound().intersect(other.get_bound()) {
            return (false, None);
        }
        match (self, other) {
            (AnyShape::Point(p), AnyShape::Point(q)) => p.intersect_point(q),
            (AnyShape::Point(p), AnyShape::Ray(r)) => crate::ray_point_intersect::intersect(r, p),
            (AnyShape::Point(p), AnyShape::Sphere(s)) => s.intersect_point(p),
            (AnyShape::Point(p), AnyShape::Plane(l)) => l.intersect_point(p),
            (AnyShape::Point(p), AnyShape::Box(x)) => x.intersect_point(p),
            (AnyShape::Point(p), AnyShape::TriPrism(t)) => t.intersect_point(p),
            (AnyShape::Ray(r), AnyShape::Point(p)) => crate::ray_point_intersect::intersect(r, p),
            (AnyShape::Ray(r), AnyShape::Ray(q)) => crate::ray_ray_intersect::intersect(r, q),
            (AnyShape::Ray(r), AnyShape::Sphere(s)) => r.intersect_sphere(s),
            (AnyShape::Ray(r), AnyShape::Plane(l)) => r.intersect_plane(l),
            (AnyShape::Sphere(s), AnyShape::Point(p)) => s.intersect_point(p),
            (AnyShape::Sphere(s), AnyShape::Ray(r)) => r.intersect_sphere(s),
            (AnyShape::Sphere(s), AnyShape::Sphere(q)) => s.intersect_sphere(q),
            (AnyShape::Plane(l), AnyShape::Point(p)) => l.intersect_point(p),
            (AnyShape::Plane(l), AnyShape::Ray(r)) => r.intersect_plane(l),
            (AnyShape::Box(x), AnyShape::Point(p)) => x.intersect_point(p),
            (AnyShape::Line(l), AnyShape::TriPrism(t)) => t.intersect_line(l),
            (AnyShape::TriPrism(t), AnyShape::Point(p)) => t.intersect_point(p),
            (AnyShape::TriPrism(t), AnyShape::Line(l)) => t.intersect_line(l),
            _ => (false, None),
        }
    }
}

/// A pair of shapes whose bounds are disjoint never intersects: the broad
/// phase rejects it before any closed-form test runs.
pub proof fn lemma_disjoint_bounds_never_intersect(a: AnyShape, b: AnyShape)
    requires
        !boxes_overlap(a.bound().lower(), a.bound().upper(), b.bound().lower(), b.bound().upper()),
    ensures
        intersect_spec(a, b) == (false, None::<V3>),
{
}

/// Whether two shapes intersect does not depend on which of them the query
/// is asked of, for every pair with a closed form. Two rays are taken with
/// the same tolerance: each order measures with the tolerance of the ray
/// asked.
pub proof fn lemma_intersect_symmetric(a: AnyShape, b: AnyShape)
    requires
        a.wf(),
        b.wf(),
        closed_form_pair(a.shape_type(), b.shape_type()),
        a.shape_type() == ShapeType::Ray && b.shape_type() == ShapeType::Ray ==> a.vicinity()
            == b.vicinity(),
    ensures
        intersect_spec(a, b).0 == intersect_spec(b, a).0,
{
    match (a, b) {
        (AnyShape::Ray(r), AnyShape::Ray(q)) => {
            lemma_ray_ray_symmetric(r, q);
        },
        (AnyShape::Sphere(s), AnyShape::Sphere(q)) => {
            let c = v_sub(q._ori@, s._ori@);
            assert(v_sub(s._ori@, q._ori@) == v_neg(c));
            assert(v_norm2(v_neg(c)) == v_norm2(c)) by (nonlinear_arith);
        },
        _ => {},
    }
}

/// Access to a shape as the tagged union of all shapes.
pub trait AnyBase {
    spec fn to_any(&self) -> AnyShape;

    fn as_any(&self) -> (r: AnyShape)
        ensures
            r == self.to_any(),
    ;
}

/// What every primitive shape offers.
pub trait Shape: Vicinity + AnyBase {
    fn get_type(&self) -> (r: ShapeType)
        ensures
            r == self.to_any().shape_type(),
    ;

    fn get_bound(&self) -> (r: &AxisAlignedBBox)
        ensures
            *r == self.to_any().bound(),
    ;

    /// Whether `self` and `other` meet, with a location where they do.
    fn get_intersect<S: AnyBase>(&self, other: &S) -> (r: (bool, Option<Vec3>))
        requires
            self.to_any().wf(),
            other.to_any().wf(),
            boxes_overlap(
                self.to_any().bound().lower(),
                self.to_any().bound().upper(),
                other.to_any().bound().lower(),
                other.to_any().bound().upper(),
            ) ==> closed_form_pair(self.to_any().shape_type(), other.to_any().shape_type()),
        ensures
            hit_view(r) == intersect_spec(self.to_any(), other.to_any()),
    ;

    /// The point of the shape farthest along `v`, for the GJK test.
    fn get_support(&self, v: &Vec3) -> (r: Option<Vec3>)
        requires
            self.to_any().wf(),
            v_bounded(v@, LIM_DIR as int),
        ensures
            opt_view(r) == self.to_any().support(v@),
            r matches Some(p) ==> v_bounded(p@, 2097152),
    ;
}

} // verus!
