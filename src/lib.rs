//! Intersection queries between simple 3D shapes: points, rays, spheres,
//! planes, axis-aligned cubes, line segments and triangular prisms.
//!
//! Every query first tests the two shapes' axis-aligned bounds and stops on a
//! miss; a hit goes to the closed-form test of the pair, run by the shape that
//! owns it (`shape::AnyShape::get_intersect`). Convex shapes with a support
//! mapping can also be tested by GJK (`intersect_gjk::query_intersect`).
//!
//! Coordinates are integers on a grid whose unit the caller chooses, and all
//! tests are exact. Where a reported location is irrational it is rounded
//! through an integer square root; each contract states the rounding.
pub mod bound;
pub mod bound_aabb;
pub mod intersect_gjk;
pub mod line;
pub mod plane;
pub mod point;
pub mod ray;
pub mod ray_point_intersect;
pub mod ray_ray_intersect;
pub mod rect_box;
pub mod shape;
pub mod sphere;
pub mod tri_prism;
pub mod vector;
pub mod vicinity;
