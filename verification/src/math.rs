//! Vector and point algebra, rays, intervals and bounding boxes.

use vstd::prelude::*;

pub mod aabb;
pub mod interval;
pub mod matrix3;
pub mod point3;
pub mod ray;
pub mod vec3;

pub use aabb::Aabb;
pub use interval::{ExtFx, Interval};
pub use matrix3::Matrix3;
pub use point3::Point3;
pub use ray::Ray;
pub use vec3::{cross, dot, reflect, refract, Vec3};

verus! {

/// One of the three coordinate axes.
#[derive(Clone, Copy, Debug, PartialEq, Eq, Structural)]
pub enum Axis {
    X,
    Y,
    Z,
}

} // verus!
