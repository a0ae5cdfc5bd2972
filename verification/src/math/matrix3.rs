//! Rotation matrices, built from a given sine and cosine.

use vstd::prelude::*;

verus! {

use crate::fx::{Fx, SCALE, TLIM};
use crate::math::point3::Point3;
use crate::math::vec3::{dot_raw, vec_in, Vec3};
use crate::math::Axis;

/// A three-by-three matrix, one row per vector.
#[derive(Clone, Copy, Debug, PartialEq, Eq, Structural)]
pub struct Matrix3 {
    pub r0: Vec3,
    pub r1: Vec3,
    pub r2: Vec3,
}

/// Every entry lies within `m` in magnitude.
pub open spec fn mat_in(m: Matrix3, b: int) -> bool {
    vec_in(m.r0, b) && vec_in(m.r1, b) && vec_in(m.r2, b)
}

/// `r` is the matrix applied to `v`: one single-rounded dot product per row.
pub open spec fn is_mat_mul(r: Vec3, m: Matrix3, v: Vec3) -> bool {
    &&& r.x.0 == dot_raw(m.r0, v)
    &&& r.y.0 == dot_raw(m.r1, v)
    &&& r.z.0 == dot_raw(m.r2, v)
}

/// The matrix applied to `v`, as a value.
pub open spec fn mat_apply(m: Matrix3, v: Vec3) -> Vec3 {
    Vec3 {
        x: Fx(dot_raw(m.r0, v) as i128),
        y: Fx(dot_raw(m.r1, v) as i128),
        z: Fx(dot_raw(m.r2, v) as i128),
    }
}

impl Matrix3 {
    pub fn zero() -> (r: Matrix3)
        ensures
            r.r0 == (Vec3 { x: Fx(0), y: Fx(0), z: Fx(0) }),
            r.r1 == (Vec3 { x: Fx(0), y: Fx(0), z: Fx(0) }),
            r.r2 == (Vec3 { x: Fx(0), y: Fx(0), z: Fx(0) }),
    {
        Matrix3 { r0: Vec3::zero(), r1: Vec3::zero(), r2: Vec3::zero() }
    }

    /// Rotation about `axis` by the angle whose sine and cosine are
    /// given; the caller supplies both values of one angle.  The matrix
    /// layout is pinned exactly; the metric laws of a true rotation --
    /// preserved lengths and dot products, and the opposite angle as an
    /// inverse -- hold only up to one grid step of rounding per applied
    /// product, so they are not stated as contracts.
    pub fn rotate(sin_t: Fx, cos_t: Fx, axis: Axis) -> (r: Matrix3)
        requires
            -2 * SCALE <= sin_t.0 <= 2 * SCALE,
            -2 * SCALE <= cos_t.0 <= 2 * SCALE,
        ensures
            r == spec_rotate(sin_t, cos_t, axis),
    {
        match axis {
            Axis::X => Matrix3::rotate_about_x(sin_t, cos_t),
            Axis::Y => Matrix3::rotate_about_y(sin_t, cos_t),
            Axis::Z => Matrix3::rotate_about_z(sin_t, cos_t),
        }
    }

    pub fn rotate_about_x(sin_t: Fx, cos_t: Fx) -> (r: Matrix3)
        requires
            -2 * SCALE <= sin_t.0 <= 2 * SCALE,
            -2 * SCALE <= cos_t.0 <= 2 * SCALE,
        ensures
            r == spec_rotate(sin_t, cos_t, Axis::X),
    {
        Matrix3 {
            r0: Vec3 { x: Fx(crate::fx::ONE_RAW), y: Fx(0), z: Fx(0) },
            r1: Vec3 { x: Fx(0), y: cos_t, z: Fx(0).sub(sin_t) },
            r2: Vec3 { x: Fx(0), y: sin_t, z: cos_t },
        }
    }

    pub fn rotate_about_y(sin_t: Fx, cos_t: Fx) -> (r: Matrix3)
        requires
            -2 * SCALE <= sin_t.0 <= 2 * SCALE,
            -2 * SCALE <= cos_t.0 <= 2 * SCALE,
        ensures
            r == spec_rotate(sin_t, cos_t, Axis::Y),
    {
        Matrix3 {
            r0: Vec3 { x: cos_t, y: Fx(0), z: sin_t },
            r1: Vec3 { x: Fx(0), y: Fx(crate::fx::ONE_RAW), z: Fx(0) },
            r2: Vec3 { x: Fx(0).sub(sin_t), y: Fx(0), z: cos_t },
        }
    }

    pub fn rotate_about_z(sin_t: Fx, cos_t: Fx) -> (r: Matrix3)
        requires
            -2 * SCALE <= sin_t.0 <= 2 * SCALE,
            -2 * SCALE <= cos_t.0 <= 2 * SCALE,
        ensures
            r == spec_rotate(sin_t, cos_t, Axis::Z),
    {
        Matrix3 {
            r0: Vec3 { x: cos_t, y: Fx(0).sub(sin_t), z: Fx(0) },
            r1: Vec3 { x: sin_t, y: cos_t, z: Fx(0) },
            r2: Vec3 { x: Fx(0), y: Fx(0), z: Fx(crate::fx::ONE_RAW) },
        }
    }

    /// Apply to a vector.
    pub fn mul_vec3(&self, v: Vec3) -> (r: Vec3)
        requires
            mat_in(*self, 2 * SCALE),
            vec_in(v, TLIM as int),
        ensures
            is_mat_mul(r, *self, v),
            r == mat_apply(*self, v),
    {
        Vec3 {
            x: crate::math::vec3::dot(&self.r0, &v),
            y: crate::math::vec3::dot(&self.r1, &v),
            z: crate::math::vec3::dot(&self.r2, &v),
        }
    }

    /// Apply to a point.
    pub fn mul_point3(&self, p: Point3) -> (r: Point3)
        requires
            mat_in(*self, 2 * SCALE),
            vec_in(p.0, TLIM as int),
        ensures
            is_mat_mul(r.0, *self, p.0),
            r.0 == mat_apply(*self, p.0),
    {
        Point3(self.mul_vec3(p.0))
    }
}

/// The rotation matrix for a given axis, sine and cosine.
pub open spec fn spec_rotate(sin_t: Fx, cos_t: Fx, axis: Axis) -> Matrix3 {
    let one = Fx(crate::fx::ONE_RAW);
    let zero = Fx(0);
    let msin = Fx((0 - sin_t.0) as i128);
    match axis {
        Axis::X => Matrix3 {
            r0: Vec3 { x: one, y: zero, z: zero },
            r1: Vec3 { x: zero, y: cos_t, z: msin },
            r2: Vec3 { x: zero, y: sin_t, z: cos_t },
        },
        Axis::Y => Matrix3 {
            r0: Vec3 { x: cos_t, y: zero, z: sin_t },
            r1: Vec3 { x: zero, y: one, z: zero },
            r2: Vec3 { x: msin, y: zero, z: cos_t },
        },
        Axis::Z => Matrix3 {
            r0: Vec3 { x: cos_t, y: msin, z: zero },
            r1: Vec3 { x: sin_t, y: cos_t, z: zero },
            r2: Vec3 { x: zero, y: zero, z: one },
        },
    }
}

} // verus!
