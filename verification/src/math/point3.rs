//! Positions in space, kept apart from displacements by type.

use vstd::prelude::*;

verus! {

use crate::fx::{Fx, DIVIN};
use crate::math::vec3::{is_vadd, is_vsub, vec_in, Vec3};
use crate::math::Axis;

/// A position in space; the difference of two points is a `Vec3`.
#[derive(Clone, Copy, Debug, PartialEq, Eq, Structural)]
pub struct Point3(pub Vec3);

impl Point3 {
    pub fn new(x: Fx, y: Fx, z: Fx) -> (r: Point3)
        ensures
            r.0 == (Vec3 { x, y, z }),
    {
        Point3(Vec3 { x, y, z })
    }

    pub fn origin() -> (r: Point3)
        ensures
            r.0.x.0 == 0 && r.0.y.0 == 0 && r.0.z.0 == 0,
    {
        Point3(Vec3::zero())
    }

    pub fn x(&self) -> (r: Fx)
        ensures
            r == self.0.x,
    {
        self.0.x
    }

    pub fn y(&self) -> (r: Fx)
        ensures
            r == self.0.y,
    {
        self.0.y
    }

    pub fn z(&self) -> (r: Fx)
        ensures
            r == self.0.z,
    {
        self.0.z
    }

    pub fn axis_comp(&self, a: Axis) -> (r: Fx)
        ensures
            r == self.0.spec_axis_comp(a),
    {
        self.0.axis_comp(a)
    }

    pub fn as_vec3(&self) -> (r: &Vec3)
        ensures
            *r == self.0,
    {
        &self.0
    }

    pub fn from_vec3(v: Vec3) -> (r: Point3)
        ensures
            r.0 == v,
    {
        Point3(v)
    }

    /// The displacement from `o` to `self`.
    pub fn sub(self, o: Point3) -> (r: Vec3)
        requires
            -DIVIN <= self.0.x.0 - o.0.x.0 <= DIVIN,
            -DIVIN <= self.0.y.0 - o.0.y.0 <= DIVIN,
            -DIVIN <= self.0.z.0 - o.0.z.0 <= DIVIN,
        ensures
            is_vsub(r, self.0, o.0),
    {
        self.0.sub(o.0)
    }

    /// The point displaced by `v`.
    pub fn add_vec(self, v: Vec3) -> (r: Point3)
        requires
            -DIVIN <= self.0.x.0 + v.x.0 <= DIVIN,
            -DIVIN <= self.0.y.0 + v.y.0 <= DIVIN,
            -DIVIN <= self.0.z.0 + v.z.0 <= DIVIN,
        ensures
            is_vadd(r.0, self.0, v),
    {
        Point3(self.0.add(v))
    }

    /// The point displaced against `v`.
    pub fn sub_vec(self, v: Vec3) -> (r: Point3)
        requires
            -DIVIN <= self.0.x.0 - v.x.0 <= DIVIN,
            -DIVIN <= self.0.y.0 - v.y.0 <= DIVIN,
            -DIVIN <= self.0.z.0 - v.z.0 <= DIVIN,
        ensures
            is_vsub(r.0, self.0, v),
    {
        Point3(self.0.sub(v))
    }
}

/// The point displaced by `v`, as a value.
pub open spec fn spec_padd(p: Point3, v: Vec3) -> Point3 {
    Point3(crate::math::vec3::add_vv(p.0, v))
}

/// The point displaced against `v`, as a value.
pub open spec fn spec_psub(p: Point3, v: Vec3) -> Point3 {
    Point3(
        Vec3 {
            x: Fx((p.0.x.0 - v.x.0) as i128),
            y: Fx((p.0.y.0 - v.y.0) as i128),
            z: Fx((p.0.z.0 - v.z.0) as i128),
        },
    )
}

/// All three coordinates lie within `m` in magnitude.
pub open spec fn point_in(p: Point3, m: int) -> bool {
    vec_in(p.0, m)
}

} // verus!
