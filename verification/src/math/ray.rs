//! Parametric rays with an associated time sample.

use vstd::prelude::*;

verus! {

use crate::fx::{fxmul, Fx, DMAX, PMAX, TLIM};
use crate::math::point3::{point_in, Point3};
use crate::math::vec3::{vec_in, Vec3};

/// A ray: origin, direction and the time sample it was cast at.
#[derive(Clone, Copy, Debug, PartialEq, Eq, Structural)]
pub struct Ray {
    pub origin: Point3,
    pub direction: Vec3,
    pub time: Fx,
}

/// Origin and direction lie within the magnitudes the intersection
/// routines accept.
pub open spec fn ray_within(r: Ray, pm: int, dm: int) -> bool {
    &&& point_in(r.spec_origin(), pm)
    &&& vec_in(r.spec_direction(), dm)
    &&& -(crate::fx::SCALE as int) <= r.time.0 <= crate::fx::SCALE as int
}

/// The point `origin + t * direction`, component by component.
pub open spec fn is_ray_at(p: Point3, r: Ray, t: int) -> bool {
    &&& p.0.x.0 == r.spec_origin().0.x.0 + fxmul(t, r.spec_direction().x.0 as int)
    &&& p.0.y.0 == r.spec_origin().0.y.0 + fxmul(t, r.spec_direction().y.0 as int)
    &&& p.0.z.0 == r.spec_origin().0.z.0 + fxmul(t, r.spec_direction().z.0 as int)
}

impl Ray {
    pub open spec fn spec_origin(self) -> Point3 {
        self.origin
    }

    pub open spec fn spec_direction(self) -> Vec3 {
        self.direction
    }

    pub open spec fn spec_time(self) -> Fx {
        self.time
    }

    pub fn new(origin: Point3, direction: Vec3, time: Fx) -> (r: Ray)
        ensures
            r.spec_origin() == origin,
            r.spec_direction() == direction,
            r.spec_time() == time,
    {
        Ray { origin, direction, time }
    }

    pub fn origin(&self) -> (r: &Point3)
        ensures
            *r == self.spec_origin(),
    {
        &self.origin
    }

    pub fn direction(&self) -> (r: &Vec3)
        ensures
            *r == self.spec_direction(),
    {
        &self.direction
    }

    pub fn time(&self) -> (r: Fx)
        ensures
            r == self.spec_time(),
    {
        self.time
    }

    /// The point the ray reaches at parameter `t`.
    pub fn at(&self, t: Fx) -> (p: Point3)
        requires
            -TLIM <= t.0 <= TLIM,
            ray_within(*self, PMAX as int, DMAX as int),
        ensures
            is_ray_at(p, *self, t.0 as int),
            point_in(p, PMAX as int + TLIM as int * (DMAX as int) / (crate::fx::SCALE as int)),
    {
        proof {
            crate::fx::lemma_fxmul_mag(t.0 as int, self.direction.x.0 as int, TLIM as int, DMAX as int);
            crate::fx::lemma_fxmul_mag(t.0 as int, self.direction.y.0 as int, TLIM as int, DMAX as int);
            crate::fx::lemma_fxmul_mag(t.0 as int, self.direction.z.0 as int, TLIM as int, DMAX as int);
        }
        Point3(Vec3 {
            x: self.origin.0.x.add(t.mul(self.direction.x)),
            y: self.origin.0.y.add(t.mul(self.direction.y)),
            z: self.origin.0.z.add(t.mul(self.direction.z)),
        })
    }

}

} // verus!
