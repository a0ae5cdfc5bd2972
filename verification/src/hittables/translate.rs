//! An instance wrapper that displaces an object.

use vstd::prelude::*;

verus! {

use crate::fx::{Fx, DMAX, PMAX};
use crate::hittables::{hit_ok, hittable_wf, hr_wf, lemma_bbox_wf, spec_bbox, HitRecord, Hittable, BBND, GEO};
use crate::math::aabb::{aabb_in, aabb_wf, Aabb};
use crate::math::interval::Interval;
use crate::math::point3::{point_in, Point3};
use crate::math::ray::{ray_within, Ray};
use crate::math::vec3::{vec_in, Vec3};
use crate::rng::RandomSource;

/// An object displaced by a fixed offset.
pub struct Translate {
    pub object: Box<Hittable>,
    pub offset: Vec3,
    pub bbox: Aabb,
}

/// What a translated query may return: the child queried along the ray
/// moved into the object's frame, the hit moved back out.  A hit that
/// leaves the representable coordinate range is dropped.
pub open spec fn translate_hit_ok<'a>(
    t: Translate,
    r: Ray,
    ray_t: Interval,
    res: Option<HitRecord<'a>>,
) -> bool
    decreases *t.object, 1int,
{
    let ox = r.spec_origin().0.x.0 - t.offset.x.0;
    let oy = r.spec_origin().0.y.0 - t.offset.y.0;
    let oz = r.spec_origin().0.z.0 - t.offset.z.0;
    if !(-PMAX <= ox <= PMAX && -PMAX <= oy <= PMAX && -PMAX <= oz <= PMAX) {
        res is None
    } else {
        exists|cres: Option<HitRecord<'a>>|
            #[trigger] crate::hittables::probed(cres) && hit_ok(
                *t.object,
                moved_ray(r, t.offset),
                ray_t,
                cres,
            ) && translate_witness(t, r, ray_t, cres, res)
    }
}

/// The body of the translated-query contract, for one child result.
pub open spec fn translate_witness<'a>(
    t: Translate,
    r: Ray,
    ray_t: Interval,
    cres: Option<HitRecord<'a>>,
    res: Option<HitRecord<'a>>,
) -> bool {
    match cres {
        Option::None => res is None,
        Option::Some(ch) => {
            let px = ch.p.0.x.0 + t.offset.x.0;
            let py = ch.p.0.y.0 + t.offset.y.0;
            let pz = ch.p.0.z.0 + t.offset.z.0;
            if -PMAX <= px <= PMAX && -PMAX <= py <= PMAX && -PMAX <= pz <= PMAX {
                res matches Some(h) && h.p.0.x.0 == px && h.p.0.y.0 == py && h.p.0.z.0 == pz
                    && h.normal == ch.normal && h.material == ch.material && h.t == ch.t
                    && h.front_face == ch.front_face && h.texture_coords == ch.texture_coords
            } else {
                res is None
            }
        },
    }
}

/// The ray moved into the displaced object's frame.
pub open spec fn moved_ray(r: Ray, offset: Vec3) -> Ray {
    Ray {
        origin: Point3(
            Vec3 {
                x: Fx((r.origin.0.x.0 - offset.x.0) as i128),
                y: Fx((r.origin.0.y.0 - offset.y.0) as i128),
                z: Fx((r.origin.0.z.0 - offset.z.0) as i128),
            },
        ),
        direction: r.direction,
        time: r.time,
    }
}

impl Translate {
    /// Wrap an object with a displacement.
    pub fn new(object: Hittable, offset: Vec3) -> (r: Translate)
        requires
            hittable_wf(object),
            vec_in(offset, GEO as int),
        ensures
            hittable_wf(Hittable::Translate(r)),
            *r.object == object,
            r.offset == offset,
    {
        proof {
            lemma_bbox_wf(object);
        }
        let bbox = shift_box(object.bounding_box(), offset);
        Translate { object: Box::new(object), offset, bbox }
    }

    /// Query through the displacement.
    pub fn hit<'a>(
        &'a self,
        r: &Ray,
        ray_bounds: &Interval,
        rng: &mut RandomSource,
    ) -> (res: Option<HitRecord<'a>>)
        requires
            hittable_wf(Hittable::Translate(*self)),
            ray_within(*r, PMAX as int, DMAX as int),
        ensures
            translate_hit_ok(*self, *r, *ray_bounds, res),
            res matches Some(h) ==> hr_wf(h),
        decreases *self,
    {
        let o = r.origin();
        let ox = o.0.x.0 - self.offset.x.0;
        let oy = o.0.y.0 - self.offset.y.0;
        let oz = o.0.z.0 - self.offset.z.0;
        let in_range = -PMAX <= ox && ox <= PMAX && -PMAX <= oy && oy <= PMAX && -PMAX <= oz && oz
            <= PMAX;
        if !in_range {
            return None;
        }
        let offset_ray = Ray::new(
            Point3(Vec3 { x: Fx(ox), y: Fx(oy), z: Fx(oz) }),
            *r.direction(),
            r.time(),
        );
        proof {
            assert(offset_ray == moved_ray(*r, self.offset));
        }
        let child = self.object.hit(&offset_ray, ray_bounds, rng);
        let result = match child {
            Option::None => None,
            Option::Some(ch) => {
                let px = ch.p.0.x.0 + self.offset.x.0;
                let py = ch.p.0.y.0 + self.offset.y.0;
                let pz = ch.p.0.z.0 + self.offset.z.0;
                let p_in = -PMAX <= px && px <= PMAX && -PMAX <= py && py <= PMAX && -PMAX <= pz
                    && pz <= PMAX;
                if p_in {
                    Some(
                        HitRecord {
                            p: Point3(Vec3 { x: Fx(px), y: Fx(py), z: Fx(pz) }),
                            ..ch
                        },
                    )
                } else {
                    None
                }
            },
        };
        proof {
            assert(crate::hittables::probed(child));
            assert(hit_ok(*self.object, moved_ray(*r, self.offset), *ray_bounds, child));
            assert(translate_witness(*self, *r, *ray_bounds, child, result));
        }
        result
    }
}

/// The object's box displaced by the offset, clamped back into the
/// storable range.
fn shift_box(b: &Aabb, offset: Vec3) -> (r: Aabb)
    requires
        aabb_wf(*b),
        aabb_in(*b, BBND as int),
        vec_in(offset, GEO as int),
    ensures
        aabb_wf(r),
        aabb_in(r, BBND as int),
{
    let shifted = Aabb {
        x: b.x.shift(offset.x),
        y: b.y.shift(offset.y),
        z: b.z.shift(offset.z),
    };
    proof {
        crate::math::aabb::lemma_wf_sane(b.x);
        crate::math::aabb::lemma_wf_sane(b.y);
        crate::math::aabb::lemma_wf_sane(b.z);
    }
    crate::math::aabb::clamp_box(&shifted, BBND - 46)
}

} // verus!
