//! An instance wrapper that rotates an object about a coordinate axis.

use vstd::prelude::*;

verus! {

use crate::fx::{Fx, DMAX, PMAX, SCALE, TLIM};
use crate::hittables::{hit_ok, hittable_wf, hr_wf, lemma_bbox_wf, spec_bbox, HitRecord, Hittable, BBND};
use crate::math::aabb::{aabb_in, aabb_wf, Aabb};
use crate::math::interval::{ExtFx, Interval};
use crate::math::matrix3::{mat_apply, mat_in, Matrix3};
use crate::math::point3::{point_in, Point3};
use crate::math::ray::{ray_within, Ray};
use crate::math::vec3::{vec_in, Vec3, NMAX};
use crate::math::Axis;
use crate::rng::RandomSource;

/// An object rotated about an axis; both rotation directions are cached.
pub struct Rotate {
    pub object: Box<Hittable>,
    pub to_object_space: Matrix3,
    pub to_world_space: Matrix3,
    pub bbox: Aabb,
}

/// What a rotated query may return: the child queried along the rotated
/// ray, the hit point and normal rotated back.  A value that leaves its
/// representable range along the way is dropped.
pub open spec fn rotate_hit_ok<'a>(
    ro: Rotate,
    r: Ray,
    ray_t: Interval,
    res: Option<HitRecord<'a>>,
) -> bool
    decreases *ro.object, 1int,
{
    let rr = Ray {
        origin: Point3(mat_apply(ro.to_object_space, r.spec_origin().0)),
        direction: mat_apply(ro.to_object_space, r.spec_direction()),
        time: r.spec_time(),
    };
    if !(point_in(rr.origin, PMAX as int) && vec_in(rr.direction, DMAX as int)) {
        res is None
    } else {
        exists|cres: Option<HitRecord<'a>>|
            {
                &&& #[trigger] crate::hittables::probed(cres)
                &&& hit_ok(*ro.object, rr, ray_t, cres)
                &&& match cres {
                    Option::None => res is None,
                    Option::Some(ch) => {
                        let wp = mat_apply(ro.to_world_space, ch.p.0);
                        let wn = mat_apply(ro.to_world_space, ch.normal);
                        if point_in(Point3(wp), PMAX as int) && vec_in(wn, NMAX as int) {
                            res matches Some(h) && h.p == Point3(wp) && h.normal == wn
                                && h.material == ch.material && h.t == ch.t && h.front_face
                                == ch.front_face && h.texture_coords == ch.texture_coords
                        } else {
                            res is None
                        }
                    },
                }
            }
    }
}

impl Rotate {
    /// Wrap an object with a rotation given by the angle's sine and
    /// cosine about the axis.
    pub fn new(object: Hittable, sin_t: Fx, cos_t: Fx, axis: Axis) -> (r: Rotate)
        requires
            hittable_wf(object),
            -SCALE <= sin_t.0 <= SCALE,
            -SCALE <= cos_t.0 <= SCALE,
        ensures
            hittable_wf(Hittable::Rotate(r)),
            *r.object == object,
            r.to_object_space == crate::math::matrix3::spec_rotate(
                Fx((-sin_t.0) as i128),
                cos_t,
                axis,
            ),
            r.to_world_space == crate::math::matrix3::spec_rotate(sin_t, cos_t, axis),
            r.bbox == spec_rotated_box(
                spec_bbox(object),
                crate::math::matrix3::spec_rotate(sin_t, cos_t, axis),
            ),
    {
        let msin = Fx(-sin_t.0);
        let to_object_space = Matrix3::rotate(msin, cos_t, axis);
        let to_world_space = Matrix3::rotate(sin_t, cos_t, axis);
        proof {
            lemma_bbox_wf(object);
        }
        let bbox = rotated_box(object.bounding_box(), &to_world_space);
        Rotate { object: Box::new(object), to_object_space, to_world_space, bbox }
    }

    /// Query through the rotation.
    pub fn hit<'a>(
        &'a self,
        r: &Ray,
        ray_bounds: &Interval,
        rng: &mut RandomSource,
    ) -> (res: Option<HitRecord<'a>>)
        requires
            hittable_wf(Hittable::Rotate(*self)),
            ray_within(*r, PMAX as int, DMAX as int),
        ensures
            rotate_hit_ok(*self, *r, *ray_bounds, res),
            res matches Some(h) ==> hr_wf(h),
        decreases *self,
    {
        proof {
            crate::math::vec3::lemma_dot_mag(
                self.to_object_space.r0,
                r.spec_origin().0,
                2 * SCALE as int,
                PMAX as int,
            );
        }
        let ro_origin = self.to_object_space.mul_point3(*r.origin());
        let ro_dir = self.to_object_space.mul_vec3(*r.direction());
        let rotated_ray = Ray::new(ro_origin, ro_dir, r.time());
        let o_in = -PMAX <= ro_origin.0.x.0 && ro_origin.0.x.0 <= PMAX && -PMAX <= ro_origin.0.y.0
            && ro_origin.0.y.0 <= PMAX && -PMAX <= ro_origin.0.z.0 && ro_origin.0.z.0 <= PMAX;
        let d_in = -DMAX <= ro_dir.x.0 && ro_dir.x.0 <= DMAX && -DMAX <= ro_dir.y.0 && ro_dir.y.0
            <= DMAX && -DMAX <= ro_dir.z.0 && ro_dir.z.0 <= DMAX;
        if !(o_in && d_in) {
            return None;
        }
        let child = self.object.hit(&rotated_ray, ray_bounds, rng);
        proof {
            assert(crate::hittables::probed(child));
        }
        match child {
            Option::None => None,
            Option::Some(ch) => {
                let wp = self.to_world_space.mul_vec3(ch.p.0);
                let wn = self.to_world_space.mul_vec3(ch.normal);
                let p_in = -PMAX <= wp.x.0 && wp.x.0 <= PMAX && -PMAX <= wp.y.0 && wp.y.0 <= PMAX
                    && -PMAX <= wp.z.0 && wp.z.0 <= PMAX;
                let n_in = -NMAX <= wn.x.0 && wn.x.0 <= NMAX && -NMAX <= wn.y.0 && wn.y.0 <= NMAX
                    && -NMAX <= wn.z.0 && wn.z.0 <= NMAX;
                if p_in && n_in {
                    Some(HitRecord { p: Point3(wp), normal: wn, ..ch })
                } else {
                    None
                }
            },
        }
    }
}

/// The smaller scalar.
pub open spec fn fx_min(a: Fx, b: Fx) -> Fx {
    if a.0 <= b.0 {
        a
    } else {
        b
    }
}

/// The larger scalar.
pub open spec fn fx_max(a: Fx, b: Fx) -> Fx {
    if a.0 >= b.0 {
        a
    } else {
        b
    }
}

/// The least and the greatest of eight scalars.
pub open spec fn spec_extremes8(
    a: Fx,
    b: Fx,
    c: Fx,
    d: Fx,
    e: Fx,
    f: Fx,
    g: Fx,
    h: Fx,
) -> (Fx, Fx) {
    (
        fx_min(fx_min(fx_min(fx_min(fx_min(fx_min(fx_min(a, b), c), d), e), f), g), h),
        fx_max(fx_max(fx_max(fx_max(fx_max(fx_max(fx_max(a, b), c), d), e), f), g), h),
    )
}

/// The least and the greatest of eight scalars.
fn extremes8(a: Fx, b: Fx, c: Fx, d: Fx, e: Fx, f: Fx, g: Fx, h: Fx) -> (r: (Fx, Fx))
    ensures
        r == spec_extremes8(a, b, c, d, e, f, g, h),
{
    let lo = a.min(b).min(c).min(d).min(e).min(f).min(g).min(h);
    let hi = a.max(b).max(c).max(d).max(e).max(f).max(g).max(h);
    (lo, hi)
}

/// The unclamped box over the eight rotated corners of a finite box, as
/// a value: componentwise extremes of the corners' images.
#[verifier::opaque]
pub open spec fn spec_corner_extremes(
    x0: Fx,
    x1: Fx,
    y0: Fx,
    y1: Fx,
    z0: Fx,
    z1: Fx,
    m: Matrix3,
) -> Aabb {
    let p1 = mat_apply(m, Vec3 { x: x0, y: y0, z: z0 });
    let p2 = mat_apply(m, Vec3 { x: x0, y: y0, z: z1 });
    let p3 = mat_apply(m, Vec3 { x: x0, y: y1, z: z0 });
    let p4 = mat_apply(m, Vec3 { x: x0, y: y1, z: z1 });
    let p5 = mat_apply(m, Vec3 { x: x1, y: y0, z: z0 });
    let p6 = mat_apply(m, Vec3 { x: x1, y: y0, z: z1 });
    let p7 = mat_apply(m, Vec3 { x: x1, y: y1, z: z0 });
    let p8 = mat_apply(m, Vec3 { x: x1, y: y1, z: z1 });
    let ex = spec_extremes8(p1.x, p2.x, p3.x, p4.x, p5.x, p6.x, p7.x, p8.x);
    let ey = spec_extremes8(p1.y, p2.y, p3.y, p4.y, p5.y, p6.y, p7.y, p8.y);
    let ez = spec_extremes8(p1.z, p2.z, p3.z, p4.z, p5.z, p6.z, p7.z, p8.z);
    Aabb {
        x: Interval { min: ExtFx::Fin(ex.0), max: ExtFx::Fin(ex.1) },
        y: Interval { min: ExtFx::Fin(ey.0), max: ExtFx::Fin(ey.1) },
        z: Interval { min: ExtFx::Fin(ez.0), max: ExtFx::Fin(ez.1) },
    }
}

/// The rotated box, as a value: the child's box clamped to the rotation
/// range; if all its ends are finite, the componentwise extremes of its
/// eight rotated corners, clamped and padded back to the storable range.
#[verifier::opaque]
pub open spec fn spec_rotated_box(b: Aabb, m: Matrix3) -> Aabb {
    let cb = crate::math::aabb::spec_clamp_box(b, 1099511627730);
    match (cb.x.min, cb.x.max, cb.y.min, cb.y.max, cb.z.min, cb.z.max) {
        (
            ExtFx::Fin(x0),
            ExtFx::Fin(x1),
            ExtFx::Fin(y0),
            ExtFx::Fin(y1),
            ExtFx::Fin(z0),
            ExtFx::Fin(z1),
        ) => crate::math::aabb::spec_clamp_box(
            spec_corner_extremes(x0, x1, y0, y1, z0, z1, m),
            (BBND - 46) as int,
        ),
        _ => crate::math::aabb::spec_clamp_box(cb, (BBND - 46) as int),
    }
}

/// The componentwise extremes of the eight rotated corners.
#[verifier::rlimit(100)]
fn corner_extremes(x0: Fx, x1: Fx, y0: Fx, y1: Fx, z0: Fx, z1: Fx, m: &Matrix3) -> (acc: Aabb)
    requires
        mat_in(*m, 2 * SCALE),
        -TLIM <= x0.0 <= TLIM,
        -TLIM <= x1.0 <= TLIM,
        -TLIM <= y0.0 <= TLIM,
        -TLIM <= y1.0 <= TLIM,
        -TLIM <= z0.0 <= TLIM,
        -TLIM <= z1.0 <= TLIM,
    ensures
        acc == spec_corner_extremes(x0, x1, y0, y1, z0, z1, *m),
        crate::math::aabb::interval_sane(acc.x),
        crate::math::aabb::interval_sane(acc.y),
        crate::math::aabb::interval_sane(acc.z),
{
    proof {
        reveal(spec_corner_extremes);
    }
    let p1 = m.mul_point3(Point3(Vec3 { x: x0, y: y0, z: z0 }));
    let p2 = m.mul_point3(Point3(Vec3 { x: x0, y: y0, z: z1 }));
    let p3 = m.mul_point3(Point3(Vec3 { x: x0, y: y1, z: z0 }));
    let p4 = m.mul_point3(Point3(Vec3 { x: x0, y: y1, z: z1 }));
    let p5 = m.mul_point3(Point3(Vec3 { x: x1, y: y0, z: z0 }));
    let p6 = m.mul_point3(Point3(Vec3 { x: x1, y: y0, z: z1 }));
    let p7 = m.mul_point3(Point3(Vec3 { x: x1, y: y1, z: z0 }));
    let p8 = m.mul_point3(Point3(Vec3 { x: x1, y: y1, z: z1 }));
    let ex = extremes8(p1.0.x, p2.0.x, p3.0.x, p4.0.x, p5.0.x, p6.0.x, p7.0.x, p8.0.x);
    let ey = extremes8(p1.0.y, p2.0.y, p3.0.y, p4.0.y, p5.0.y, p6.0.y, p7.0.y, p8.0.y);
    let ez = extremes8(p1.0.z, p2.0.z, p3.0.z, p4.0.z, p5.0.z, p6.0.z, p7.0.z, p8.0.z);
    Aabb {
        x: Interval { min: ExtFx::Fin(ex.0), max: ExtFx::Fin(ex.1) },
        y: Interval { min: ExtFx::Fin(ey.0), max: ExtFx::Fin(ey.1) },
        z: Interval { min: ExtFx::Fin(ez.0), max: ExtFx::Fin(ez.1) },
    }
}

/// The rotated object's box: the rotated corners of the child's box,
/// gathered and clamped back into the storable range.  An unbounded axis
/// keeps the whole line.
fn rotated_box(b: &Aabb, m: &Matrix3) -> (r: Aabb)
    requires
        aabb_wf(*b),
        aabb_in(*b, BBND as int),
        mat_in(*m, 2 * SCALE),
    ensures
        aabb_wf(r),
        aabb_in(r, BBND as int),
        r == spec_rotated_box(*b, *m),
{
    proof {
        reveal(spec_rotated_box);
        crate::math::aabb::lemma_wf_sane(b.x);
        crate::math::aabb::lemma_wf_sane(b.y);
        crate::math::aabb::lemma_wf_sane(b.z);
    }
    let cb = crate::math::aabb::clamp_box(b, 1099511627730);
    match (cb.x.min, cb.x.max, cb.y.min, cb.y.max, cb.z.min, cb.z.max) {
        (
            ExtFx::Fin(x0),
            ExtFx::Fin(x1),
            ExtFx::Fin(y0),
            ExtFx::Fin(y1),
            ExtFx::Fin(z0),
            ExtFx::Fin(z1),
        ) => {
            let acc = corner_extremes(x0, x1, y0, y1, z0, z1, m);
            crate::math::aabb::clamp_box(&acc, BBND - 46)
        },
        _ => {
            proof {
                crate::math::aabb::lemma_wf_sane(cb.x);
                crate::math::aabb::lemma_wf_sane(cb.y);
                crate::math::aabb::lemma_wf_sane(cb.z);
            }
            crate::math::aabb::clamp_box(&cb, BBND - 46)
        },
    }
}

} // verus!
