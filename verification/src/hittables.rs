//! Intersectable scene objects and the records their hits produce.

use vstd::prelude::*;

pub mod bvh;
pub mod constant_medium;
pub mod hittable_list;
pub mod quad;
pub mod rotate;
pub mod sphere;
pub mod translate;

pub use bvh::BvhNode;
pub use constant_medium::ConstantMedium;
pub use hittable_list::HittableList;
pub use quad::Quad;
pub use rotate::Rotate;
pub use sphere::Sphere;
pub use translate::Translate;

verus! {

use crate::fx::{Fx, DMAX, PMAX, TLIM};
use crate::material::Material;
use crate::math::aabb::{aabb_in, aabb_wf, Aabb};
use crate::math::interval::Interval;
use crate::math::point3::{point_in, Point3};
use crate::math::ray::{ray_within, Ray};
use crate::math::vec3::{dot_raw, vec_in, Vec3, NMAX};
use crate::rng::RandomSource;
use crate::texture::{tc_wf, TextureCoords};

/// Largest raw magnitude a stored bounding-box endpoint may carry.
pub const BBND: i128 = 35184372088832;

/// The result of one intersection query: where the ray hit, the surface
/// normal turned against the ray, the material there, and local surface
/// coordinates.
#[derive(Clone, Copy)]
pub struct HitRecord<'a> {
    pub p: Point3,
    pub normal: Vec3,
    pub material: &'a Material,
    pub t: Fx,
    pub front_face: bool,
    pub texture_coords: TextureCoords,
}

/// Bounds every intersection routine guarantees of a record it returns.
pub open spec fn hr_wf<'a>(h: HitRecord<'a>) -> bool {
    &&& point_in(h.p, PMAX as int)
    &&& vec_in(h.normal, NMAX as int)
    &&& -TLIM <= h.t.0 <= TLIM
    &&& tc_wf(h.texture_coords)
    &&& crate::material::mat_wf(*h.material)
}

/// The record fields `HitRecord::new` derives: the stored normal is the
/// outward normal turned against the ray.
pub open spec fn hr_from<'a>(
    h: HitRecord<'a>,
    t: Fx,
    p: Point3,
    ray: Ray,
    outward: Vec3,
    m: Material,
    tc: TextureCoords,
) -> bool {
    &&& h.t == t
    &&& h.p == p
    &&& h.front_face == (dot_raw(ray.spec_direction(), outward) < 0)
    &&& if dot_raw(ray.spec_direction(), outward) < 0 {
        h.normal == outward
    } else {
        h.normal.x.0 == -outward.x.0 && h.normal.y.0 == -outward.y.0 && h.normal.z.0
            == -outward.z.0
    }
    &&& *h.material == m
    &&& h.texture_coords == tc
}

impl<'a> HitRecord<'a> {
    /// Build a record, orienting the outward normal against the ray.
    pub fn new(
        t: Fx,
        p: Point3,
        ray: &Ray,
        outward_normal: Vec3,
        material: &'a Material,
        texture_coords: TextureCoords,
    ) -> (r: HitRecord<'a>)
        requires
            vec_in(outward_normal, NMAX as int),
            vec_in(ray.spec_direction(), DMAX as int),
        ensures
            hr_from(r, t, p, *ray, outward_normal, *material, texture_coords),
    {
        let d = crate::math::vec3::dot(ray.direction(), &outward_normal);
        let front_face = d.0 < 0;
        HitRecord {
            p,
            normal: if front_face {
                outward_normal
            } else {
                outward_normal.neg()
            },
            t,
            front_face,
            material,
            texture_coords,
        }
    }

    /// The same record displaced by `offset`.
    pub fn offset(self, offset: Vec3) -> (r: HitRecord<'a>)
        requires
            point_in(self.p, PMAX as int),
            vec_in(offset, PMAX as int),
        ensures
            crate::math::vec3::is_vadd(r.p.0, self.p.0, offset),
            r.normal == self.normal,
            r.material == self.material,
            r.t == self.t,
            r.front_face == self.front_face,
            r.texture_coords == self.texture_coords,
    {
        HitRecord { p: self.p.add_vec(offset), ..self }
    }
}

/// A scene object: a primitive shape, a collection, a tree node, an
/// instance transform, or a participating medium.
pub enum Hittable {
    Sphere(Sphere),
    List(HittableList),
    BvhNode(BvhNode),
    Quad(Quad),
    Translate(Translate),
    Rotate(Rotate),
    ConstantMedium(ConstantMedium),
}

/// Structural soundness of a scene object, down through its children.
pub open spec fn hittable_wf(h: Hittable) -> bool
    decreases h,
{
    match h {
        Hittable::Sphere(s) => crate::hittables::sphere::sphere_wf(s),
        Hittable::List(l) => {
            &&& aabb_wf(l.bbox) && aabb_in(l.bbox, BBND as int)
            &&& forall|i: int|
                0 <= i < l.objects@.len() ==> hittable_wf(#[trigger] l.objects@[i])
        },
        Hittable::BvhNode(b) => {
            &&& aabb_wf(b.bbox) && aabb_in(b.bbox, BBND as int)
            &&& hittable_wf(*b.left)
            &&& hittable_wf(*b.right)
        },
        Hittable::Quad(q) => crate::hittables::quad::quad_wf(q),
        Hittable::Translate(t) => {
            &&& aabb_wf(t.bbox) && aabb_in(t.bbox, BBND as int)
            &&& vec_in(t.offset, crate::hittables::GEO as int)
            &&& hittable_wf(*t.object)
        },
        Hittable::Rotate(ro) => {
            &&& aabb_wf(ro.bbox) && aabb_in(ro.bbox, BBND as int)
            &&& crate::math::matrix3::mat_in(ro.to_object_space, 2 * crate::fx::SCALE)
            &&& crate::math::matrix3::mat_in(ro.to_world_space, 2 * crate::fx::SCALE)
            &&& hittable_wf(*ro.object)
        },
        Hittable::ConstantMedium(c) => {
            &&& 1 <= c.density.0 <= crate::fx::DIVIN
            &&& crate::material::mat_wf(c.phase_function)
            &&& hittable_wf(*c.boundary)
        },
    }
}

/// Largest raw magnitude accepted for scene-construction coordinates.
pub const GEO: i128 = 1073741824;

/// The stored bounding box of a scene object.
pub open spec fn spec_bbox(h: Hittable) -> Aabb
    decreases h,
{
    match h {
        Hittable::Sphere(s) => s.bbox,
        Hittable::List(l) => l.bbox,
        Hittable::BvhNode(b) => b.bbox,
        Hittable::Quad(q) => q.bbox,
        Hittable::Translate(t) => t.bbox,
        Hittable::Rotate(ro) => ro.bbox,
        Hittable::ConstantMedium(c) => spec_bbox(*c.boundary),
    }
}

/// A sound object's stored box is sound and bounded, down through any
/// medium wrappers.
pub proof fn lemma_bbox_wf(h: Hittable)
    requires
        hittable_wf(h),
    ensures
        aabb_wf(spec_bbox(h)),
        aabb_in(spec_bbox(h), BBND as int),
    decreases h,
{
    match h {
        Hittable::ConstantMedium(c) => lemma_bbox_wf(*c.boundary),
        _ => {},
    }
}

/// A marker naming one considered outcome of a query; used to steer the
/// quantifiers in the contracts below.
pub open spec fn probed<'a>(res: Option<HitRecord<'a>>) -> bool {
    true
}

/// What an intersection query may return, by variant.  Deterministic
/// shapes pin the record exactly; objects that draw randomness or hold
/// children state what must relate the result to theirs.
pub open spec fn hit_ok<'a>(
    h: Hittable,
    r: Ray,
    ray_t: Interval,
    res: Option<HitRecord<'a>>,
) -> bool
    decreases h, 0int,
{
    match h {
        Hittable::Sphere(s) => crate::hittables::sphere::sphere_hit_ok(s, r, ray_t, res),
        Hittable::Quad(q) => crate::hittables::quad::quad_hit_ok(q, r, ray_t, res),
        Hittable::List(l) => exists|rs: Seq<Option<HitRecord<'a>>>|
            {
                &&& rs.len() == l.objects@.len()
                &&& forall|i: int|
                    0 <= i < rs.len() ==> hit_ok(l.objects@[i], r, ray_t, #[trigger] rs[i])
                &&& res == crate::hittables::hittable_list::fold_nearest(rs, rs.len() as int)
            },
        Hittable::BvhNode(b) => {
            if !crate::math::aabb::spec_aabb_hit(b.bbox, r, ray_t) {
                res is None
            } else {
                exists|lres: Option<HitRecord<'a>>, rres: Option<HitRecord<'a>>|
                    #![trigger probed(lres), probed(rres)]
                    {
                        &&& hit_ok(*b.left, r, ray_t, lres)
                        &&& hit_ok(
                            *b.right,
                            r,
                            crate::hittables::bvh::restricted(ray_t, lres),
                            rres,
                        )
                        &&& res == (if rres is Some {
                            rres
                        } else {
                            lres
                        })
                    }
            }
        },
        Hittable::Translate(t) => crate::hittables::translate::translate_hit_ok(t, r, ray_t, res),
        Hittable::Rotate(ro) => crate::hittables::rotate::rotate_hit_ok(ro, r, ray_t, res),
        Hittable::ConstantMedium(c) => crate::hittables::constant_medium::medium_hit_ok(
            c,
            r,
            ray_t,
            res,
        ),
    }
}

impl Hittable {
    /// Where the ray first strikes this object within the parameter
    /// window, if anywhere.
    pub fn hit<'a>(
        &'a self,
        r: &Ray,
        ray_bounds: &Interval,
        rng: &mut RandomSource,
    ) -> (res: Option<HitRecord<'a>>)
        requires
            hittable_wf(*self),
            ray_within(*r, PMAX as int, DMAX as int),
        ensures
            hit_ok(*self, *r, *ray_bounds, res),
            res matches Some(h) ==> hr_wf(h),
        decreases *self,
    {
        match self {
            Hittable::Sphere(s) => s.hit(r, ray_bounds),
            Hittable::Quad(q) => q.hit(r, ray_bounds),
            Hittable::List(l) => l.hit(r, ray_bounds, rng),
            Hittable::BvhNode(b) => b.hit(r, ray_bounds, rng),
            Hittable::Translate(t) => t.hit(r, ray_bounds, rng),
            Hittable::Rotate(ro) => ro.hit(r, ray_bounds, rng),
            Hittable::ConstantMedium(c) => c.hit(r, ray_bounds, rng),
        }
    }

    /// The stored bounding box.
    pub fn bounding_box(&self) -> (b: &Aabb)
        ensures
            *b == spec_bbox(*self),
        decreases *self,
    {
        match self {
            Hittable::Sphere(s) => &s.bbox,
            Hittable::Quad(q) => &q.bbox,
            Hittable::List(l) => &l.bbox,
            Hittable::BvhNode(b) => &b.bbox,
            Hittable::Translate(t) => &t.bbox,
            Hittable::Rotate(ro) => &ro.bbox,
            Hittable::ConstantMedium(c) => c.boundary.bounding_box(),
        }
    }

    /// This object displaced by `offset`.
    pub fn translate(self, offset: Vec3) -> (res: Hittable)
        requires
            hittable_wf(self),
            vec_in(offset, GEO as int),
        ensures
            hittable_wf(res),
    {
        Hittable::Translate(Translate::new(self, offset))
    }

    /// This object rotated about `axis` by the angle with the given sine
    /// and cosine.
    pub fn rotate_about(self, sin_t: Fx, cos_t: Fx, axis: crate::math::Axis) -> (res: Hittable)
        requires
            hittable_wf(self),
            -crate::fx::SCALE <= sin_t.0 <= crate::fx::SCALE,
            -crate::fx::SCALE <= cos_t.0 <= crate::fx::SCALE,
        ensures
            hittable_wf(res),
    {
        Hittable::Rotate(Rotate::new(self, sin_t, cos_t, axis))
    }

    /// This object rotated about the x axis.
    pub fn rotate_x(self, sin_t: Fx, cos_t: Fx) -> (res: Hittable)
        requires
            hittable_wf(self),
            -crate::fx::SCALE <= sin_t.0 <= crate::fx::SCALE,
            -crate::fx::SCALE <= cos_t.0 <= crate::fx::SCALE,
        ensures
            hittable_wf(res),
    {
        self.rotate_about(sin_t, cos_t, crate::math::Axis::X)
    }

    /// This object rotated about the y axis.
    pub fn rotate_y(self, sin_t: Fx, cos_t: Fx) -> (res: Hittable)
        requires
            hittable_wf(self),
            -crate::fx::SCALE <= sin_t.0 <= crate::fx::SCALE,
            -crate::fx::SCALE <= cos_t.0 <= crate::fx::SCALE,
        ensures
            hittable_wf(res),
    {
        self.rotate_about(sin_t, cos_t, crate::math::Axis::Y)
    }

    /// This object rotated about the z axis.
    pub fn rotate_z(self, sin_t: Fx, cos_t: Fx) -> (res: Hittable)
        requires
            hittable_wf(self),
            -crate::fx::SCALE <= sin_t.0 <= crate::fx::SCALE,
            -crate::fx::SCALE <= cos_t.0 <= crate::fx::SCALE,
        ensures
            hittable_wf(res),
    {
        self.rotate_about(sin_t, cos_t, crate::math::Axis::Z)
    }
}

} // verus!
