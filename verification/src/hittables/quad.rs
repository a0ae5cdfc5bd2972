//! Planar quadrilaterals, and boxes built from six of them.

use vstd::prelude::*;

verus! {

use crate::fx::{fxdiv, fxmul, Fx, DMAX, PMAX, SCALE, TLIM};
use crate::hittables::{hr_from, hr_wf, HitRecord, Hittable, GEO};
use crate::material::{mat_wf, Material};
use crate::math::aabb::{aabb_in, aabb_wf, Aabb};
use crate::math::interval::Interval;
use crate::math::point3::{point_in, Point3};
use crate::math::ray::{ray_within, Ray};
use crate::math::vec3::{cross, dot, dot_raw, is_cross, is_normalized, vec_in, Vec3, NMAX};
use crate::texture::TextureCoords;

/// A parallelogram: a corner point and the two edge vectors from it.
pub struct Quad {
    pub q: Point3,
    pub u: Vec3,
    pub v: Vec3,
    pub w: Vec3,
    pub material: Material,
    pub bbox: Aabb,
    pub normal: Vec3,
    pub d: Fx,
}

/// Structural soundness of a quad: the cached plane data comes from the
/// corner and edges.
pub open spec fn quad_wf(qd: Quad) -> bool {
    &&& point_in(qd.q, GEO as int)
    &&& vec_in(qd.u, GEO as int)
    &&& vec_in(qd.v, GEO as int)
    &&& vec_in(qd.normal, NMAX as int)
    &&& vec_in(qd.w, 4611686018427387904)
    &&& -4611686018427387904 <= qd.d.0 <= 4611686018427387904
    &&& mat_wf(qd.material)
    &&& aabb_wf(qd.bbox) && aabb_in(qd.bbox, crate::hittables::BBND as int)
}

/// Both planar coordinates lie within the unit square.
pub open spec fn is_interior(alpha: int, beta: int) -> bool {
    0 <= alpha <= SCALE && 0 <= beta <= SCALE
}

/// The exact contract of a quad intersection.  The plane root must fall
/// strictly inside the query window, like every primitive's root, so a
/// root exactly on the window's lower end is a miss.
pub open spec fn quad_hit_ok<'a>(
    qd: Quad,
    r: Ray,
    ray_t: Interval,
    res: Option<HitRecord<'a>>,
) -> bool {
    let denom = dot_raw(qd.normal, r.spec_direction());
    if denom == 0 {
        res is None
    } else {
        let t = fxdiv(qd.d.0 - dot_raw(qd.normal, r.spec_origin().0), denom);
        if !(ray_t.spec_surrounds(t) && -TLIM <= t <= TLIM) {
            res is None
        } else {
            let px = r.spec_origin().0.x.0 + fxmul(t, r.spec_direction().x.0 as int);
            let py = r.spec_origin().0.y.0 + fxmul(t, r.spec_direction().y.0 as int);
            let pz = r.spec_origin().0.z.0 + fxmul(t, r.spec_direction().z.0 as int);
            let p = Point3(Vec3 { x: Fx(px as i128), y: Fx(py as i128), z: Fx(pz as i128) });
            if !point_in(p, PMAX as int) {
                res is None
            } else {
                let php = Vec3 {
                    x: Fx((px - qd.q.0.x.0) as i128),
                    y: Fx((py - qd.q.0.y.0) as i128),
                    z: Fx((pz - qd.q.0.z.0) as i128),
                };
                let alpha = dot_raw(qd.w, spec_cross_val(php, qd.v));
                let beta = dot_raw(qd.w, spec_cross_val(qd.u, php));
                if is_interior(alpha, beta) {
                    res matches Some(hr) && hr_from(
                        hr,
                        Fx(t as i128),
                        p,
                        r,
                        qd.normal,
                        qd.material,
                        TextureCoords { u: Fx(alpha as i128), v: Fx(beta as i128) },
                    )
                } else {
                    res is None
                }
            }
        }
    }
}

/// The cached plane basis: the raw cross product divided by its own
/// squared length, or zero for a degenerate parallelogram.
pub open spec fn spec_quad_w(n: Vec3) -> Vec3 {
    let nn = crate::math::vec3::len_sq_raw(n);
    if nn == 0 {
        Vec3 { x: Fx(0), y: Fx(0), z: Fx(0) }
    } else {
        Vec3 {
            x: Fx(fxdiv(n.x.0 as int, nn) as i128),
            y: Fx(fxdiv(n.y.0 as int, nn) as i128),
            z: Fx(fxdiv(n.z.0 as int, nn) as i128),
        }
    }
}

/// The cross product of two vectors, as a value.
pub open spec fn spec_cross_val(a: Vec3, b: Vec3) -> Vec3 {
    Vec3 {
        x: Fx((fxmul(a.y.0 as int, b.z.0 as int) - fxmul(a.z.0 as int, b.y.0 as int)) as i128),
        y: Fx((fxmul(a.z.0 as int, b.x.0 as int) - fxmul(a.x.0 as int, b.z.0 as int)) as i128),
        z: Fx((fxmul(a.x.0 as int, b.y.0 as int) - fxmul(a.y.0 as int, b.x.0 as int)) as i128),
    }
}

impl Quad {
    /// A quad from a corner and two edges; the plane data is cached.
    #[verifier::rlimit(80)]
    pub fn new(q: Point3, u: Vec3, v: Vec3, material: Material) -> (r: Quad)
        requires
            point_in(q, GEO as int),
            vec_in(u, GEO as int),
            vec_in(v, GEO as int),
            mat_wf(material),
        ensures
            quad_wf(r),
            r.q == q,
            r.u == u,
            r.v == v,
            r.material == material,
            r.normal == crate::math::vec3::normalized_vv(spec_cross_val(u, v)),
            r.d.0 == dot_raw(r.normal, q.0),
            r.w == spec_quad_w(spec_cross_val(u, v)),
            r.bbox == crate::math::aabb::spec_merge_box(
                crate::math::aabb::spec_corner_box(
                    q,
                    crate::math::point3::spec_padd(crate::math::point3::spec_padd(q, u), v),
                ),
                crate::math::aabb::spec_corner_box(
                    crate::math::point3::spec_padd(q, u),
                    crate::math::point3::spec_padd(q, v),
                ),
            ),
    {
        let qu = q.add_vec(u);
        let qv = q.add_vec(v);
        let quv = qu.add_vec(v);
        let bbox_diagonal1 = Aabb::from_points(q, quv);
        let bbox_diagonal2 = Aabb::from_points(qu, qv);
        let bbox = Aabb::merge(&bbox_diagonal1, &bbox_diagonal2);
        proof {
            crate::math::aabb::lemma_from_points_wf(q, quv, 3 * GEO as int);
            crate::math::aabb::lemma_from_points_wf(qu, qv, 3 * GEO as int);
            crate::math::aabb::lemma_merge_keeps_wf(
                bbox_diagonal1,
                bbox_diagonal2,
                3 * GEO as int + 46,
            );
        }
        proof {
            crate::fx::lemma_fxmul_mag(u.y.0 as int, v.z.0 as int, 1073741824, 1073741824);
            crate::fx::lemma_fxmul_mag(u.z.0 as int, v.y.0 as int, 1073741824, 1073741824);
            crate::fx::lemma_fxmul_mag(u.z.0 as int, v.x.0 as int, 1073741824, 1073741824);
            crate::fx::lemma_fxmul_mag(u.x.0 as int, v.z.0 as int, 1073741824, 1073741824);
            crate::fx::lemma_fxmul_mag(u.x.0 as int, v.y.0 as int, 1073741824, 1073741824);
            crate::fx::lemma_fxmul_mag(u.y.0 as int, v.x.0 as int, 1073741824, 1073741824);
        }
        let n = cross(&u, &v);
        let normal = n.normalized();
        let d = dot(&normal, q.as_vec3());
        let nn = dot(&n, &n);
        proof {
            crate::math::vec3::lemma_dot_mag(normal, q.0, 1843200, 1073741824);
            crate::math::vec3::lemma_dot_mag(n, n, 2501999792982, 2501999792982);
            crate::math::vec3::lemma_dot_self_nonneg(n);
        }
        let w = if nn.0 == 0 {
            Vec3::zero()
        } else {
            proof {
                crate::fx::lemma_tdiv_abs_le(n.x.0 * SCALE, nn.0 as int);
                crate::fx::lemma_tdiv_abs_le(n.y.0 * SCALE, nn.0 as int);
                crate::fx::lemma_tdiv_abs_le(n.z.0 * SCALE, nn.0 as int);
            }
            Vec3 { x: n.x.div(nn), y: n.y.div(nn), z: n.z.div(nn) }
        };
        Quad { q, u, v, w, material, bbox, normal, d }
    }

    /// Where the ray strikes the quad's interior within the window.
    pub fn hit<'a>(&'a self, r: &Ray, ray_bounds: &Interval) -> (res: Option<HitRecord<'a>>)
        requires
            quad_wf(*self),
            ray_within(*r, PMAX as int, DMAX as int),
        ensures
            quad_hit_ok(*self, *r, *ray_bounds, res),
            res matches Some(h) ==> hr_wf(h),
    {
        let denominator = dot(&self.normal, r.direction());
        if denominator.0 == 0 {
            return None;
        }
        proof {
            crate::math::vec3::lemma_dot_mag(self.normal, r.spec_origin().0, 1843200, PMAX as int);
        }
        let t = self.d.sub(dot(&self.normal, r.origin().as_vec3())).div(denominator);
        if !(ray_bounds.surrounds(t) && -TLIM <= t.0 && t.0 <= TLIM) {
            return None;
        }
        let intersection = r.at(t);
        let p_in = -PMAX <= intersection.0.x.0 && intersection.0.x.0 <= PMAX && -PMAX
            <= intersection.0.y.0 && intersection.0.y.0 <= PMAX && -PMAX <= intersection.0.z.0
            && intersection.0.z.0 <= PMAX;
        if !p_in {
            return None;
        }
        let planar_hit_point_vector = intersection.sub(self.q);
        proof {
            lemma_planar_bounds(*self, planar_hit_point_vector);
        }
        let c1 = cross(&planar_hit_point_vector, &self.v);
        let c2 = cross(&self.u, &planar_hit_point_vector);
        let alpha = dot(&self.w, &c1);
        let beta = dot(&self.w, &c2);
        if 0 <= alpha.0 && alpha.0 <= SCALE && 0 <= beta.0 && beta.0 <= SCALE {
            Some(
                HitRecord::new(
                    t,
                    intersection,
                    r,
                    self.normal,
                    &self.material,
                    TextureCoords { u: alpha, v: beta },
                ),
            )
        } else {
            None
        }
    }
}

/// The in-plane vector and the cached cross products stay within the dot
/// product's range.
proof fn lemma_planar_bounds(qd: Quad, php: Vec3)
    requires
        quad_wf(qd),
        vec_in(php, 2 * PMAX as int),
    ensures
        vec_in(spec_cross_val(php, qd.v), 160159998486904832),
        vec_in(spec_cross_val(qd.u, php), 160159998486904832),
{
    crate::fx::lemma_fxmul_mag(php.y.0 as int, qd.v.z.0 as int, 68719476736, 1073741824);
    crate::fx::lemma_fxmul_mag(php.z.0 as int, qd.v.y.0 as int, 68719476736, 1073741824);
    crate::fx::lemma_fxmul_mag(php.z.0 as int, qd.v.x.0 as int, 68719476736, 1073741824);
    crate::fx::lemma_fxmul_mag(php.x.0 as int, qd.v.z.0 as int, 68719476736, 1073741824);
    crate::fx::lemma_fxmul_mag(php.x.0 as int, qd.v.y.0 as int, 68719476736, 1073741824);
    crate::fx::lemma_fxmul_mag(php.y.0 as int, qd.v.x.0 as int, 68719476736, 1073741824);
    crate::fx::lemma_fxmul_mag(qd.u.y.0 as int, php.z.0 as int, 1073741824, 68719476736);
    crate::fx::lemma_fxmul_mag(qd.u.z.0 as int, php.y.0 as int, 1073741824, 68719476736);
    crate::fx::lemma_fxmul_mag(qd.u.z.0 as int, php.x.0 as int, 1073741824, 68719476736);
    crate::fx::lemma_fxmul_mag(qd.u.x.0 as int, php.z.0 as int, 1073741824, 68719476736);
    crate::fx::lemma_fxmul_mag(qd.u.x.0 as int, php.y.0 as int, 1073741824, 68719476736);
    crate::fx::lemma_fxmul_mag(qd.u.y.0 as int, php.x.0 as int, 1073741824, 68719476736);
}

/// One stored face of a box: a quad with the given corner, edges and a
/// material equal in contents to the box's.
pub open spec fn face_ok(h: Hittable, q: Point3, u: Vec3, v: Vec3, m: Material) -> bool {
    h matches Hittable::Quad(qd) && qd.q == q && qd.u == u && qd.v == v
        && crate::material::mat_equiv(qd.material, m)
}

/// The six faces of the prism between two opposite corners: front, right,
/// back, left, top, bottom, each edge pair winding its normal outward.
pub open spec fn make_box_ok(r: Hittable, a: Point3, b: Point3, m: Material) -> bool {
    let minx = if a.0.x.0 <= b.0.x.0 { a.0.x } else { b.0.x };
    let miny = if a.0.y.0 <= b.0.y.0 { a.0.y } else { b.0.y };
    let minz = if a.0.z.0 <= b.0.z.0 { a.0.z } else { b.0.z };
    let maxx = if a.0.x.0 >= b.0.x.0 { a.0.x } else { b.0.x };
    let maxy = if a.0.y.0 >= b.0.y.0 { a.0.y } else { b.0.y };
    let maxz = if a.0.z.0 >= b.0.z.0 { a.0.z } else { b.0.z };
    let dx = Vec3 { x: Fx((maxx.0 - minx.0) as i128), y: Fx(0), z: Fx(0) };
    let dy = Vec3 { x: Fx(0), y: Fx((maxy.0 - miny.0) as i128), z: Fx(0) };
    let dz = Vec3 { x: Fx(0), y: Fx(0), z: Fx((maxz.0 - minz.0) as i128) };
    let mdx = Vec3 { x: Fx((minx.0 - maxx.0) as i128), y: Fx(0), z: Fx(0) };
    let mdz = Vec3 { x: Fx(0), y: Fx(0), z: Fx((minz.0 - maxz.0) as i128) };
    &&& r matches Hittable::List(l)
    &&& (r matches Hittable::List(l) ==> {
        &&& l.objects@.len() == 6
        &&& face_ok(l.objects@[0], Point3(Vec3 { x: minx, y: miny, z: maxz }), dx, dy, m)
        &&& face_ok(l.objects@[1], Point3(Vec3 { x: maxx, y: miny, z: maxz }), mdz, dy, m)
        &&& face_ok(l.objects@[2], Point3(Vec3 { x: maxx, y: miny, z: minz }), mdx, dy, m)
        &&& face_ok(l.objects@[3], Point3(Vec3 { x: minx, y: miny, z: minz }), dz, dy, m)
        &&& face_ok(l.objects@[4], Point3(Vec3 { x: minx, y: maxy, z: maxz }), dx, mdz, m)
        &&& face_ok(l.objects@[5], Point3(Vec3 { x: minx, y: miny, z: minz }), dx, dz, m)
    })
}

/// The six faces of the rectangular prism spanned by two opposite
/// corners, each wound outward.
#[verifier::rlimit(80)]
pub fn make_box(a: Point3, b: Point3, material: Material) -> (r: Hittable)
    requires
        point_in(a, GEO as int / 2),
        point_in(b, GEO as int / 2),
        mat_wf(material),
    ensures
        crate::hittables::hittable_wf(r),
        make_box_ok(r, a, b, material),
{
    let min = Point3::new(a.x().min(b.x()), a.y().min(b.y()), a.z().min(b.z()));
    let max = Point3::new(a.x().max(b.x()), a.y().max(b.y()), a.z().max(b.z()));
    let dx = Vec3 { x: max.x().sub(min.x()), y: Fx(0), z: Fx(0) };
    let dy = Vec3 { x: Fx(0), y: max.y().sub(min.y()), z: Fx(0) };
    let dz = Vec3 { x: Fx(0), y: Fx(0), z: max.z().sub(min.z()) };
    let mdx = Vec3 { x: Fx(0).sub(dx.x), y: Fx(0), z: Fx(0) };
    let mdz = Vec3 { x: Fx(0), y: Fx(0), z: Fx(0).sub(dz.z) };
    let mut list = crate::hittables::HittableList::new();
    list.push(
        Hittable::Quad(
            Quad::new(Point3::new(min.x(), min.y(), max.z()), dx, dy, material.duplicate()),
        ),
    );
    list.push(
        Hittable::Quad(
            Quad::new(Point3::new(max.x(), min.y(), max.z()), mdz, dy, material.duplicate()),
        ),
    );
    list.push(
        Hittable::Quad(
            Quad::new(Point3::new(max.x(), min.y(), min.z()), mdx, dy, material.duplicate()),
        ),
    );
    list.push(
        Hittable::Quad(
            Quad::new(Point3::new(min.x(), min.y(), min.z()), dz, dy, material.duplicate()),
        ),
    );
    list.push(
        Hittable::Quad(
            Quad::new(Point3::new(min.x(), max.y(), max.z()), dx, mdz, material.duplicate()),
        ),
    );
    proof {
        crate::material::lemma_mat_equiv_refl(material);
    }
    list.push(Hittable::Quad(Quad::new(Point3::new(min.x(), min.y(), min.z()), dx, dz, material)));
    Hittable::List(list)
}

} // verus!
