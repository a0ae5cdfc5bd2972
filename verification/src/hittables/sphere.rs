//! Spheres, stationary or moving, and their spherical surface coordinates.

use vstd::prelude::*;

verus! {

use crate::fx::{fxdiv, fxmul, fxsqrt, Fx, DMAX, ONE_RAW, PMAX, SCALE, TLIM};
use crate::hittables::{hr_from, hr_wf, HitRecord, GEO};
use crate::material::{mat_wf, Material};
use crate::math::aabb::{aabb_in, aabb_wf, Aabb};
use crate::math::interval::Interval;
use crate::math::point3::{point_in, Point3};
use crate::math::ray::{ray_within, Ray};
use crate::math::vec3::{dot_raw, vec_in, Vec3, NMAX};
use crate::texture::TextureCoords;

/// Raw value of a quarter turn.
pub const QPI_RAW: i128 = 723823;

/// Raw value of a half turn.
pub const HALF_PI_RAW: i128 = 1447646;

/// Raw value of a full half-circle angle.
pub const PI_RAW: i128 = 2895292;

/// Raw value of the arctangent correction coefficient.
pub const ATAN_K: i128 = 251597;

/// A sphere, with an optional linear center motion over the shutter time.
pub struct Sphere {
    pub center1: Point3,
    pub radius: Fx,
    pub material: Material,
    pub is_moving: bool,
    pub center_vec: Vec3,
    pub bbox: Aabb,
}

/// Structural soundness of a sphere.
pub open spec fn sphere_wf(s: Sphere) -> bool {
    &&& point_in(s.center1, GEO as int)
    &&& 1 <= s.radius.0 <= GEO
    &&& vec_in(s.center_vec, 2 * GEO as int)
    &&& mat_wf(s.material)
    &&& aabb_wf(s.bbox) && aabb_in(s.bbox, crate::hittables::BBND as int)
}

/// The sphere's center at a ray's time sample.
pub open spec fn s_center(s: Sphere, time: Fx) -> Point3 {
    if s.is_moving {
        Point3(
            Vec3 {
                x: Fx((s.center1.0.x.0 + fxmul(time.0 as int, s.center_vec.x.0 as int)) as i128),
                y: Fx((s.center1.0.y.0 + fxmul(time.0 as int, s.center_vec.y.0 as int)) as i128),
                z: Fx((s.center1.0.z.0 + fxmul(time.0 as int, s.center_vec.z.0 as int)) as i128),
            },
        )
    } else {
        s.center1
    }
}

/// A root is usable when the query window strictly surrounds it and it is
/// representable as a ray parameter.
pub open spec fn root_ok(ray_t: Interval, t: int) -> bool {
    ray_t.spec_surrounds(t) && -TLIM <= t <= TLIM
}

/// The nearest usable quadratic root, if any: the smaller root first, the
/// larger as fallback.
pub open spec fn chosen_root(ray_t: Interval, h: int, sqrtd: int, a: int) -> Option<int> {
    let r1 = fxdiv(h - sqrtd, a);
    let r2 = fxdiv(h + sqrtd, a);
    if root_ok(ray_t, r1) {
        Some(r1)
    } else if root_ok(ray_t, r2) {
        Some(r2)
    } else {
        None
    }
}

/// The exact contract of a sphere intersection.
pub open spec fn sphere_hit_ok<'a>(
    s: Sphere,
    r: Ray,
    ray_t: Interval,
    res: Option<HitRecord<'a>>,
) -> bool {
    let center = s_center(s, r.spec_time());
    let ocx = center.0.x.0 - r.spec_origin().0.x.0;
    let ocy = center.0.y.0 - r.spec_origin().0.y.0;
    let ocz = center.0.z.0 - r.spec_origin().0.z.0;
    let oc = Vec3 { x: Fx(ocx as i128), y: Fx(ocy as i128), z: Fx(ocz as i128) };
    let d = r.spec_direction();
    let a = dot_raw(d, d);
    let h = dot_raw(d, oc);
    let c = dot_raw(oc, oc) - fxmul(s.radius.0 as int, s.radius.0 as int);
    let disc = fxmul(h, h) - fxmul(a, c);
    if a == 0 || disc < 0 {
        res is None
    } else {
        let sqrtd = fxsqrt(disc);
        match chosen_root(ray_t, h, sqrtd, a) {
            None => res is None,
            Some(root) => {
                let px = r.spec_origin().0.x.0 + fxmul(root, d.x.0 as int);
                let py = r.spec_origin().0.y.0 + fxmul(root, d.y.0 as int);
                let pz = r.spec_origin().0.z.0 + fxmul(root, d.z.0 as int);
                let p = Point3(Vec3 { x: Fx(px as i128), y: Fx(py as i128), z: Fx(pz as i128) });
                let ox = fxdiv(px - center.0.x.0, s.radius.0 as int);
                let oy = fxdiv(py - center.0.y.0, s.radius.0 as int);
                let oz = fxdiv(pz - center.0.z.0, s.radius.0 as int);
                let outward = Vec3 { x: Fx(ox as i128), y: Fx(oy as i128), z: Fx(oz as i128) };
                if !point_in(p, PMAX as int) || !vec_in(outward, NMAX as int) {
                    res is None
                } else {
                    res matches Some(hr) && hr_from(
                        hr,
                        Fx(root as i128),
                        p,
                        r,
                        outward,
                        s.material,
                        spec_sphere_uv(outward),
                    )
                }
            },
        }
    }
}

/// The arctangent of a ratio in `[0, 1]`, by a quadratic fit.
pub open spec fn spec_atan_unit(z: int) -> int {
    fxmul(z, QPI_RAW as int + fxmul(ATAN_K as int, SCALE as int - z))
}

/// A fixed-point two-argument arctangent in `(-pi, pi]`.
pub open spec fn spec_atan2(y: int, x: int) -> int {
    let ax = if x >= 0 {
        x
    } else {
        -x
    };
    let ay = if y >= 0 {
        y
    } else {
        -y
    };
    let base = if ax == 0 && ay == 0 {
        0
    } else if ay <= ax {
        spec_atan_unit(fxdiv(ay, ax))
    } else {
        HALF_PI_RAW as int - spec_atan_unit(fxdiv(ax, ay))
    };
    let quad = if x >= 0 {
        base
    } else {
        PI_RAW as int - base
    };
    if y >= 0 {
        quad
    } else {
        -quad
    }
}

/// Clamp into the unit range.
pub open spec fn clamp_unit(x: int) -> int {
    if x < 0 {
        0
    } else if x > SCALE as int {
        SCALE as int
    } else {
        x
    }
}

/// The azimuth of a unit-sphere point, measured as atan2(-z, x).  The
/// grid has no negative zero, so the seam point z = 0, x < 0 — where
/// -z would be a negative zero and the arctangent -pi — is mapped to
/// -pi by hand; everywhere else the arctangent decides.
pub open spec fn spec_azimuth(z: int, x: int) -> int {
    if z == 0 && x < 0 {
        -(PI_RAW as int)
    } else {
        spec_atan2(-z, x)
    }
}

/// Spherical surface coordinates of a point on the unit sphere: the angle
/// around the vertical axis and the angle from the south pole.
pub open spec fn spec_sphere_uv(p: Vec3) -> TextureCoords {
    let phi = spec_azimuth(p.z.0 as int, p.x.0 as int) + PI_RAW;
    let ysq = fxmul(p.y.0 as int, p.y.0 as int);
    let under = if SCALE as int - ysq >= 0 {
        SCALE as int - ysq
    } else {
        0
    };
    let theta = spec_atan2(fxsqrt(under), -p.y.0);
    TextureCoords {
        u: Fx(clamp_unit(fxdiv(phi, 2 * PI_RAW)) as i128),
        v: Fx(clamp_unit(fxdiv(theta, PI_RAW as int)) as i128),
    }
}

impl Sphere {
    /// A sphere that does not move.
    pub fn stationary(center: Point3, radius: Fx, material: Material) -> (s: Sphere)
        requires
            point_in(center, GEO as int),
            1 <= radius.0 <= GEO,
            mat_wf(material),
        ensures
            sphere_wf(s),
            s.center1 == center,
            s.radius == radius,
            s.material == material,
            !s.is_moving,
            s.bbox == crate::math::aabb::spec_corner_box(
                crate::math::point3::spec_psub(center, Vec3 { x: radius, y: radius, z: radius }),
                crate::math::point3::spec_padd(center, Vec3 { x: radius, y: radius, z: radius }),
            ),
    {
        let rvec = Vec3 { x: radius, y: radius, z: radius };
        let lo_c = center.sub_vec(rvec);
        let hi_c = center.add_vec(rvec);
        let bbox = Aabb::from_points(lo_c, hi_c);
        proof {
            crate::math::aabb::lemma_from_points_wf(lo_c, hi_c, 2 * GEO as int);
        }
        Sphere {
            center1: center,
            radius,
            material,
            is_moving: false,
            center_vec: Vec3::zero(),
            bbox,
        }
    }

    /// A sphere moving linearly from one center to another over the
    /// shutter time.
    pub fn moving(center1: Point3, center2: Point3, radius: Fx, material: Material) -> (s: Sphere)
        requires
            point_in(center1, GEO as int),
            point_in(center2, GEO as int),
            1 <= radius.0 <= GEO,
            mat_wf(material),
        ensures
            sphere_wf(s),
            s.center1 == center1,
            s.radius == radius,
            s.material == material,
            s.is_moving,
            crate::math::vec3::is_vsub(s.center_vec, center2.0, center1.0),
            s.bbox == crate::math::aabb::spec_merge_box(
                crate::math::aabb::spec_corner_box(
                    crate::math::point3::spec_psub(center1, Vec3 { x: radius, y: radius, z: radius }),
                    crate::math::point3::spec_padd(center1, Vec3 { x: radius, y: radius, z: radius }),
                ),
                crate::math::aabb::spec_corner_box(
                    crate::math::point3::spec_psub(center2, Vec3 { x: radius, y: radius, z: radius }),
                    crate::math::point3::spec_padd(center2, Vec3 { x: radius, y: radius, z: radius }),
                ),
            ),
    {
        let rvec = Vec3 { x: radius, y: radius, z: radius };
        let lo1 = center1.sub_vec(rvec);
        let hi1 = center1.add_vec(rvec);
        let lo2 = center2.sub_vec(rvec);
        let hi2 = center2.add_vec(rvec);
        let bbox1 = Aabb::from_points(lo1, hi1);
        let bbox2 = Aabb::from_points(lo2, hi2);
        let bbox = Aabb::merge(&bbox1, &bbox2);
        proof {
            crate::math::aabb::lemma_from_points_wf(lo1, hi1, 2 * GEO as int);
            crate::math::aabb::lemma_from_points_wf(lo2, hi2, 2 * GEO as int);
            crate::math::aabb::lemma_merge_keeps_wf(bbox1, bbox2, 2 * GEO as int + 46);
        }
        Sphere {
            center1,
            radius,
            material,
            is_moving: true,
            center_vec: center2.sub(center1),
            bbox,
        }
    }

    /// The center at a given time sample.
    fn center_at_time(&self, time: Fx) -> (c: Point3)
        requires
            sphere_wf(*self),
            -SCALE <= time.0 <= SCALE,
        ensures
            c == s_center(*self, time),
            point_in(c, GEO as int + 2 * GEO as int),
    {
        if self.is_moving {
            proof {
                crate::fx::lemma_fxmul_mag(time.0 as int, self.center_vec.x.0 as int, 921600, 2147483648);
                crate::fx::lemma_fxmul_mag(time.0 as int, self.center_vec.y.0 as int, 921600, 2147483648);
                crate::fx::lemma_fxmul_mag(time.0 as int, self.center_vec.z.0 as int, 921600, 2147483648);
            }
            self.center1.add_vec(self.center_vec.scale(time))
        } else {
            self.center1
        }
    }

    /// Where the ray strikes the sphere within the window, preferring the
    /// nearer root.
    pub fn hit<'a>(&'a self, r: &Ray, ray_bounds: &Interval) -> (res: Option<HitRecord<'a>>)
        requires
            sphere_wf(*self),
            ray_within(*r, PMAX as int, DMAX as int),
        ensures
            sphere_hit_ok(*self, *r, *ray_bounds, res),
            res matches Some(h) ==> hr_wf(h),
    {
        let center = self.center_at_time(r.time());
        let oc = center.sub(*r.origin());
        let a = crate::math::vec3::dot(r.direction(), r.direction());
        let h = crate::math::vec3::dot(r.direction(), &oc);
        let c_lsq = crate::math::vec3::dot(&oc, &oc);
        proof {
            crate::math::vec3::lemma_dot_mag(
                r.spec_direction(),
                r.spec_direction(),
                DMAX as int,
                DMAX as int,
            );
            crate::math::vec3::lemma_dot_mag(r.spec_direction(), oc, DMAX as int, 37580963840);
            crate::math::vec3::lemma_dot_mag(oc, oc, 37580963840, 37580963840);
            crate::fx::lemma_fxmul_mag(self.radius.0 as int, self.radius.0 as int, 1073741824, 1073741824);
        }
        let c = c_lsq.sub(self.radius.mul(self.radius));
        proof {
            crate::fx::lemma_fxmul_mag(h.0 as int, h.0 as int, 4203359652212462, 4203359652212462);
            crate::fx::lemma_fxmul_mag(a.0 as int, c.0 as int, 3843071682022823, 4598675619503872);
        }
        if a.0 == 0 {
            return None;
        }
        let disc = h.mul(h).sub(a.mul(c));
        if disc.0 < 0 {
            return None;
        }
        let sqrtd = disc.sqrt();
        proof {
            crate::fx::lemma_isqrt_le_of_sq(disc.0 * SCALE, 9007199254740992);
        }
        let root1 = h.sub(sqrtd).div(a);
        let mut root = root1;
        let ok1 = ray_bounds.surrounds(root1) && -TLIM <= root1.0 && root1.0 <= TLIM;
        if !ok1 {
            let root2 = h.add(sqrtd).div(a);
            let ok2 = ray_bounds.surrounds(root2) && -TLIM <= root2.0 && root2.0 <= TLIM;
            if !ok2 {
                return None;
            }
            root = root2;
        }
        let p = r.at(root);
        let ox = p.0.x.sub(center.0.x).div(self.radius);
        let oy = p.0.y.sub(center.0.y).div(self.radius);
        let oz = p.0.z.sub(center.0.z).div(self.radius);
        let outward = Vec3 { x: ox, y: oy, z: oz };
        let p_in = -PMAX <= p.0.x.0 && p.0.x.0 <= PMAX && -PMAX <= p.0.y.0 && p.0.y.0 <= PMAX
            && -PMAX <= p.0.z.0 && p.0.z.0 <= PMAX;
        let o_in = -NMAX <= ox.0 && ox.0 <= NMAX && -NMAX <= oy.0 && oy.0 <= NMAX && -NMAX <= oz.0
            && oz.0 <= NMAX;
        if !p_in || !o_in {
            return None;
        }
        let tc = sphere_uv(&outward);
        Some(HitRecord::new(root, p, r, outward, &self.material, tc))
    }
}

/// The arctangent of a ratio in the unit range, by a quadratic fit.
fn atan_unit(z: Fx) -> (r: Fx)
    requires
        0 <= z.0 <= SCALE,
    ensures
        r.0 == spec_atan_unit(z.0 as int),
        0 <= r.0 <= QPI_RAW + 260000,
{
    proof {
        crate::fx::lemma_fxmul_mag(ATAN_K as int, SCALE as int - z.0, 251597, 921600);
        crate::fx::lemma_fxmul_mag(
            z.0 as int,
            QPI_RAW as int + fxmul(ATAN_K as int, SCALE as int - z.0),
            921600,
            975420,
        );
        lemma_atan_unit_sign(z.0 as int);
    }
    z.mul(Fx(QPI_RAW).add(Fx(ATAN_K).mul(Fx(SCALE - z.0))))
}

/// The unit arctangent fit is nonnegative on the unit range.
proof fn lemma_atan_unit_sign(z: int)
    requires
        0 <= z <= SCALE,
    ensures
        0 <= spec_atan_unit(z),
{
    crate::fx::lemma_fxmul_mag(ATAN_K as int, SCALE as int - z, 251597, 921600);
    vstd::arithmetic::mul::lemma_mul_nonnegative(ATAN_K as int, SCALE as int - z);
    crate::fx::lemma_tdiv_abs_le(ATAN_K * (SCALE as int - z), SCALE as int);
    vstd::arithmetic::mul::lemma_mul_nonnegative(
        z,
        QPI_RAW as int + fxmul(ATAN_K as int, SCALE as int - z),
    );
    crate::fx::lemma_tdiv_abs_le(
        z * (QPI_RAW as int + fxmul(ATAN_K as int, SCALE as int - z)),
        SCALE as int,
    );
}

/// A fixed-point two-argument arctangent.
fn atan2_fx(y: Fx, x: Fx) -> (r: Fx)
    requires
        -2 * SCALE <= y.0 <= 2 * SCALE,
        -2 * SCALE <= x.0 <= 2 * SCALE,
    ensures
        r.0 == spec_atan2(y.0 as int, x.0 as int),
        -PI_RAW <= r.0 <= PI_RAW,
{
    let ax = if x.0 >= 0 {
        x
    } else {
        Fx(-x.0)
    };
    let ay = if y.0 >= 0 {
        y
    } else {
        Fx(-y.0)
    };
    let base = if ax.0 == 0 && ay.0 == 0 {
        Fx(0)
    } else if ay.0 <= ax.0 {
        proof {
            lemma_ratio_unit(ay.0 as int, ax.0 as int);
        }
        atan_unit(ay.div(ax))
    } else {
        proof {
            lemma_ratio_unit(ax.0 as int, ay.0 as int);
        }
        Fx(HALF_PI_RAW).sub(atan_unit(ax.div(ay)))
    };
    let quad = if x.0 >= 0 {
        base
    } else {
        Fx(PI_RAW).sub(base)
    };
    if y.0 >= 0 {
        quad
    } else {
        Fx(-quad.0)
    }
}

/// A nonnegative ratio of a smaller over a larger value stays within one.
proof fn lemma_ratio_unit(num: int, den: int)
    requires
        0 <= num <= den,
        1 <= den,
    ensures
        0 <= fxdiv(num, den) <= SCALE,
{
    crate::fx::lemma_tdiv_abs_le(num * SCALE, den);
    vstd::arithmetic::mul::lemma_mul_nonnegative(num, SCALE as int);
    vstd::arithmetic::div_mod::lemma_div_is_ordered(num * SCALE, den * SCALE, den);
    vstd::arithmetic::div_mod::lemma_div_multiples_vanish(SCALE as int, den);
    vstd::arithmetic::mul::lemma_mul_inequality(num, den, SCALE as int);
    assert(num * SCALE == num * (SCALE as int)) by (nonlinear_arith);
    assert(den * (SCALE as int) == (SCALE as int) * den) by (nonlinear_arith);
}

/// The spherical surface coordinates of a unit-sphere point.
fn sphere_uv(p: &Vec3) -> (tc: TextureCoords)
    requires
        vec_in(*p, NMAX as int),
    ensures
        tc == spec_sphere_uv(*p),
        crate::texture::tc_wf(tc),
{
    let az = if p.z.0 == 0 && p.x.0 < 0 {
        Fx(-PI_RAW)
    } else {
        atan2_fx(Fx(-p.z.0), p.x)
    };
    let phi = az.add(Fx(PI_RAW));
    proof {
        assert(az.0 == spec_azimuth(p.z.0 as int, p.x.0 as int));
        crate::fx::lemma_fxmul_mag(p.y.0 as int, p.y.0 as int, NMAX as int, NMAX as int);
        assert(p.y.0 * p.y.0 >= 0) by (nonlinear_arith);
        crate::fx::lemma_tdiv_abs_le(p.y.0 * p.y.0, SCALE as int);
    }
    let ysq = p.y.mul(p.y);
    let under_raw = Fx(SCALE - ysq.0);
    let under = if under_raw.0 >= 0 {
        under_raw
    } else {
        Fx(0)
    };
    let sq = under.sqrt();
    proof {
        crate::fx::lemma_isqrt_le_of_sq(under.0 * SCALE, 921600);
    }
    let theta = atan2_fx(sq, Fx(-p.y.0));
    let u = clamp_unit_exec(phi.div(Fx(2 * PI_RAW)));
    let v = clamp_unit_exec(theta.div(Fx(PI_RAW)));
    TextureCoords { u, v }
}

/// Clamp a scalar into the unit range.
fn clamp_unit_exec(x: Fx) -> (r: Fx)
    requires
        -DMAX <= x.0 <= DMAX,
    ensures
        r.0 == clamp_unit(x.0 as int),
        0 <= r.0 <= SCALE,
{
    if x.0 < 0 {
        Fx(0)
    } else if x.0 > SCALE {
        Fx(ONE_RAW)
    } else {
        x
    }
}

} // verus!
