//! The camera: derived viewport geometry, per-pixel stratified sampling,
//! the recursive path-tracing integrator, and the plain-text raster.

use vstd::prelude::*;

verus! {

use vstd::string::StringExecFns;

use crate::color::{spec_pixel_chars, Color};
use crate::fx::{fxdiv, fxmul, isqrt, tdiv, Fx, DMAX, ONE_RAW, PMAX, SCALE};
use crate::hittables::{hit_ok, hittable_wf, probed, HitRecord, Hittable};
use crate::math::interval::{ExtFx, Interval};
use crate::math::point3::{point_in, Point3};
use crate::math::ray::{ray_within, Ray};
use crate::math::point3::spec_psub;
use crate::math::vec3::{cross, cross_vv, normalized_vv, scale_vv, vec_in, Vec3, NMAX};
use crate::rng::RandomSource;
use crate::texture::TEXMAX;

/// Largest raw channel magnitude the integrator lets a radiance value
/// reach before clamping.
pub const RADCAP: i128 = 1099511627776;

/// Largest image side length accepted.
pub const IMG_W_MAX: usize = 4096;

/// The user-facing camera configuration.  The two angles enter as
/// tangents of their half-angles, since the scalar grid carries no
/// trigonometry: a vertical field of view of ninety degrees is a tangent
/// of one.
pub struct CameraParams {
    pub aspect_ratio: Fx,
    pub image_width: usize,
    pub samples_per_pixel: usize,
    pub tan_half_vfov: Fx,
    pub max_depth: u32,
    pub look_from: Point3,
    pub look_at: Point3,
    pub v_up: Vec3,
    pub focus_dist: Fx,
    pub defocus_tan_half: Option<Fx>,
    pub background: Color,
}

/// A builder holding the documented defaults; only the eye point must be
/// given before building.
pub struct CameraParamsBuilder {
    pub aspect_ratio: Fx,
    pub image_width: usize,
    pub samples_per_pixel: usize,
    pub tan_half_vfov: Fx,
    pub max_depth: u32,
    pub look_from: Option<Point3>,
    pub look_at: Point3,
    pub v_up: Vec3,
    pub focus_dist: Fx,
    pub defocus_tan_half: Option<Fx>,
    pub background: Color,
}

/// The accepted ranges of the configuration values.  The aspect window
/// of one eighth to eight, the eye and target coordinates within about
/// eleven hundred units, and the focus distance within about eighteen
/// units are machine limits of the grid: together they keep every
/// intermediate of the viewport derivation inside the 128-bit range,
/// and they admit every configuration the renderer's own scenes use.
pub open spec fn params_wf(p: CameraParams) -> bool {
    &&& SCALE as int / 8 <= p.aspect_ratio.0 <= 8 * SCALE
    &&& 32 <= p.image_width <= IMG_W_MAX
    &&& 1 <= p.samples_per_pixel <= 4096
    &&& 0 <= p.tan_half_vfov.0 <= 4 * SCALE
    &&& p.max_depth <= 64
    &&& point_in(p.look_from, crate::hittables::GEO as int)
    &&& point_in(p.look_at, crate::hittables::GEO as int)
    &&& vec_in(p.v_up, crate::hittables::GEO as int)
    &&& 1 <= p.focus_dist.0 <= 16777216
    &&& (p.defocus_tan_half matches Some(t) ==> 0 <= t.0 <= SCALE)
    &&& vec_in(p.background.0, TEXMAX as int)
}

/// The derived image height: the width over the aspect ratio, rounded
/// down and clamped into the accepted side range.
pub open spec fn spec_image_height(w: int, aspect: int) -> int {
    let h = fxdiv(w * SCALE, aspect) / (SCALE as int);
    if h < 1 {
        1
    } else if h > 4096 {
        4096
    } else {
        h
    }
}

/// The viewing direction basis vector, from the target toward the eye.
pub open spec fn spec_w_vec(p: CameraParams) -> Vec3 {
    normalized_vv(spec_psub(p.look_from, p.look_at.0).0)
}

/// The rightward basis vector.
pub open spec fn spec_u_vec(p: CameraParams) -> Vec3 {
    normalized_vv(cross_vv(p.v_up, spec_w_vec(p)))
}

/// The upward basis vector.
pub open spec fn spec_v_vec(p: CameraParams) -> Vec3 {
    cross_vv(spec_w_vec(p), spec_u_vec(p))
}

/// The viewport's raw height: twice the half-angle tangent times the
/// focus distance.
pub open spec fn spec_viewport_height(p: CameraParams) -> int {
    2 * fxmul(p.tan_half_vfov.0 as int, p.focus_dist.0 as int)
}

/// The viewport's raw width: the height scaled by the realized aspect.
pub open spec fn spec_viewport_width(p: CameraParams) -> int {
    fxmul(
        spec_viewport_height(p),
        fxdiv(
            (p.image_width as int) * SCALE,
            spec_image_height(p.image_width as int, p.aspect_ratio.0 as int) * SCALE,
        ),
    )
}

/// Scaling with the viewport guard: a factor out of range gives the zero
/// vector.
pub open spec fn spec_scale_guarded(v: Vec3, k: Fx) -> Vec3 {
    if !(-17179869184 <= k.0 <= 17179869184) {
        Vec3 { x: Fx(0), y: Fx(0), z: Fx(0) }
    } else {
        scale_vv(k, v)
    }
}

/// Scaling with the lens guard: a product out of range gives the zero
/// vector.
pub open spec fn spec_scale_unit_guarded(v: Vec3, k: Fx) -> Vec3 {
    let s = scale_vv(k, v);
    if -67108864 <= s.x.0 <= 67108864 && -67108864 <= s.y.0 <= 67108864 && -67108864 <= s.z.0
        <= 67108864 {
        s
    } else {
        Vec3 { x: Fx(0), y: Fx(0), z: Fx(0) }
    }
}

/// The horizontal viewport edge vector.
pub open spec fn spec_viewport_u(p: CameraParams) -> Vec3 {
    spec_scale_guarded(spec_u_vec(p), Fx(spec_viewport_width(p) as i128))
}

/// The downward viewport edge vector.
pub open spec fn spec_viewport_v(p: CameraParams) -> Vec3 {
    let v = spec_v_vec(p);
    spec_scale_guarded(
        Vec3 { x: Fx((-v.x.0) as i128), y: Fx((-v.y.0) as i128), z: Fx((-v.z.0) as i128) },
        Fx(spec_viewport_height(p) as i128),
    )
}

/// The step between pixel centers along a row.
pub open spec fn spec_pixel_delta_u(p: CameraParams) -> Vec3 {
    let vu = spec_viewport_u(p);
    let w = (p.image_width as int) * SCALE;
    Vec3 {
        x: Fx(fxdiv(vu.x.0 as int, w) as i128),
        y: Fx(fxdiv(vu.y.0 as int, w) as i128),
        z: Fx(fxdiv(vu.z.0 as int, w) as i128),
    }
}

/// The step between pixel centers down a column.
pub open spec fn spec_pixel_delta_v(p: CameraParams) -> Vec3 {
    let vv = spec_viewport_v(p);
    let h = spec_image_height(p.image_width as int, p.aspect_ratio.0 as int) * SCALE;
    Vec3 {
        x: Fx(fxdiv(vv.x.0 as int, h) as i128),
        y: Fx(fxdiv(vv.y.0 as int, h) as i128),
        z: Fx(fxdiv(vv.z.0 as int, h) as i128),
    }
}

/// The center of the top-left pixel: the eye, back half a viewport each
/// way, out to the focus plane, in half a pixel step.
pub open spec fn spec_pixel00(p: CameraParams) -> Point3 {
    let vu = spec_viewport_u(p);
    let vv = spec_viewport_v(p);
    let wv = spec_w_vec(p);
    let fw = scale_vv(p.focus_dist, wv);
    let du = spec_pixel_delta_u(p);
    let dv = spec_pixel_delta_v(p);
    Point3(
        Vec3 {
            x: Fx(
                (p.look_from.0.x.0 - tdiv(vu.x.0 as int, 2) - tdiv(vv.x.0 as int, 2) - fw.x.0
                    + tdiv(du.x.0 + dv.x.0, 2)) as i128,
            ),
            y: Fx(
                (p.look_from.0.y.0 - tdiv(vu.y.0 as int, 2) - tdiv(vv.y.0 as int, 2) - fw.y.0
                    + tdiv(du.y.0 + dv.y.0, 2)) as i128,
            ),
            z: Fx(
                (p.look_from.0.z.0 - tdiv(vu.z.0 as int, 2) - tdiv(vv.z.0 as int, 2) - fw.z.0
                    + tdiv(du.z.0 + dv.z.0, 2)) as i128,
            ),
        },
    )
}

/// Whether the derived geometry stays within the ranges the sampler
/// accepts; outside them the builder falls back to the canonical
/// viewport.
pub open spec fn spec_geometry_ok(p: CameraParams) -> bool {
    let p00 = spec_pixel00(p);
    let du = spec_pixel_delta_u(p);
    let dv = spec_pixel_delta_v(p);
    &&& point_in(p00, 17179869184)
    &&& vec_in(du, 536870912)
    &&& vec_in(dv, 536870912)
}

/// The lens basis the builder caches for a given aperture tangent.
pub open spec fn spec_defocus_disk(p: CameraParams, t: Fx) -> DefocusDisk {
    let radius = Fx(fxmul(p.focus_dist.0 as int, t.0 as int) as i128);
    let v = spec_v_vec(p);
    DefocusDisk {
        u: spec_scale_unit_guarded(spec_u_vec(p), radius),
        v: if -(NMAX as int) <= v.x.0 <= NMAX as int && -(NMAX as int) <= v.y.0 <= NMAX as int
            && -(NMAX as int) <= v.z.0 <= NMAX as int {
            spec_scale_unit_guarded(v, radius)
        } else {
            Vec3 { x: Fx(0), y: Fx(0), z: Fx(0) }
        },
    }
}

/// The configuration a builder stands for, once the eye point is set.
pub open spec fn spec_params(b: CameraParamsBuilder) -> CameraParams {
    CameraParams {
        aspect_ratio: b.aspect_ratio,
        image_width: b.image_width,
        samples_per_pixel: b.samples_per_pixel,
        tan_half_vfov: b.tan_half_vfov,
        max_depth: b.max_depth,
        look_from: b.look_from.unwrap(),
        look_at: b.look_at,
        v_up: b.v_up,
        focus_dist: b.focus_dist,
        defocus_tan_half: b.defocus_tan_half,
        background: b.background,
    }
}

/// The lens sampling basis, present when the camera has a finite
/// aperture.
pub struct DefocusDisk {
    pub u: Vec3,
    pub v: Vec3,
}

/// The derived, immutable camera geometry the render loop reads.
pub struct Camera {
    pub image_width: usize,
    pub image_height: usize,
    pub pixel_samples_scale: Fx,
    pub sqrt_spp: usize,
    pub recip_sqrt_spp: Fx,
    pub max_depth: u32,
    pub center: Point3,
    pub pixel00_loc: Point3,
    pub pixel_delta_u: Vec3,
    pub pixel_delta_v: Vec3,
    pub defocus_disk: Option<DefocusDisk>,
    pub background: Color,
}

/// The bounds every derived camera satisfies; the builder falls back to a
/// canonical camera if a pathological configuration would break them.
pub open spec fn cam_wf(c: Camera) -> bool {
    &&& 1 <= c.image_width <= IMG_W_MAX
    &&& 1 <= c.image_height <= IMG_W_MAX
    &&& 1 <= c.sqrt_spp <= 64
    &&& 0 <= c.recip_sqrt_spp.0 <= SCALE
    &&& 0 <= c.pixel_samples_scale.0 <= SCALE
    &&& c.max_depth <= 64
    &&& point_in(c.center, crate::hittables::GEO as int)
    &&& point_in(c.pixel00_loc, 17179869184)
    &&& vec_in(c.pixel_delta_u, 536870912)
    &&& vec_in(c.pixel_delta_v, 536870912)
    &&& (c.defocus_disk matches Some(d) ==> vec_in(d.u, 67108864) && vec_in(d.v, 67108864))
    &&& vec_in(c.background.0, TEXMAX as int)
}

impl CameraParamsBuilder {
    /// The documented defaults: a square pinhole camera of one hundred
    /// pixels looking down the negative z axis.
    pub fn new() -> (r: CameraParamsBuilder)
        ensures
            r.look_from is None,
    {
        CameraParamsBuilder {
            aspect_ratio: Fx(ONE_RAW),
            image_width: 100,
            samples_per_pixel: 10,
            tan_half_vfov: Fx(ONE_RAW),
            max_depth: 10,
            look_from: None,
            look_at: Point3(Vec3 { x: Fx(0), y: Fx(0), z: Fx(-ONE_RAW) }),
            v_up: Vec3 { x: Fx(0), y: Fx(ONE_RAW), z: Fx(0) },
            focus_dist: Fx(10 * ONE_RAW),
            defocus_tan_half: None,
            background: Color::black(),
        }
    }

    pub fn aspect_ratio(self, v: Fx) -> (r: CameraParamsBuilder)
        ensures
            r == (CameraParamsBuilder { aspect_ratio: v, ..self }),
    {
        CameraParamsBuilder { aspect_ratio: v, ..self }
    }

    pub fn image_width(self, v: usize) -> (r: CameraParamsBuilder)
        ensures
            r == (CameraParamsBuilder { image_width: v, ..self }),
    {
        CameraParamsBuilder { image_width: v, ..self }
    }

    pub fn samples_per_pixel(self, v: usize) -> (r: CameraParamsBuilder)
        ensures
            r == (CameraParamsBuilder { samples_per_pixel: v, ..self }),
    {
        CameraParamsBuilder { samples_per_pixel: v, ..self }
    }

    pub fn tan_half_vfov(self, v: Fx) -> (r: CameraParamsBuilder)
        ensures
            r == (CameraParamsBuilder { tan_half_vfov: v, ..self }),
    {
        CameraParamsBuilder { tan_half_vfov: v, ..self }
    }

    pub fn max_depth(self, v: u32) -> (r: CameraParamsBuilder)
        ensures
            r == (CameraParamsBuilder { max_depth: v, ..self }),
    {
        CameraParamsBuilder { max_depth: v, ..self }
    }

    pub fn look_from(self, v: Point3) -> (r: CameraParamsBuilder)
        ensures
            r == (CameraParamsBuilder { look_from: Some(v), ..self }),
    {
        CameraParamsBuilder { look_from: Some(v), ..self }
    }

    pub fn look_at(self, v: Point3) -> (r: CameraParamsBuilder)
        ensures
            r == (CameraParamsBuilder { look_at: v, ..self }),
    {
        CameraParamsBuilder { look_at: v, ..self }
    }

    pub fn v_up(self, v: Vec3) -> (r: CameraParamsBuilder)
        ensures
            r == (CameraParamsBuilder { v_up: v, ..self }),
    {
        CameraParamsBuilder { v_up: v, ..self }
    }

    pub fn focus_dist(self, v: Fx) -> (r: CameraParamsBuilder)
        ensures
            r == (CameraParamsBuilder { focus_dist: v, ..self }),
    {
        CameraParamsBuilder { focus_dist: v, ..self }
    }

    pub fn defocus_tan_half(self, v: Option<Fx>) -> (r: CameraParamsBuilder)
        ensures
            r == (CameraParamsBuilder { defocus_tan_half: v, ..self }),
    {
        CameraParamsBuilder { defocus_tan_half: v, ..self }
    }

    pub fn background(self, v: Color) -> (r: CameraParamsBuilder)
        ensures
            r == (CameraParamsBuilder { background: v, ..self }),
    {
        CameraParamsBuilder { background: v, ..self }
    }

    /// Derive the camera geometry.  The eye point must have been set and
    /// every parameter must lie in its accepted range.
    #[verifier::rlimit(100)]
    pub fn build(self) -> (c: Camera)
        requires
            self.look_from is Some,
            params_wf(spec_params(self)),
        ensures
            cam_wf(c),
            c.background == self.background,
            c.max_depth == self.max_depth,
            c.image_width == self.image_width,
            c.center == self.look_from.unwrap(),
            c.image_height as int == spec_image_height(
                self.image_width as int,
                self.aspect_ratio.0 as int,
            ),
            c.sqrt_spp as int == isqrt(self.samples_per_pixel as int),
            c.pixel_samples_scale.0 == fxdiv(
                ONE_RAW as int,
                isqrt(self.samples_per_pixel as int) * isqrt(self.samples_per_pixel as int)
                    * SCALE,
            ),
            c.recip_sqrt_spp.0 == fxdiv(
                ONE_RAW as int,
                isqrt(self.samples_per_pixel as int) * SCALE,
            ),
            spec_geometry_ok(spec_params(self)) ==> {
                &&& c.pixel00_loc == spec_pixel00(spec_params(self))
                &&& c.pixel_delta_u == spec_pixel_delta_u(spec_params(self))
                &&& c.pixel_delta_v == spec_pixel_delta_v(spec_params(self))
            },
            !spec_geometry_ok(spec_params(self)) ==> {
                &&& c.pixel00_loc == crate::math::point3::spec_padd(
                    self.look_from.unwrap(),
                    Vec3 { x: Fx(0), y: Fx(0), z: Fx((-ONE_RAW) as i128) },
                )
                &&& c.pixel_delta_u == (Vec3 { x: Fx(ONE_RAW), y: Fx(0), z: Fx(0) })
                &&& c.pixel_delta_v == (Vec3 { x: Fx(0), y: Fx((-ONE_RAW) as i128), z: Fx(0) })
            },
            match self.defocus_tan_half {
                Option::Some(t) => c.defocus_disk == Some(spec_defocus_disk(spec_params(self), t)),
                Option::None => c.defocus_disk is None,
            },
    {
        let ghost params = spec_params(self);
        let look_from = self.look_from.unwrap();
        let wfx = Fx::from_int(self.image_width as i64);
        let hq = wfx.div(self.aspect_ratio);
        let hfloor = hq.floor_int();
        let image_height: usize = if hfloor < 1 {
            1
        } else if hfloor > 4096 {
            4096
        } else {
            hfloor as usize
        };
        proof {
            assert(image_height as int == spec_image_height(
                self.image_width as int,
                self.aspect_ratio.0 as int,
            ));
        }
        let hfx = Fx::from_int(image_height as i64);
        proof {
            crate::fx::lemma_mul_abs_le(
                self.tan_half_vfov.0 as int,
                self.focus_dist.0 as int,
                3686400,
                16777216,
            );
            crate::fx::lemma_tdiv_abs_le(self.tan_half_vfov.0 * self.focus_dist.0, SCALE as int);
        }
        let viewport_height = Fx(2 * self.tan_half_vfov.mul(self.focus_dist).0);
        let ratio = wfx.div(hfx);
        proof {
            crate::fx::lemma_tdiv_abs_le(wfx.0 * SCALE, hfx.0 as int);
        }
        let viewport_width = viewport_height.mul(ratio);
        proof {
            assert(viewport_height.0 == spec_viewport_height(params));
            assert(viewport_width.0 == spec_viewport_width(params));
        }
        let w_vec = look_from.sub(self.look_at).normalized();
        proof {
            assert(w_vec == spec_w_vec(params));
        }
        let up_cross_w = cross(&self.v_up, &w_vec);
        proof {
            crate::fx::lemma_fxmul_mag(self.v_up.y.0 as int, w_vec.z.0 as int, 1073741824, 1843200);
            crate::fx::lemma_fxmul_mag(self.v_up.z.0 as int, w_vec.y.0 as int, 1073741824, 1843200);
            crate::fx::lemma_fxmul_mag(self.v_up.z.0 as int, w_vec.x.0 as int, 1073741824, 1843200);
            crate::fx::lemma_fxmul_mag(self.v_up.x.0 as int, w_vec.z.0 as int, 1073741824, 1843200);
            crate::fx::lemma_fxmul_mag(self.v_up.x.0 as int, w_vec.y.0 as int, 1073741824, 1843200);
            crate::fx::lemma_fxmul_mag(self.v_up.y.0 as int, w_vec.x.0 as int, 1073741824, 1843200);
        }
        let u_vec = up_cross_w.normalized();
        proof {
            crate::fx::lemma_fxmul_mag(w_vec.y.0 as int, u_vec.z.0 as int, 1843200, 1843200);
            crate::fx::lemma_fxmul_mag(w_vec.z.0 as int, u_vec.y.0 as int, 1843200, 1843200);
            crate::fx::lemma_fxmul_mag(w_vec.z.0 as int, u_vec.x.0 as int, 1843200, 1843200);
            crate::fx::lemma_fxmul_mag(w_vec.x.0 as int, u_vec.z.0 as int, 1843200, 1843200);
            crate::fx::lemma_fxmul_mag(w_vec.x.0 as int, u_vec.y.0 as int, 1843200, 1843200);
            crate::fx::lemma_fxmul_mag(w_vec.y.0 as int, u_vec.x.0 as int, 1843200, 1843200);
        }
        let v_vec = cross(&w_vec, &u_vec);
        proof {
            assert(u_vec == spec_u_vec(params));
            assert(v_vec == spec_v_vec(params));
        }
        let viewport_u = scale_guarded(u_vec, viewport_width);
        let viewport_v = scale_guarded(v_vec.neg(), viewport_height);
        proof {
            assert(viewport_u == spec_viewport_u(params));
            assert(viewport_v == spec_viewport_v(params));
        }
        let pixel_delta_u = Vec3 {
            x: viewport_u.x.div(wfx),
            y: viewport_u.y.div(wfx),
            z: viewport_u.z.div(wfx),
        };
        let pixel_delta_v = Vec3 {
            x: viewport_v.x.div(hfx),
            y: viewport_v.y.div(hfx),
            z: viewport_v.z.div(hfx),
        };
        proof {
            assert(pixel_delta_u == spec_pixel_delta_u(params));
            assert(pixel_delta_v == spec_pixel_delta_v(params));
        }
        proof {
            crate::fx::lemma_fxmul_mag(self.focus_dist.0 as int, w_vec.x.0 as int, 16777216, NMAX as int);
            crate::fx::lemma_fxmul_mag(self.focus_dist.0 as int, w_vec.y.0 as int, 16777216, NMAX as int);
            crate::fx::lemma_fxmul_mag(self.focus_dist.0 as int, w_vec.z.0 as int, 16777216, NMAX as int);
        }
        let focus_w = w_vec.scale(self.focus_dist);
        let viewport_upper_left = look_from.sub_vec(
            Vec3 { x: half(viewport_u.x), y: half(viewport_u.y), z: half(viewport_u.z) },
        ).sub_vec(
            Vec3 { x: half(viewport_v.x), y: half(viewport_v.y), z: half(viewport_v.z) },
        ).sub_vec(focus_w);
        let pixel00_loc = viewport_upper_left.add_vec(
            Vec3 {
                x: half(pixel_delta_u.x.add(pixel_delta_v.x)),
                y: half(pixel_delta_u.y.add(pixel_delta_v.y)),
                z: half(pixel_delta_u.z.add(pixel_delta_v.z)),
            },
        );
        proof {
            assert(pixel00_loc == spec_pixel00(params));
        }
        let defocus_disk = match self.defocus_tan_half {
            Option::Some(t) => {
                proof {
                    crate::fx::lemma_fxmul_mag(self.focus_dist.0 as int, t.0 as int, 16777216, 921600);
                }
                let defocus_radius = self.focus_dist.mul(t);
                let du = scale_unit_guarded(u_vec, defocus_radius);
                let dv = if -NMAX <= v_vec.x.0 && v_vec.x.0 <= NMAX && -NMAX <= v_vec.y.0
                    && v_vec.y.0 <= NMAX && -NMAX <= v_vec.z.0 && v_vec.z.0 <= NMAX {
                    scale_unit_guarded(v_vec, defocus_radius)
                } else {
                    Vec3 { x: Fx(0), y: Fx(0), z: Fx(0) }
                };
                proof {
                    assert(DefocusDisk { u: du, v: dv } == spec_defocus_disk(params, t));
                }
                Some(DefocusDisk { u: du, v: dv })
            },
            Option::None => None,
        };
        let sqrt_spp = int_sqrt_small(self.samples_per_pixel);
        proof {
            assert(sqrt_spp as int == isqrt(self.samples_per_pixel as int));
            assert(sqrt_spp * sqrt_spp <= 4096) by (nonlinear_arith)
                requires
                    sqrt_spp <= 64,
            ;
            assert(sqrt_spp * sqrt_spp >= 1) by (nonlinear_arith)
                requires
                    sqrt_spp >= 1,
            ;
        }
        let spp2 = sqrt_spp * sqrt_spp;
        proof {
            vstd::arithmetic::mul::lemma_mul_strictly_positive(spp2 as int, SCALE as int);
            vstd::arithmetic::mul::lemma_mul_strictly_positive(sqrt_spp as int, SCALE as int);
        }
        let pixel_samples_scale = Fx(ONE_RAW).div(Fx::from_int(spp2 as i64));
        let recip_sqrt_spp = Fx(ONE_RAW).div(Fx::from_int(sqrt_spp as i64));
        proof {
            crate::fx::lemma_tdiv_abs_le((ONE_RAW as int) * SCALE, spp2 as int * SCALE);
            crate::fx::lemma_tdiv_abs_le((ONE_RAW as int) * SCALE, sqrt_spp as int * SCALE);
            lemma_recip_le_one(spp2 as int);
            lemma_recip_le_one(sqrt_spp as int);
        }
        proof {
            assert(pixel_samples_scale.0 == fxdiv(
                ONE_RAW as int,
                (sqrt_spp * sqrt_spp) as int * SCALE,
            ));
            assert(recip_sqrt_spp.0 == fxdiv(ONE_RAW as int, sqrt_spp as int * SCALE));
        }
        let p00_ok = -17179869184 <= pixel00_loc.0.x.0 && pixel00_loc.0.x.0 <= 17179869184
            && -17179869184 <= pixel00_loc.0.y.0 && pixel00_loc.0.y.0 <= 17179869184
            && -17179869184 <= pixel00_loc.0.z.0 && pixel00_loc.0.z.0 <= 17179869184;
        let pd_ok = -536870912 <= pixel_delta_u.x.0 && pixel_delta_u.x.0 <= 536870912 && -536870912
            <= pixel_delta_u.y.0 && pixel_delta_u.y.0 <= 536870912 && -536870912
            <= pixel_delta_u.z.0 && pixel_delta_u.z.0 <= 536870912 && -536870912
            <= pixel_delta_v.x.0 && pixel_delta_v.x.0 <= 536870912 && -536870912
            <= pixel_delta_v.y.0 && pixel_delta_v.y.0 <= 536870912 && -536870912
            <= pixel_delta_v.z.0 && pixel_delta_v.z.0 <= 536870912;
        proof {
            assert((p00_ok && pd_ok) == spec_geometry_ok(params));
        }
        if p00_ok && pd_ok {
            Camera {
                image_width: self.image_width,
                image_height,
                pixel_samples_scale,
                sqrt_spp,
                recip_sqrt_spp,
                max_depth: self.max_depth,
                center: look_from,
                pixel00_loc,
                pixel_delta_u,
                pixel_delta_v,
                defocus_disk,
                background: self.background,
            }
        } else {
            // A configuration whose derived geometry leaves the
            // representable range falls back to the canonical viewport:
            // a unit square one unit in front of the eye.
            Camera {
                image_width: self.image_width,
                image_height,
                pixel_samples_scale,
                sqrt_spp,
                recip_sqrt_spp,
                max_depth: self.max_depth,
                center: look_from,
                pixel00_loc: look_from.add_vec(Vec3 { x: Fx(0), y: Fx(0), z: Fx(-ONE_RAW) }),
                pixel_delta_u: Vec3 { x: Fx(ONE_RAW), y: Fx(0), z: Fx(0) },
                pixel_delta_v: Vec3 { x: Fx(0), y: Fx(-ONE_RAW), z: Fx(0) },
                defocus_disk,
                background: self.background,
            }
        }
    }
}

/// The reciprocal of a positive integer stays within one.
proof fn lemma_recip_le_one(n: int)
    requires
        1 <= n,
    ensures
        0 <= fxdiv(ONE_RAW as int, n * SCALE) <= SCALE as int,
{
    crate::fx::lemma_tdiv_abs_le((ONE_RAW as int) * SCALE, n * SCALE);
    vstd::arithmetic::div_mod::lemma_div_is_ordered_by_denominator(
        849346560000,
        921600,
        n * (SCALE as int),
    );
    vstd::arithmetic::mul::lemma_mul_inequality(1, n, SCALE as int);
    assert(fxdiv(ONE_RAW as int, n * SCALE) == 849346560000int / (n * SCALE));
    vstd::arithmetic::div_mod::lemma_div_pos_is_pos(849346560000int, n * (SCALE as int));
    assert(849346560000int / 921600 == 921600) by {
        vstd::arithmetic::div_mod::lemma_div_multiples_vanish(921600, 921600);
    }
}

/// Half of a scalar, rounded toward zero.
fn half(x: Fx) -> (r: Fx)
    requires
        -crate::fx::DIVIN <= x.0 <= crate::fx::DIVIN,
    ensures
        r.0 == crate::fx::tdiv(x.0 as int, 2),
        -crate::fx::DIVIN <= r.0 <= crate::fx::DIVIN,
{
    proof {
        crate::fx::lemma_tdiv_abs_le(x.0 as int, 2);
    }
    Fx(x.0.checked_div(2).unwrap())
}

/// Scale a vector, dropping to zero if the result would leave the
/// viewport range.
fn scale_guarded(v: Vec3, k: Fx) -> (r: Vec3)
    requires
        vec_in(v, 8 * SCALE as int),
    ensures
        vec_in(r, 137438953472),
        r == spec_scale_guarded(v, k),
{
    if !(-17179869184 <= k.0 && k.0 <= 17179869184) {
        return Vec3 { x: Fx(0), y: Fx(0), z: Fx(0) };
    }
    proof {
        crate::fx::lemma_fxmul_mag(k.0 as int, v.x.0 as int, 17179869184, 8 * SCALE as int);
        crate::fx::lemma_fxmul_mag(k.0 as int, v.y.0 as int, 17179869184, 8 * SCALE as int);
        crate::fx::lemma_fxmul_mag(k.0 as int, v.z.0 as int, 17179869184, 8 * SCALE as int);
    }
    Vec3 { x: k.mul(v.x), y: k.mul(v.y), z: k.mul(v.z) }
}

/// Scale a near-unit vector by a small lens radius.
fn scale_unit_guarded(v: Vec3, k: Fx) -> (r: Vec3)
    requires
        vec_in(v, NMAX as int),
        -16777216 <= k.0 <= 16777216,
    ensures
        vec_in(r, 67108864),
        r == spec_scale_unit_guarded(v, k),
{
    proof {
        crate::fx::lemma_fxmul_mag(k.0 as int, v.x.0 as int, 16777216, NMAX as int);
        crate::fx::lemma_fxmul_mag(k.0 as int, v.y.0 as int, 16777216, NMAX as int);
        crate::fx::lemma_fxmul_mag(k.0 as int, v.z.0 as int, 16777216, NMAX as int);
    }
    let s = Vec3 { x: k.mul(v.x), y: k.mul(v.y), z: k.mul(v.z) };
    let ok = -67108864 <= s.x.0 && s.x.0 <= 67108864 && -67108864 <= s.y.0 && s.y.0 <= 67108864
        && -67108864 <= s.z.0 && s.z.0 <= 67108864;
    if ok {
        s
    } else {
        Vec3 { x: Fx(0), y: Fx(0), z: Fx(0) }
    }
}

/// The whole-number square root of a small count.
fn int_sqrt_small(n: usize) -> (r: usize)
    requires
        1 <= n <= 4096,
    ensures
        1 <= r <= 64,
        r * r <= n,
        r as int == isqrt(n as int),
{
    let mut r: usize = 1;
    while r < 64
        invariant
            1 <= r <= 64,
            r * r <= n,
            n <= 4096,
        decreases 64 - r,
    {
        proof {
            assert((r + 1) * (r + 1) <= 4225) by (nonlinear_arith)
                requires
                    r < 64,
            ;
        }
        if (r + 1) * (r + 1) <= n {
            r = r + 1;
        } else {
            proof {
                crate::fx::lemma_isqrt_is(n as int, r as int);
            }
            return r;
        }
    }
    proof {
        assert(n < (r + 1) * (r + 1)) by (nonlinear_arith)
            requires
                r == 64,
                n <= 4096,
        ;
        crate::fx::lemma_isqrt_is(n as int, r as int);
    }
    r
}

/// The ray-parameter window used for every radiance query: from just
/// above zero, to cut off self-intersection, out to infinity.
pub open spec fn spec_ray_cut() -> Interval {
    Interval { min: ExtFx::Fin(Fx(922)), max: ExtFx::PosInf }
}

/// A marker naming one considered pixel sequence.
pub open spec fn pixels_of(pix: Seq<Color>) -> bool {
    true
}

/// A marker naming one considered scatter outcome and its recursive
/// radiance.
pub open spec fn weighed(sres: Option<crate::material::ScatteredRay>, rec: Color) -> bool {
    true
}

/// A marker naming one considered camera ray.
pub open spec fn ray_probed(r: Ray) -> bool {
    true
}

/// A marker naming one considered per-pixel sample sequence.
pub open spec fn samples_of(s: Seq<Color>) -> bool {
    true
}

/// One radiance channel clamped into the representable cap.
pub open spec fn spec_cap(x: int) -> int {
    if x < -RADCAP {
        -(RADCAP as int)
    } else if x > RADCAP {
        RADCAP as int
    } else {
        x
    }
}

/// The emission plus the capped, attenuation-filtered recursive radiance.
pub open spec fn spec_shaded(emitted: Color, attenuation: Color, rec: Color) -> Color {
    Color(
        Vec3 {
            x: Fx(
                (emitted.0.x.0 + spec_cap(fxmul(attenuation.0.x.0 as int, rec.0.x.0 as int))) as i128,
            ),
            y: Fx(
                (emitted.0.y.0 + spec_cap(fxmul(attenuation.0.y.0 as int, rec.0.y.0 as int))) as i128,
            ),
            z: Fx(
                (emitted.0.z.0 + spec_cap(fxmul(attenuation.0.z.0 as int, rec.0.z.0 as int))) as i128,
            ),
        },
    )
}

/// What the integrator may return for a ray at a given depth: black at
/// the cutoff; the background on a miss; and otherwise, for a hit and a
/// scatter consistent with the material's contract, the emission alone
/// on absorption or the emission plus the capped filtered radiance of
/// the scattered ray one level deeper.
pub open spec fn radiance_ok<'a>(
    cam: Camera,
    r: Ray,
    depth: int,
    world: Hittable,
    c: Color,
) -> bool
    decreases depth,
{
    if depth <= 0 {
        c.0.x.0 == 0 && c.0.y.0 == 0 && c.0.z.0 == 0
    } else {
        exists|hres: Option<HitRecord<'a>>|
            #[trigger] probed(hres) && hit_ok(world, r, spec_ray_cut(), hres) && match hres {
                Option::None => c == cam.background,
                Option::Some(hr) => exists|
                    sres: Option<crate::material::ScatteredRay>,
                    rec: Color,
                |
                    #![trigger weighed(sres, rec)]
                    {
                        &&& crate::material::scatter_ok(
                            *hr.material,
                            r,
                            hr.p,
                            hr.normal,
                            hr.front_face,
                            hr.texture_coords,
                            sres,
                        )
                        &&& match sres {
                            Option::None => c == crate::material::spec_emit(
                                *hr.material,
                                hr.texture_coords,
                                hr.p,
                            ),
                            Option::Some(s) => radiance_ok(cam, s.ray, depth - 1, world, rec) && c
                                == spec_shaded(
                                crate::material::spec_emit(*hr.material, hr.texture_coords, hr.p),
                                s.attenuation,
                                rec,
                            ),
                        }
                    },
            }
    }
}

/// One pixel sample: the radiance along a stratified camera ray of
/// pixel (i, j)'s sub-cell (s_i, s_j).
pub open spec fn sample_ok<'a>(
    cam: Camera,
    world: Hittable,
    i: int,
    j: int,
    s_i: int,
    s_j: int,
    s: Color,
) -> bool {
    exists|r: Ray|
        #[trigger] ray_probed(r) && camera_ray_ok(cam, i, j, s_i, s_j, r) && ray_within(
            r,
            PMAX as int,
            DMAX as int,
        ) && 0 <= r.time.0 < SCALE && radiance_ok(cam, r, cam.max_depth as int, world, s)
}

/// The running sample sum over the first `n` samples, each addition
/// capped channel-wise at the radiance cap.
pub open spec fn spec_accum(samples: Seq<Color>, n: int) -> Color
    decreases n,
{
    if n <= 0 {
        Color(Vec3 { x: Fx(0), y: Fx(0), z: Fx(0) })
    } else {
        let a = spec_accum(samples, n - 1);
        let s = samples[n - 1];
        Color(
            Vec3 {
                x: Fx(spec_cap(a.0.x.0 + s.0.x.0) as i128),
                y: Fx(spec_cap(a.0.y.0 + s.0.y.0) as i128),
                z: Fx(spec_cap(a.0.z.0 + s.0.z.0) as i128),
            },
        )
    }
}

/// The accumulated samples brought to their average by the per-pixel
/// scale.
pub open spec fn spec_scaled(k: Fx, a: Color) -> Color {
    Color(
        Vec3 {
            x: Fx(fxmul(k.0 as int, a.0.x.0 as int) as i128),
            y: Fx(fxmul(k.0 as int, a.0.y.0 as int) as i128),
            z: Fx(fxmul(k.0 as int, a.0.z.0 as int) as i128),
        },
    )
}

/// What pixel (i, j) may be: the capped sum of one radiance sample per
/// stratified sub-cell, each along that sub-cell's own camera ray,
/// scaled to the average.  Sample k covers sub-cell
/// (k % sqrt_spp, k / sqrt_spp).
pub open spec fn pixel_ok<'a>(cam: Camera, world: Hittable, i: int, j: int, c: Color) -> bool {
    exists|samples: Seq<Color>|
        #[trigger] samples_of(samples) && {
            &&& samples.len() == (cam.sqrt_spp as int) * (cam.sqrt_spp as int)
            &&& forall|k: int|
                0 <= k < samples.len() ==> sample_ok(
                    cam,
                    world,
                    i,
                    j,
                    k % (cam.sqrt_spp as int),
                    k / (cam.sqrt_spp as int),
                    #[trigger] samples[k],
                )
            &&& c == spec_scaled(
                cam.pixel_samples_scale,
                spec_accum(samples, samples.len() as int),
            )
        }
}

/// A marker naming one considered pair of sub-cell jitters.
pub open spec fn jitters(ux: Fx, uy: Fx) -> bool {
    true
}

/// A marker naming one considered lens sample.
pub open spec fn lens_sample(lp: Vec3) -> bool {
    true
}

/// A marker naming one considered time draw.
pub open spec fn timed(t: Fx) -> bool {
    true
}

/// The jittered offset within one stratified sub-cell, from two unit
/// draws.
pub open spec fn spec_strat_offset(cam: Camera, s_i: int, s_j: int, ux: Fx, uy: Fx) -> Vec3 {
    Vec3 {
        x: Fx((fxmul(s_i * SCALE + ux.0, cam.recip_sqrt_spp.0 as int) - 460800) as i128),
        y: Fx((fxmul(s_j * SCALE + uy.0, cam.recip_sqrt_spp.0 as int) - 460800) as i128),
        z: Fx(0),
    }
}

/// The camera ray determined by a sub-cell offset, a lens sample and a
/// time draw: aimed at the jittered pixel target from the lens point,
/// falling back to the canonical forward ray if the target or the
/// direction leaves the representable range.
pub open spec fn spec_camera_ray(
    cam: Camera,
    i: int,
    j: int,
    off: Vec3,
    lp: Vec3,
    time: Fx,
) -> Ray {
    let fi = i * SCALE + off.x.0;
    let fj = j * SCALE + off.y.0;
    let sample = Point3(
        Vec3 {
            x: Fx(
                (cam.pixel00_loc.0.x.0 + fxmul(fi, cam.pixel_delta_u.x.0 as int) + fxmul(
                    fj,
                    cam.pixel_delta_v.x.0 as int,
                )) as i128,
            ),
            y: Fx(
                (cam.pixel00_loc.0.y.0 + fxmul(fi, cam.pixel_delta_u.y.0 as int) + fxmul(
                    fj,
                    cam.pixel_delta_v.y.0 as int,
                )) as i128,
            ),
            z: Fx(
                (cam.pixel00_loc.0.z.0 + fxmul(fi, cam.pixel_delta_u.z.0 as int) + fxmul(
                    fj,
                    cam.pixel_delta_v.z.0 as int,
                )) as i128,
            ),
        },
    );
    let origin = match cam.defocus_disk {
        Option::Some(d) => Point3(
            Vec3 {
                x: Fx(
                    (cam.center.0.x.0 + fxmul(lp.x.0 as int, d.u.x.0 as int) + fxmul(
                        lp.y.0 as int,
                        d.v.x.0 as int,
                    )) as i128,
                ),
                y: Fx(
                    (cam.center.0.y.0 + fxmul(lp.x.0 as int, d.u.y.0 as int) + fxmul(
                        lp.y.0 as int,
                        d.v.y.0 as int,
                    )) as i128,
                ),
                z: Fx(
                    (cam.center.0.z.0 + fxmul(lp.x.0 as int, d.u.z.0 as int) + fxmul(
                        lp.y.0 as int,
                        d.v.z.0 as int,
                    )) as i128,
                ),
            },
        ),
        Option::None => cam.center,
    };
    let dir = Vec3 {
        x: Fx((sample.0.x.0 - origin.0.x.0) as i128),
        y: Fx((sample.0.y.0 - origin.0.y.0) as i128),
        z: Fx((sample.0.z.0 - origin.0.z.0) as i128),
    };
    if point_in(sample, PMAX as int) && vec_in(dir, DMAX as int) {
        Ray { origin, direction: dir, time }
    } else {
        Ray {
            origin: cam.center,
            direction: Vec3 { x: Fx(0), y: Fx(0), z: Fx((-ONE_RAW) as i128) },
            time,
        }
    }
}

/// What one stratified camera ray may be: determined by two sub-cell
/// jitters, a lens-disk sample (zero for a pinhole camera) and a time
/// draw.
pub open spec fn camera_ray_ok(cam: Camera, i: int, j: int, s_i: int, s_j: int, r: Ray) -> bool {
    exists|ux: Fx, uy: Fx, lp: Vec3, time: Fx|
        #![trigger jitters(ux, uy), lens_sample(lp), timed(time)]
        {
            &&& jitters(ux, uy)
            &&& lens_sample(lp)
            &&& timed(time)
            &&& 0 <= ux.0 < SCALE
            &&& 0 <= uy.0 < SCALE
            &&& 0 <= time.0 < SCALE
            &&& (cam.defocus_disk is Some ==> vec_in(lp, ONE_RAW as int)
                && crate::math::vec3::len_sq_raw(lp) < SCALE as int && lp.z.0 == 0)
            &&& (cam.defocus_disk is None ==> lp == (Vec3 { x: Fx(0), y: Fx(0), z: Fx(0) }))
            &&& r == spec_camera_ray(
                cam,
                i,
                j,
                spec_strat_offset(cam, s_i, s_j, ux, uy),
                lp,
                time,
            )
        }
}

/// Two sample sequences that agree on a prefix accumulate alike over it.
proof fn lemma_accum_agrees(a: Seq<Color>, b: Seq<Color>, n: int)
    requires
        forall|j: int| 0 <= j < n ==> a[j] == b[j],
    ensures
        spec_accum(a, n) == spec_accum(b, n),
    decreases n,
{
    if n > 0 {
        lemma_accum_agrees(a, b, n - 1);
    }
}

/// The decimal digits of a side length.
pub open spec fn spec_usize_chars(n: int) -> Seq<char> {
    if n < 10 {
        seq![crate::color::digit_char(n)]
    } else if n < 100 {
        seq![crate::color::digit_char(n / 10), crate::color::digit_char(n % 10)]
    } else if n < 1000 {
        seq![
            crate::color::digit_char(n / 100),
            crate::color::digit_char((n / 10) % 10),
            crate::color::digit_char(n % 10),
        ]
    } else {
        seq![
            crate::color::digit_char(n / 1000),
            crate::color::digit_char((n / 100) % 10),
            crate::color::digit_char((n / 10) % 10),
            crate::color::digit_char(n % 10),
        ]
    }
}

/// The raster header: the magic line, the two sides, and the channel
/// maximum.
pub open spec fn spec_ppm_header(w: int, h: int) -> Seq<char> {
    seq!['P', '3', '\n'] + spec_usize_chars(w) + seq![' '] + spec_usize_chars(h) + seq![
        '\n',
        '2',
        '5',
        '5',
        '\n',
    ]
}

/// The first `n` pixel lines of the raster.
pub open spec fn spec_ppm_pixels(pix: Seq<Color>, n: int) -> Seq<char>
    decreases n,
{
    if n <= 0 {
        Seq::<char>::empty()
    } else {
        spec_ppm_pixels(pix, n - 1) + spec_pixel_chars(pix[n - 1]) + seq!['\n']
    }
}

/// The whole output is the header and one line per pixel, top row first,
/// each pixel consistent with its own viewport rays: entry k is pixel
/// (k % image_width, k / image_width).
pub open spec fn render_output_ok<'a>(c: Camera, world: Hittable, out: Seq<char>) -> bool {
    exists|pix: Seq<Color>|
        #[trigger] pixels_of(pix) && {
            &&& pix.len() == (c.image_width as int) * (c.image_height as int)
            &&& forall|k: int|
                0 <= k < pix.len() ==> pixel_ok(
                    c,
                    world,
                    k % (c.image_width as int),
                    k / (c.image_width as int),
                    #[trigger] pix[k],
                )
            &&& out == spec_ppm_header(c.image_width as int, c.image_height as int)
                + spec_ppm_pixels(pix, pix.len() as int)
        }
}

/// Two pixel sequences that agree on a prefix serialize alike over it.
proof fn lemma_ppm_agrees(a: Seq<Color>, b: Seq<Color>, n: int)
    requires
        forall|j: int| 0 <= j < n ==> a[j] == b[j],
    ensures
        spec_ppm_pixels(a, n) == spec_ppm_pixels(b, n),
    decreases n,
{
    if n > 0 {
        lemma_ppm_agrees(a, b, n - 1);
    }
}

impl Camera {
    /// The starting builder.
    pub fn builder() -> (r: CameraParamsBuilder)
        ensures
            r.look_from is None,
    {
        CameraParamsBuilder::new()
    }

    /// A random point within the stratified sub-pixel cell.
    fn sample_square_stratified(&self, s_i: usize, s_j: usize, rng: &mut RandomSource) -> (r: Vec3)
        requires
            cam_wf(*self),
            s_i < self.sqrt_spp,
            s_j < self.sqrt_spp,
        ensures
            vec_in(r, 60825600),
            r.z.0 == 0,
            exists|ux: Fx, uy: Fx|
                #![trigger jitters(ux, uy)]
                jitters(ux, uy) && 0 <= ux.0 < SCALE && 0 <= uy.0 < SCALE && r
                    == spec_strat_offset(*self, s_i as int, s_j as int, ux, uy),
    {
        let ux = rng.next_unit();
        let uy = rng.next_unit();
        proof {
            crate::fx::lemma_fxmul_mag(
                (s_i as i128 * SCALE + ux.0) as int,
                self.recip_sqrt_spp.0 as int,
                59904000,
                921600,
            );
            crate::fx::lemma_fxmul_mag(
                (s_j as i128 * SCALE + uy.0) as int,
                self.recip_sqrt_spp.0 as int,
                59904000,
                921600,
            );
        }
        let px = Fx(s_i as i128 * SCALE + ux.0).mul(self.recip_sqrt_spp).sub(Fx(460800));
        let py = Fx(s_j as i128 * SCALE + uy.0).mul(self.recip_sqrt_spp).sub(Fx(460800));
        let r = Vec3 { x: px, y: py, z: Fx(0) };
        proof {
            assert(jitters(ux, uy));
            assert(r == spec_strat_offset(*self, s_i as int, s_j as int, ux, uy));
        }
        r
    }

    /// One camera ray for the pixel and sub-cell: jittered within the
    /// cell, from the lens disk if there is one, at a fresh time sample.
    /// A pathological geometry falls back to the canonical forward ray.
    fn get_ray(&self, i: usize, j: usize, s_i: usize, s_j: usize, rng: &mut RandomSource) -> (r:
        Ray)
        requires
            cam_wf(*self),
            i < self.image_width,
            j < self.image_height,
            s_i < self.sqrt_spp,
            s_j < self.sqrt_spp,
        ensures
            ray_within(r, PMAX as int, DMAX as int),
            0 <= r.time.0 < SCALE,
            camera_ray_ok(*self, i as int, j as int, s_i as int, s_j as int, r),
    {
        let offset = self.sample_square_stratified(s_i, s_j, rng);
        let fi = Fx(i as i128 * SCALE + offset.x.0);
        let fj = Fx(j as i128 * SCALE + offset.y.0);
        proof {
            crate::fx::lemma_fxmul_mag(fi.0 as int, self.pixel_delta_u.x.0 as int, 3835762176, 536870912);
            crate::fx::lemma_fxmul_mag(fi.0 as int, self.pixel_delta_u.y.0 as int, 3835762176, 536870912);
            crate::fx::lemma_fxmul_mag(fi.0 as int, self.pixel_delta_u.z.0 as int, 3835762176, 536870912);
            crate::fx::lemma_fxmul_mag(fj.0 as int, self.pixel_delta_v.x.0 as int, 3835762176, 536870912);
            crate::fx::lemma_fxmul_mag(fj.0 as int, self.pixel_delta_v.y.0 as int, 3835762176, 536870912);
            crate::fx::lemma_fxmul_mag(fj.0 as int, self.pixel_delta_v.z.0 as int, 3835762176, 536870912);
        }
        let du = Vec3 {
            x: fi.mul(self.pixel_delta_u.x),
            y: fi.mul(self.pixel_delta_u.y),
            z: fi.mul(self.pixel_delta_u.z),
        };
        let dv = Vec3 {
            x: fj.mul(self.pixel_delta_v.x),
            y: fj.mul(self.pixel_delta_v.y),
            z: fj.mul(self.pixel_delta_v.z),
        };
        let pixel_sample = self.pixel00_loc.add_vec(du).add_vec(dv);
        let mut lens_point = Vec3 { x: Fx(0), y: Fx(0), z: Fx(0) };
        let ray_origin = match &self.defocus_disk {
            Option::Some(d) => {
                let p = Vec3::random_in_unit_disk(rng);
                lens_point = p;
                proof {
                    crate::fx::lemma_fxmul_mag(p.x.0 as int, d.u.x.0 as int, 921600, 67108864);
                    crate::fx::lemma_fxmul_mag(p.x.0 as int, d.u.y.0 as int, 921600, 67108864);
                    crate::fx::lemma_fxmul_mag(p.x.0 as int, d.u.z.0 as int, 921600, 67108864);
                    crate::fx::lemma_fxmul_mag(p.y.0 as int, d.v.x.0 as int, 921600, 67108864);
                    crate::fx::lemma_fxmul_mag(p.y.0 as int, d.v.y.0 as int, 921600, 67108864);
                    crate::fx::lemma_fxmul_mag(p.y.0 as int, d.v.z.0 as int, 921600, 67108864);
                }
                let ou = Vec3 { x: p.x.mul(d.u.x), y: p.x.mul(d.u.y), z: p.x.mul(d.u.z) };
                let ov = Vec3 { x: p.y.mul(d.v.x), y: p.y.mul(d.v.y), z: p.y.mul(d.v.z) };
                self.center.add_vec(ou).add_vec(ov)
            },
            Option::None => self.center,
        };
        let dir = Vec3 {
            x: Fx(pixel_sample.0.x.0 - ray_origin.0.x.0),
            y: Fx(pixel_sample.0.y.0 - ray_origin.0.y.0),
            z: Fx(pixel_sample.0.z.0 - ray_origin.0.z.0),
        };
        let ray_time = rng.next_unit();
        let sample_ok = -PMAX <= pixel_sample.0.x.0 && pixel_sample.0.x.0 <= PMAX && -PMAX
            <= pixel_sample.0.y.0 && pixel_sample.0.y.0 <= PMAX && -PMAX <= pixel_sample.0.z.0
            && pixel_sample.0.z.0 <= PMAX;
        let dir_ok = -DMAX <= dir.x.0 && dir.x.0 <= DMAX && -DMAX <= dir.y.0 && dir.y.0 <= DMAX
            && -DMAX <= dir.z.0 && dir.z.0 <= DMAX;
        let built = if sample_ok && dir_ok {
            Ray::new(ray_origin, dir, ray_time)
        } else {
            Ray::new(self.center, Vec3 { x: Fx(0), y: Fx(0), z: Fx(-ONE_RAW) }, ray_time)
        };
        proof {
            let (ux, uy) = choose|ux: Fx, uy: Fx|
                #![trigger jitters(ux, uy)]
                jitters(ux, uy) && 0 <= ux.0 < SCALE && 0 <= uy.0 < SCALE && offset
                    == spec_strat_offset(
                    *self,
                    s_i as int,
                    s_j as int,
                    ux,
                    uy,
                );
            assert(jitters(ux, uy));
            assert(lens_sample(lens_point));
            assert(timed(ray_time));
            assert(built == spec_camera_ray(
                *self,
                i as int,
                j as int,
                spec_strat_offset(*self, s_i as int, s_j as int, ux, uy),
                lens_point,
                ray_time,
            ));
        }
        built
    }

    /// The radiance arriving along a ray: black at the depth cutoff, the
    /// background on a miss, and otherwise the hit material's emission
    /// plus its filtered recursive scatter, clamped to the radiance cap.
    pub fn ray_color(&self, r: &Ray, depth: u32, world: &Hittable, rng: &mut RandomSource) -> (c:
        Color)
        requires
            cam_wf(*self),
            hittable_wf(*world),
            ray_within(*r, PMAX as int, DMAX as int),
        ensures
            vec_in(c.0, 2199023255552),
            radiance_ok(*self, *r, depth as int, *world, c),
        decreases depth,
    {
        if depth == 0 {
            return Color::black();
        }
        let cut = Interval { min: ExtFx::Fin(Fx(922)), max: ExtFx::PosInf };
        let hres = world.hit(r, &cut, rng);
        proof {
            assert(probed(hres));
            assert(cut == spec_ray_cut());
        }
        match hres {
            Option::None => self.background,
            Option::Some(hr) => {
                let color_from_emission = hr.material.emit(&hr);
                let scattered = hr.material.scatter(r, &hr, rng);
                match scattered {
                    Option::None => {
                        proof {
                            assert(weighed(scattered, color_from_emission));
                        }
                        color_from_emission
                    },
                    Option::Some(s) => {
                        let rec = self.ray_color(&s.ray, depth - 1, world, rng);
                        proof {
                            crate::fx::lemma_fxmul_mag(
                                s.attenuation.0.x.0 as int,
                                rec.0.x.0 as int,
                                1073741824,
                                2199023255552,
                            );
                            crate::fx::lemma_fxmul_mag(
                                s.attenuation.0.y.0 as int,
                                rec.0.y.0 as int,
                                1073741824,
                                2199023255552,
                            );
                            crate::fx::lemma_fxmul_mag(
                                s.attenuation.0.z.0 as int,
                                rec.0.z.0 as int,
                                1073741824,
                                2199023255552,
                            );
                        }
                        let filtered = Color(
                            Vec3 {
                                x: cap_radiance(s.attenuation.0.x.mul(rec.0.x)),
                                y: cap_radiance(s.attenuation.0.y.mul(rec.0.y)),
                                z: cap_radiance(s.attenuation.0.z.mul(rec.0.z)),
                            },
                        );
                        let shaded = color_from_emission.add(filtered);
                        proof {
                            assert(weighed(scattered, rec));
                            assert(shaded == spec_shaded(
                                color_from_emission,
                                s.attenuation,
                                rec,
                            ));
                        }
                        shaded
                    },
                }
            },
        }
    }

    /// One pixel's color: the average of the stratified sample rays.
    fn render_pixel(&self, world: &Hittable, i: usize, j: usize, seed: u64) -> (c: Color)
        requires
            cam_wf(*self),
            hittable_wf(*world),
            i < self.image_width,
            j < self.image_height,
        ensures
            vec_in(c.0, 1267650600228229401496703205376),
            pixel_ok(*self, *world, i as int, j as int, c),
    {
        let mix = seed ^ ((j as u64).wrapping_mul(1099511628211u64)).wrapping_add(i as u64);
        let mut rng = RandomSource::from_seed(mix);
        let ghost mut samples: Seq<Color> = Seq::empty();
        let mut acc = Color::black();
        let mut s_j: usize = 0;
        while s_j < self.sqrt_spp
            invariant
                cam_wf(*self),
                hittable_wf(*world),
                i < self.image_width,
                j < self.image_height,
                s_j <= self.sqrt_spp,
                vec_in(acc.0, 1099511627776),
                s_j <= 64,
                samples.len() == s_j * self.sqrt_spp,
                forall|k: int|
                    0 <= k < samples.len() ==> sample_ok(
                        *self,
                        *world,
                        i as int,
                        j as int,
                        k % (self.sqrt_spp as int),
                        k / (self.sqrt_spp as int),
                        #[trigger] samples[k],
                    ),
                acc == spec_accum(samples, samples.len() as int),
            decreases self.sqrt_spp - s_j,
        {
            let mut s_i: usize = 0;
            while s_i < self.sqrt_spp
                invariant
                    cam_wf(*self),
                    hittable_wf(*world),
                    i < self.image_width,
                    j < self.image_height,
                    s_j < self.sqrt_spp,
                    s_i <= self.sqrt_spp,
                    vec_in(acc.0, 1099511627776),
                    samples.len() == s_j * self.sqrt_spp + s_i,
                    forall|k: int|
                        0 <= k < samples.len() ==> sample_ok(
                            *self,
                            *world,
                            i as int,
                            j as int,
                            k % (self.sqrt_spp as int),
                            k / (self.sqrt_spp as int),
                            #[trigger] samples[k],
                        ),
                    acc == spec_accum(samples, samples.len() as int),
                decreases self.sqrt_spp - s_i,
            {
                let ray = self.get_ray(i, j, s_i, s_j, &mut rng);
                let sample = self.ray_color(&ray, self.max_depth, world, &mut rng);
                let capped = Color(
                    Vec3 {
                        x: cap_radiance(acc.0.x.add(sample.0.x)),
                        y: cap_radiance(acc.0.y.add(sample.0.y)),
                        z: cap_radiance(acc.0.z.add(sample.0.z)),
                    },
                );
                proof {
                    assert(ray_probed(ray));
                    let prev = samples;
                    samples = samples.push(sample);
                    lemma_accum_agrees(prev, samples, prev.len() as int);
                    vstd::arithmetic::div_mod::lemma_fundamental_div_mod_converse(
                        prev.len() as int,
                        self.sqrt_spp as int,
                        s_j as int,
                        s_i as int,
                    );
                    assert forall|k: int| 0 <= k < samples.len() implies sample_ok(
                        *self,
                        *world,
                        i as int,
                        j as int,
                        k % (self.sqrt_spp as int),
                        k / (self.sqrt_spp as int),
                        #[trigger] samples[k],
                    ) by {
                        if k < prev.len() {
                            assert(samples[k] == prev[k]);
                        } else {
                            assert(samples[k] == sample);
                            assert(k % (self.sqrt_spp as int) == s_i as int);
                            assert(k / (self.sqrt_spp as int) == s_j as int);
                        }
                    }
                }
                acc = capped;
                s_i = s_i + 1;
            }
            proof {
                assert(s_j * self.sqrt_spp + self.sqrt_spp == (s_j + 1) * self.sqrt_spp)
                    by (nonlinear_arith);
            }
            s_j = s_j + 1;
        }
        proof {
            assert(samples.len() == (self.sqrt_spp as int) * (self.sqrt_spp as int))
                by (nonlinear_arith)
                requires
                    samples.len() == (self.sqrt_spp as int) * (self.sqrt_spp as int),
            ;
            assert(samples_of(samples));
            crate::fx::lemma_fxmul_mag(
                self.pixel_samples_scale.0 as int,
                acc.0.x.0 as int,
                921600,
                1099511627776,
            );
            crate::fx::lemma_fxmul_mag(
                self.pixel_samples_scale.0 as int,
                acc.0.y.0 as int,
                921600,
                1099511627776,
            );
            crate::fx::lemma_fxmul_mag(
                self.pixel_samples_scale.0 as int,
                acc.0.z.0 as int,
                921600,
                1099511627776,
            );
        }
        let averaged = Color(
            Vec3 {
                x: self.pixel_samples_scale.mul(acc.0.x),
                y: self.pixel_samples_scale.mul(acc.0.y),
                z: self.pixel_samples_scale.mul(acc.0.z),
            },
        );
        proof {
            assert(averaged == spec_scaled(
                self.pixel_samples_scale,
                spec_accum(samples, samples.len() as int),
            ));
        }
        averaged
    }

    /// Render the scene to a plain-text raster: the header, then one line
    /// per pixel in row-major order, top row first.  The given seed fixes
    /// every random draw, so equal seeds give equal images.
    pub fn render(&self, world: &Hittable, seed: u64) -> (out: String)
        requires
            cam_wf(*self),
            hittable_wf(*world),
        ensures
            render_output_ok(*self, *world, out@),
    {
        let mut out = String::new();
        out.append("P3\n");
        let wtext = usize_text(self.image_width);
        out.append(wtext.as_str());
        out.append(" ");
        let htext = usize_text(self.image_height);
        out.append(htext.as_str());
        out.append("\n255\n");
        proof {
            reveal_strlit("P3\n");
            reveal_strlit(" ");
            reveal_strlit("\n255\n");
            assert(out@ =~= spec_ppm_header(
                self.image_width as int,
                self.image_height as int,
            ));
        }
        let ghost header = out@;
        let ghost mut pix: Seq<Color> = Seq::empty();
        let w = self.image_width;
        let h = self.image_height;
        let mut j: usize = 0;
        while j < h
            invariant
                cam_wf(*self),
                hittable_wf(*world),
                w == self.image_width,
                h == self.image_height,
                j <= h,
                pix.len() == j * w,
                forall|k: int|
                    0 <= k < pix.len() ==> pixel_ok(
                        *self,
                        *world,
                        k % (w as int),
                        k / (w as int),
                        #[trigger] pix[k],
                    ),
                out@ == header + spec_ppm_pixels(pix, pix.len() as int),
            decreases h - j,
        {
            let mut i: usize = 0;
            while i < w
                invariant
                    cam_wf(*self),
                    hittable_wf(*world),
                    w == self.image_width,
                    h == self.image_height,
                    j < h,
                    i <= w,
                    pix.len() == j * w + i,
                    forall|k: int|
                        0 <= k < pix.len() ==> pixel_ok(
                            *self,
                            *world,
                            k % (w as int),
                            k / (w as int),
                            #[trigger] pix[k],
                        ),
                    out@ == header + spec_ppm_pixels(pix, pix.len() as int),
                decreases w - i,
            {
                let color = self.render_pixel(world, i, j, seed);
                let line = color.pixel_text();
                out.append(line.as_str());
                out.append("\n");
                proof {
                    reveal_strlit("\n");
                    let prev = pix;
                    pix = pix.push(color);
                    lemma_ppm_agrees(prev, pix, prev.len() as int);
                    assert(spec_ppm_pixels(pix, pix.len() as int) == spec_ppm_pixels(
                        prev,
                        prev.len() as int,
                    ) + spec_pixel_chars(color) + seq!['\n']);
                    assert(out@ =~= header + spec_ppm_pixels(pix, pix.len() as int));
                    vstd::arithmetic::div_mod::lemma_fundamental_div_mod_converse(
                        prev.len() as int,
                        w as int,
                        j as int,
                        i as int,
                    );
                    assert forall|k: int| 0 <= k < pix.len() implies pixel_ok(
                        *self,
                        *world,
                        k % (w as int),
                        k / (w as int),
                        #[trigger] pix[k],
                    ) by {
                        if k < prev.len() {
                            assert(pix[k] == prev[k]);
                        } else {
                            assert(pix[k] == color);
                            assert(k % (w as int) == i as int);
                            assert(k / (w as int) == j as int);
                        }
                    }
                }
                i = i + 1;
            }
            proof {
                assert(j * w + w == (j + 1) * w) by (nonlinear_arith);
            }
            j = j + 1;
        }
        proof {
            assert(pixels_of(pix));
            assert(pix.len() == (self.image_width as int) * (self.image_height as int))
                by (nonlinear_arith)
                requires
                    pix.len() == h * w,
                    w == self.image_width,
                    h == self.image_height,
            ;
        }
        out
    }
}

/// Clamp one radiance channel into the representable cap.
fn cap_radiance(x: Fx) -> (r: Fx)
    requires
        -1267650600228229401496703205376 <= x.0 <= 1267650600228229401496703205376,
    ensures
        -RADCAP <= r.0 <= RADCAP,
        r.0 == spec_cap(x.0 as int),
{
    if x.0 < -RADCAP {
        Fx(-RADCAP)
    } else if x.0 > RADCAP {
        Fx(RADCAP)
    } else {
        x
    }
}

/// The decimal text of a side length.
fn usize_text(n: usize) -> (s: String)
    requires
        n < 10000,
    ensures
        s@ == spec_usize_chars(n as int),
{
    let mut s = String::new();
    if n >= 1000 {
        let d1 = crate::color::digit_str((n / 1000) as u8);
        let d2 = crate::color::digit_str(((n / 100) % 10) as u8);
        let d3 = crate::color::digit_str(((n / 10) % 10) as u8);
        let d4 = crate::color::digit_str((n % 10) as u8);
        s.append(d1);
        s.append(d2);
        s.append(d3);
        s.append(d4);
    } else if n >= 100 {
        let d1 = crate::color::digit_str((n / 100) as u8);
        let d2 = crate::color::digit_str(((n / 10) % 10) as u8);
        let d3 = crate::color::digit_str((n % 10) as u8);
        s.append(d1);
        s.append(d2);
        s.append(d3);
    } else if n >= 10 {
        let d1 = crate::color::digit_str((n / 10) as u8);
        let d2 = crate::color::digit_str((n % 10) as u8);
        s.append(d1);
        s.append(d2);
    } else {
        let d1 = crate::color::digit_str(n as u8);
        s.append(d1);
    }
    s
}

} // verus!
