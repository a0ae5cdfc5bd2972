//! A constant-density participating medium inside a boundary shape.

use vstd::prelude::*;

verus! {

use crate::fx::{fxdiv, fxmul, spec_neg_ln, Fx, DMAX, ONE_RAW, PMAX, SCALE, TLIM};
use crate::hittables::{hit_ok, hittable_wf, hr_from, hr_wf, HitRecord, Hittable};
use crate::material::{mat_wf, Material};
use crate::math::interval::{ExtFx, Interval};
use crate::math::point3::{point_in, Point3};
use crate::math::ray::{ray_within, Ray};
use crate::math::vec3::{len_raw, vec_in, Vec3};
use crate::rng::RandomSource;
use crate::texture::TextureCoords;

/// The gap forced between the entry probe and the exit probe.
pub const MEDIUM_EPS: i128 = 92;

/// A fog volume: a boundary shape, a density, and the phase function the
/// scattered light follows.
pub struct ConstantMedium {
    pub boundary: Box<Hittable>,
    pub density: Fx,
    pub phase_function: Material,
}

/// What a medium query may return: entry and exit probes of the boundary,
/// then an exponential free-flight distance drawn against the segment
/// inside; a draw past the segment passes through.
pub open spec fn medium_hit_ok<'a>(
    c: ConstantMedium,
    r: Ray,
    ray_t: Interval,
    res: Option<HitRecord<'a>>,
) -> bool
    decreases *c.boundary, 1int,
{
    exists|e: Option<HitRecord<'a>>, u: int|
        #![trigger crate::hittables::probed(e), crate::material::spec_draw(u)]
        {
            &&& hit_ok(
                *c.boundary,
                r,
                Interval { min: ExtFx::NegInf, max: ExtFx::PosInf },
                e,
            )
            &&& 0 <= crate::material::spec_draw(u) < SCALE as int
            &&& match e {
                Option::None => res is None,
                Option::Some(eh) => exists|x: Option<HitRecord<'a>>|
                    {
                        &&& #[trigger] crate::hittables::probed(x)
                        &&& hit_ok(
                            *c.boundary,
                            r,
                            Interval {
                                min: ExtFx::Fin(Fx((eh.t.0 + MEDIUM_EPS) as i128)),
                                max: ExtFx::PosInf,
                            },
                            x,
                        )
                        &&& match x {
                            Option::None => res is None,
                            Option::Some(xh) => medium_sample_ok(
                                c,
                                r,
                                ray_t,
                                eh.t.0 as int,
                                xh.t.0 as int,
                                u,
                                res,
                            ),
                        }
                    },
            }
        }
}

/// The sampling step once entry and exit distances are known.
pub open spec fn medium_sample_ok<'a>(
    c: ConstantMedium,
    r: Ray,
    ray_t: Interval,
    entry0: int,
    exit0: int,
    u: int,
    res: Option<HitRecord<'a>>,
) -> bool {
    let entry1 = clamp_lo(entry0, ray_t.min);
    let exit1 = clamp_hi(exit0, ray_t.max);
    if ray_t.min == ExtFx::PosInf || ray_t.max == ExtFx::NegInf || entry1 >= exit1 {
        res is None
    } else {
        let entry = if entry1 < 0 {
            0
        } else {
            entry1
        };
        let rl = len_raw(r.spec_direction());
        if rl == 0 || u == 0 {
            res is None
        } else {
            let distance_inside = fxmul(exit1 - entry, rl);
            let hit_distance = fxmul(fxdiv(ONE_RAW as int, c.density.0 as int), spec_neg_ln(u));
            if hit_distance > distance_inside {
                res is None
            } else {
                let t = entry + fxdiv(hit_distance, rl);
                if !(-TLIM <= t <= TLIM) {
                    res is None
                } else {
                    let px = r.spec_origin().0.x.0 + fxmul(t, r.spec_direction().x.0 as int);
                    let py = r.spec_origin().0.y.0 + fxmul(t, r.spec_direction().y.0 as int);
                    let pz = r.spec_origin().0.z.0 + fxmul(t, r.spec_direction().z.0 as int);
                    let p = Point3(
                        Vec3 { x: Fx(px as i128), y: Fx(py as i128), z: Fx(pz as i128) },
                    );
                    if !point_in(p, PMAX as int) {
                        res is None
                    } else {
                        res matches Some(hr) && hr_from(
                            hr,
                            Fx(t as i128),
                            p,
                            r,
                            Vec3 { x: Fx(ONE_RAW), y: Fx(0), z: Fx(0) },
                            c.phase_function,
                            TextureCoords { u: Fx(0), v: Fx(0) },
                        )
                    }
                }
            }
        }
    }
}

/// A distance raised to a finite lower window end.
pub open spec fn clamp_lo(t: int, lo: ExtFx) -> int {
    match lo {
        ExtFx::Fin(m) => if m.0 > t {
            m.0 as int
        } else {
            t
        },
        _ => t,
    }
}

/// A distance lowered to a finite upper window end.
pub open spec fn clamp_hi(t: int, hi: ExtFx) -> int {
    match hi {
        ExtFx::Fin(m) => if m.0 < t {
            m.0 as int
        } else {
            t
        },
        _ => t,
    }
}

impl ConstantMedium {
    /// A medium of the given density inside the boundary, scattering
    /// isotropically with the texture's tint.
    pub fn new(boundary: Hittable, density: Fx, texture: crate::texture::Texture) -> (r:
        ConstantMedium)
        requires
            hittable_wf(boundary),
            1 <= density.0 <= crate::fx::DIVIN,
            crate::texture::tex_wf(texture),
        ensures
            hittable_wf(Hittable::ConstantMedium(r)),
            *r.boundary == boundary,
            r.density == density,
            r.phase_function == Material::Isotropic(crate::material::Isotropic { texture }),
    {
        ConstantMedium {
            boundary: Box::new(boundary),
            density,
            phase_function: Material::Isotropic(crate::material::Isotropic { texture }),
        }
    }

    /// Query the medium: probe the boundary for entry and exit, then draw
    /// a free-flight distance against the segment inside.
    pub fn hit<'a>(
        &'a self,
        r: &Ray,
        ray_bounds: &Interval,
        rng: &mut RandomSource,
    ) -> (res: Option<HitRecord<'a>>)
        requires
            hittable_wf(Hittable::ConstantMedium(*self)),
            ray_within(*r, PMAX as int, DMAX as int),
        ensures
            medium_hit_ok(*self, *r, *ray_bounds, res),
            res matches Some(h) ==> hr_wf(h),
        decreases *self,
    {
        let u_draw = rng.next_unit();
        proof {
            assert(crate::material::spec_draw(u_draw.0 as int) == u_draw.0 as int);
        }
        let universe_iv = Interval::universe();
        proof {
            assert(universe_iv == (Interval { min: ExtFx::NegInf, max: ExtFx::PosInf }));
        }
        let entry = self.boundary.hit(r, &universe_iv, rng);
        proof {
            assert(crate::hittables::probed(entry));
        }
        let eh = match entry {
            Option::None => {
                return None;
            },
            Option::Some(eh) => eh,
        };
        let exit = self.boundary.hit(
            r,
            &Interval { min: ExtFx::Fin(Fx(eh.t.0 + MEDIUM_EPS)), max: ExtFx::PosInf },
            rng,
        );
        proof {
            assert(crate::hittables::probed(exit));
        }
        let xh = match exit {
            Option::None => {
                return None;
            },
            Option::Some(xh) => xh,
        };
        let entry1: i128 = match ray_bounds.min {
            ExtFx::Fin(m) => if m.0 > eh.t.0 {
                m.0
            } else {
                eh.t.0
            },
            ExtFx::NegInf => eh.t.0,
            ExtFx::PosInf => {
                return None;
            },
        };
        let exit1: i128 = match ray_bounds.max {
            ExtFx::Fin(m) => if m.0 < xh.t.0 {
                m.0
            } else {
                xh.t.0
            },
            ExtFx::NegInf => {
                return None;
            },
            ExtFx::PosInf => xh.t.0,
        };
        if entry1 >= exit1 {
            return None;
        }
        let entry2 = if entry1 < 0 {
            0i128
        } else {
            entry1
        };
        proof {
            crate::math::vec3::lemma_dot_mag(
                r.spec_direction(),
                r.spec_direction(),
                DMAX as int,
                DMAX as int,
            );
        }
        let ray_length = r.direction().length();
        if ray_length.0 == 0 || u_draw.0 == 0 {
            return None;
        }
        proof {
            crate::math::vec3::lemma_dot_self_nonneg(r.spec_direction());
            vstd::arithmetic::mul::lemma_mul_nonnegative(
                crate::math::vec3::len_sq_raw(r.spec_direction()),
                SCALE as int,
            );
            crate::fx::lemma_isqrt_le_of_sq(
                crate::math::vec3::len_sq_raw(r.spec_direction()) * SCALE,
                68719476736,
            );
            crate::fx::lemma_fxmul_mag(exit1 - entry2, ray_length.0 as int, 4398046511104, 68719476736);
            crate::fx::lemma_tdiv_abs_le((ONE_RAW as int) * SCALE, self.density.0 as int);
        }
        let distance_inside_boundary = Fx(exit1 - entry2).mul(ray_length);
        let inv_density = Fx(ONE_RAW).div(self.density);
        let nl = u_draw.neg_ln();
        proof {
            crate::fx::lemma_fxmul_mag(
                inv_density.0 as int,
                nl.0 as int,
                849346560000,
                13824000,
            );
        }
        let hit_distance = inv_density.mul(nl);
        if hit_distance.0 > distance_inside_boundary.0 {
            return None;
        }
        proof {
            crate::fx::lemma_tdiv_abs_le(hit_distance.0 * SCALE, ray_length.0 as int);
        }
        let t = Fx(entry2).add(hit_distance.div(ray_length));
        if !(-TLIM <= t.0 && t.0 <= TLIM) {
            return None;
        }
        let p = r.at(t);
        let p_in = -PMAX <= p.0.x.0 && p.0.x.0 <= PMAX && -PMAX <= p.0.y.0 && p.0.y.0 <= PMAX
            && -PMAX <= p.0.z.0 && p.0.z.0 <= PMAX;
        if !p_in {
            return None;
        }
        Some(
            HitRecord::new(
                t,
                p,
                r,
                Vec3 { x: Fx(ONE_RAW), y: Fx(0), z: Fx(0) },
                &self.phase_function,
                TextureCoords { u: Fx(0), v: Fx(0) },
            ),
        )
    }
}

} // verus!
