//! Materials: how surfaces scatter and emit light.

use vstd::prelude::*;

verus! {

use crate::color::Color;
use crate::fx::{fxdiv, fxmul, fxsqrt, Fx, DMAX, ONE_RAW, PMAX, SCALE};
use crate::hittables::HitRecord;
use crate::math::point3::{point_in, Point3};
use crate::math::ray::Ray;
use crate::math::vec3::{
    add_vv, dot_raw, is_vadd, normalized_vv, reflect_vv, refract_vv, scale_vv, vec_in, Vec3, NMAX,
};
use crate::rng::RandomSource;
use crate::texture::{spec_texture_value, tc_wf, tex_wf, Texture, TextureCoords, TEXMAX};

/// Smallest raw refraction index accepted: one hundredth.  Together
/// with the upper end this covers every physically sensible medium
/// (glass sits near one and a half) while keeping the inverted index
/// within the refraction routine's range.
pub const RI_MIN: i128 = 9216;

/// Largest raw refraction index accepted: one hundred.
pub const RI_MAX: i128 = 92160000;

/// A surface's optical behaviour.
pub enum Material {
    Lambertian(Lambertian),
    Metal(Metal),
    Dielectric(Dielectric),
    DiffuseLight(DiffuseLight),
    Isotropic(Isotropic),
}

/// Diffuse reflection with a texture-backed albedo.
pub struct Lambertian {
    pub texture: Texture,
}

/// Mirror reflection with a rough perturbation; the fuzz radius lies in
/// the unit interval, the physically meaningful range for perturbing a
/// unit reflection.
pub struct Metal {
    pub albedo: Color,
    pub fuzz: Fx,
}

/// A clear medium that refracts and reflects, never absorbs.
pub struct Dielectric {
    pub refraction_index: Fx,
}

/// A surface that only emits its texture's color.
pub struct DiffuseLight {
    pub texture: Texture,
}

/// The phase function of a medium: scattering in a uniform direction.
pub struct Isotropic {
    pub texture: Texture,
}

/// An outgoing ray together with the color filter applied to it.
pub struct ScatteredRay {
    pub attenuation: Color,
    pub ray: Ray,
}

/// Structural soundness of a material's stored values.
pub open spec fn mat_wf(m: Material) -> bool {
    match m {
        Material::Lambertian(l) => tex_wf(l.texture),
        Material::Metal(me) => vec_in(me.albedo.0, TEXMAX as int) && 0 <= me.fuzz.0 <= SCALE,
        Material::Dielectric(d) => RI_MIN <= d.refraction_index.0 <= RI_MAX,
        Material::DiffuseLight(dl) => tex_wf(dl.texture),
        Material::Isotropic(i) => tex_wf(i.texture),
    }
}

/// A value the unit-direction sampler can yield.
pub open spec fn is_unit_sample(u: Vec3) -> bool {
    vec_in(u, NMAX as int) && !(u.x.0 == 0 && u.y.0 == 0 && u.z.0 == 0)
}

/// The diffuse scatter direction: the normal plus a unit sample, with the
/// normal alone standing in when the sum cancels to zero.
pub open spec fn diffuse_dir_ok(n: Vec3, u: Vec3, d: Vec3) -> bool {
    if n.x.0 + u.x.0 == 0 && n.y.0 + u.y.0 == 0 && n.z.0 + u.z.0 == 0 {
        d == n
    } else {
        is_vadd(d, n, u)
    }
}

/// What a scattered ray must satisfy regardless of variant.
pub open spec fn scattered_frame_ok(s: ScatteredRay, p: Point3, time: Fx) -> bool {
    &&& s.ray.spec_origin() == p
    &&& s.ray.spec_time() == time
    &&& vec_in(s.ray.spec_direction(), DMAX as int)
    &&& vec_in(s.attenuation.0, TEXMAX as int)
}

/// Diffuse scattering: always scatters, tinted by the texture.
pub open spec fn lambertian_ok(
    t: Texture,
    rin: Ray,
    p: Point3,
    n: Vec3,
    tc: TextureCoords,
    res: Option<ScatteredRay>,
) -> bool {
    exists|u: Vec3|
        #[trigger] is_unit_sample(u) && (res matches Some(s) && s.attenuation
            == spec_texture_value(t, tc, p) && s.ray.spec_origin() == p && s.ray.spec_time()
            == rin.spec_time() && diffuse_dir_ok(n, u, s.ray.spec_direction()))
}

/// Mirror scattering: the reflection normalized, perturbed by the fuzz,
/// kept only when it still leaves the surface.
pub open spec fn metal_ok(
    albedo: Color,
    fuzz: Fx,
    rin: Ray,
    p: Point3,
    n: Vec3,
    res: Option<ScatteredRay>,
) -> bool {
    exists|u: Vec3|
        #[trigger] is_unit_sample(u) && {
            let nf = normalized_vv(reflect_vv(rin.spec_direction(), n));
            let d = add_vv(nf, scale_vv(fuzz, u));
            if dot_raw(d, n) > 0 {
                res matches Some(s) && s.attenuation == albedo && s.ray.spec_origin() == p
                    && s.ray.spec_time() == rin.spec_time() && s.ray.spec_direction() == d
            } else {
                res is None
            }
        }
}

/// Schlick's approximation of the reflectance at a given cosine.
pub open spec fn spec_reflectance(cos: int, ri: int) -> int {
    let a = fxdiv(SCALE as int - ri, SCALE as int + ri);
    let r0 = fxmul(a, a);
    let p1 = SCALE as int - cos;
    let p5 = fxmul(fxmul(fxmul(p1, p1), fxmul(p1, p1)), p1);
    r0 + fxmul(SCALE as int - r0, p5)
}

/// The capped cosine between the reversed unit direction and the normal.
pub open spec fn diel_cos(ud: Vec3, n: Vec3) -> int {
    crate::math::vec3::refract_cos(ud, n)
}

/// Dielectric scattering: refract unless Snell's law forbids it or the
/// reflectance exceeds the uniform draw, always at full brightness.
pub open spec fn dielectric_ok(
    ri_mat: Fx,
    rin: Ray,
    p: Point3,
    n: Vec3,
    front_face: bool,
    res: Option<ScatteredRay>,
) -> bool {
    let ri = if front_face {
        fxdiv(SCALE as int, ri_mat.0 as int)
    } else {
        ri_mat.0 as int
    };
    exists|x: int|
        {
            let ud = normalized_vv(rin.spec_direction());
            let cos = diel_cos(ud, n);
            let under = SCALE as int - fxmul(cos, cos);
            let sin = fxsqrt(
                if under >= 0 {
                    under
                } else {
                    0
                },
            );
            let cannot_refract = fxmul(ri, sin) > SCALE as int;
            let d = if cannot_refract || spec_reflectance(cos, ri) > x {
                reflect_vv(ud, n)
            } else {
                refract_vv(ud, n, ri)
            };
            &&& 0 <= #[trigger] spec_draw(x) < SCALE as int
            &&& res matches Some(s) && s.attenuation.0.x.0 == SCALE && s.attenuation.0.y.0 == SCALE
                && s.attenuation.0.z.0 == SCALE && s.ray.spec_origin() == p && s.ray.spec_time()
                == rin.spec_time() && s.ray.spec_direction() == d
        }
}

/// A marker for a uniform draw in the unit interval.
pub open spec fn spec_draw(x: int) -> int {
    x
}

/// Isotropic scattering: a uniform unit direction, tinted by the texture.
pub open spec fn isotropic_ok(
    t: Texture,
    rin: Ray,
    p: Point3,
    tc: TextureCoords,
    res: Option<ScatteredRay>,
) -> bool {
    exists|u: Vec3|
        #[trigger] is_unit_sample(u) && (res matches Some(s) && s.attenuation
            == spec_texture_value(t, tc, p) && s.ray.spec_origin() == p && s.ray.spec_time()
            == rin.spec_time() && s.ray.spec_direction() == u)
}

/// Law: diffuse scattering never yields the zero direction when the
/// surface normal is nonzero.
pub proof fn lemma_diffuse_dir_nonzero(n: Vec3, u: Vec3, d: Vec3)
    requires
        is_unit_sample(u),
        diffuse_dir_ok(n, u, d),
        !(n.x.0 == 0 && n.y.0 == 0 && n.z.0 == 0),
    ensures
        !(d.x.0 == 0 && d.y.0 == 0 && d.z.0 == 0),
{
}

/// The full scatter contract, by variant.
pub open spec fn scatter_ok(
    m: Material,
    rin: Ray,
    p: Point3,
    n: Vec3,
    front_face: bool,
    tc: TextureCoords,
    res: Option<ScatteredRay>,
) -> bool {
    match m {
        Material::Lambertian(l) => lambertian_ok(l.texture, rin, p, n, tc, res),
        Material::Metal(me) => metal_ok(me.albedo, me.fuzz, rin, p, n, res),
        Material::Dielectric(di) => dielectric_ok(
            di.refraction_index,
            rin,
            p,
            n,
            front_face,
            res,
        ),
        Material::DiffuseLight(_) => res is None,
        Material::Isotropic(i) => isotropic_ok(i.texture, rin, p, tc, res),
    }
}

/// What a material emits: its texture for a light, black otherwise.
pub open spec fn spec_emit(m: Material, tc: TextureCoords, p: Point3) -> Color {
    match m {
        Material::DiffuseLight(dl) => spec_texture_value(dl.texture, tc, p),
        _ => Color(Vec3 { x: Fx(0), y: Fx(0), z: Fx(0) }),
    }
}

/// Structural equality of two materials, textures compared by contents.
pub open spec fn mat_equiv(a: Material, b: Material) -> bool {
    match (a, b) {
        (Material::Lambertian(x), Material::Lambertian(y)) => crate::texture::tex_equiv(
            x.texture,
            y.texture,
        ),
        (Material::Metal(x), Material::Metal(y)) => x.albedo == y.albedo && x.fuzz == y.fuzz,
        (Material::Dielectric(x), Material::Dielectric(y)) => x.refraction_index
            == y.refraction_index,
        (Material::DiffuseLight(x), Material::DiffuseLight(y)) => crate::texture::tex_equiv(
            x.texture,
            y.texture,
        ),
        (Material::Isotropic(x), Material::Isotropic(y)) => crate::texture::tex_equiv(
            x.texture,
            y.texture,
        ),
        _ => false,
    }
}

/// Contents equality of materials is reflexive.
pub proof fn lemma_mat_equiv_refl(m: Material)
    ensures
        mat_equiv(m, m),
{
    match m {
        Material::Lambertian(l) => crate::texture::lemma_tex_equiv_refl(l.texture),
        Material::DiffuseLight(dl) => crate::texture::lemma_tex_equiv_refl(dl.texture),
        Material::Isotropic(i) => crate::texture::lemma_tex_equiv_refl(i.texture),
        _ => {},
    }
}

impl Lambertian {
    pub fn new(texture: Texture) -> (r: Lambertian)
        ensures
            r.texture == texture,
    {
        Lambertian { texture }
    }
}

impl Metal {
    pub fn new(albedo: Color, fuzz: Fx) -> (r: Metal)
        ensures
            r.albedo == albedo,
            r.fuzz == fuzz,
    {
        Metal { albedo, fuzz }
    }
}

impl Dielectric {
    pub fn new(refraction_index: Fx) -> (r: Dielectric)
        ensures
            r.refraction_index == refraction_index,
    {
        Dielectric { refraction_index }
    }
}

impl DiffuseLight {
    pub fn new(texture: Texture) -> (r: DiffuseLight)
        ensures
            r.texture == texture,
    {
        DiffuseLight { texture }
    }
}

impl Isotropic {
    pub fn new(texture: Texture) -> (r: Isotropic)
        ensures
            r.texture == texture,
    {
        Isotropic { texture }
    }
}

impl Material {
    /// A fresh material equal to this one in contents.
    pub fn duplicate(&self) -> (r: Material)
        ensures
            mat_equiv(r, *self),
            mat_wf(*self) ==> mat_wf(r),
    {
        match self {
            Material::Lambertian(l) => Material::Lambertian(
                Lambertian { texture: l.texture.duplicate() },
            ),
            Material::Metal(me) => Material::Metal(Metal { albedo: me.albedo, fuzz: me.fuzz }),
            Material::Dielectric(d) => Material::Dielectric(
                Dielectric { refraction_index: d.refraction_index },
            ),
            Material::DiffuseLight(dl) => Material::DiffuseLight(
                DiffuseLight { texture: dl.texture.duplicate() },
            ),
            Material::Isotropic(i) => Material::Isotropic(
                Isotropic { texture: i.texture.duplicate() },
            ),
        }
    }

    /// How this material scatters the incoming ray at the hit, drawing any
    /// randomness from `rng`.
    pub fn scatter(
        &self,
        ray_in: &Ray,
        hit_record: &HitRecord<'_>,
        rng: &mut RandomSource,
    ) -> (res: Option<ScatteredRay>)
        requires
            mat_wf(*self),
            point_in(hit_record.p, PMAX as int),
            vec_in(hit_record.normal, NMAX as int),
            tc_wf(hit_record.texture_coords),
            vec_in(ray_in.spec_direction(), DMAX as int),
        ensures
            scatter_ok(
                *self,
                *ray_in,
                hit_record.p,
                hit_record.normal,
                hit_record.front_face,
                hit_record.texture_coords,
                res,
            ),
            res matches Some(s) ==> scattered_frame_ok(s, hit_record.p, ray_in.spec_time()),
    {
        match self {
            Material::Lambertian(l) => {
                let u = Vec3::random_unit_vector(rng);
                let summed = hit_record.normal.add(u);
                let scatter_direction = if summed.near_zero() {
                    hit_record.normal
                } else {
                    summed
                };
                let attenuation = l.texture.value(&hit_record.texture_coords, hit_record.p);
                let ray = Ray::new(hit_record.p, scatter_direction, ray_in.time());
                let s = ScatteredRay { attenuation, ray };
                let result = Some(s);
                proof {
                    assert(is_unit_sample(u) && diffuse_dir_ok(
                        hit_record.normal,
                        u,
                        s.ray.spec_direction(),
                    ));
                    assert(lambertian_ok(
                        l.texture,
                        *ray_in,
                        hit_record.p,
                        hit_record.normal,
                        hit_record.texture_coords,
                        result,
                    ));
                }
                result
            },
            Material::Metal(me) => {
                let rf = crate::math::vec3::reflect(ray_in.direction(), &hit_record.normal);
                proof {
                    crate::math::vec3::lemma_reflect_dir_bounded(
                        ray_in.spec_direction(),
                        hit_record.normal,
                        rf,
                    );
                }
                let nf = rf.normalized();
                let u = Vec3::random_unit_vector(rng);
                let fz = u.scale(me.fuzz);
                proof {
                    crate::fx::lemma_fxmul_mag(me.fuzz.0 as int, u.x.0 as int, 921600, 1843200);
                    crate::fx::lemma_fxmul_mag(me.fuzz.0 as int, u.y.0 as int, 921600, 1843200);
                    crate::fx::lemma_fxmul_mag(me.fuzz.0 as int, u.z.0 as int, 921600, 1843200);
                }
                let d = nf.add(fz);
                let dn = crate::math::vec3::dot(&d, &hit_record.normal);
                let result = if dn.0 > 0 {
                    let ray = Ray::new(hit_record.p, d, ray_in.time());
                    Some(ScatteredRay { attenuation: me.albedo, ray })
                } else {
                    None
                };
                proof {
                    assert(is_unit_sample(u));
                    assert(nf == crate::math::vec3::normalized_vv(
                        crate::math::vec3::reflect_vv(ray_in.spec_direction(), hit_record.normal),
                    ));
                    assert(d == add_vv(nf, scale_vv(me.fuzz, u)));
                    assert(metal_ok(
                        me.albedo,
                        me.fuzz,
                        *ray_in,
                        hit_record.p,
                        hit_record.normal,
                        result,
                    ));
                }
                result
            },
            Material::Dielectric(di) => {
                proof {
                    lemma_ri_bounds(di.refraction_index.0 as int);
                }
                let ri = if hit_record.front_face {
                    Fx(ONE_RAW).div(di.refraction_index)
                } else {
                    di.refraction_index
                };
                let unit_direction = ray_in.direction().normalized();
                let minus_ud = unit_direction.neg();
                let cos_theta = crate::math::vec3::dot(&minus_ud, &hit_record.normal).min(
                    Fx(ONE_RAW),
                );
                proof {
                    crate::math::vec3::lemma_dot_mag(minus_ud, hit_record.normal, 1843200, 1843200);
                    crate::fx::lemma_fxmul_mag(cos_theta.0 as int, cos_theta.0 as int, 14745600, 14745600);
                }
                let cos_sq = cos_theta.mul(cos_theta);
                let under = Fx(ONE_RAW).sub(cos_sq);
                let lifted = if under.0 >= 0 {
                    under
                } else {
                    Fx(0)
                };
                let sin_theta = lifted.sqrt();
                proof {
                    crate::fx::lemma_isqrt_le_of_sq(lifted.0 * SCALE, 1099511627776);
                    crate::fx::lemma_fxmul_mag(ri.0 as int, sin_theta.0 as int, 92160000, 1099511627776);
                }
                let cannot_refract = ri.mul(sin_theta).0 > SCALE;
                let x = rng.next_unit();
                let direction = if cannot_refract || reflectance(cos_theta, ri).0 > x.0 {
                    let dr = crate::math::vec3::reflect(&unit_direction, &hit_record.normal);
                    proof {
                        crate::math::vec3::lemma_reflect_unit_bounded(
                            unit_direction,
                            hit_record.normal,
                            dr,
                        );
                    }
                    dr
                } else {
                    crate::math::vec3::refract(&unit_direction, &hit_record.normal, ri)
                };
                proof {
                    assert(spec_draw(x.0 as int) == x.0 as int);
                }
                let ray = Ray::new(hit_record.p, direction, ray_in.time());
                let result = Some(
                    ScatteredRay {
                        attenuation: Color(
                            Vec3 { x: Fx(ONE_RAW), y: Fx(ONE_RAW), z: Fx(ONE_RAW) },
                        ),
                        ray,
                    },
                );
                proof {
                    assert(unit_direction == crate::math::vec3::normalized_vv(
                        ray_in.spec_direction(),
                    ));
                    assert(dielectric_ok(
                        di.refraction_index,
                        *ray_in,
                        hit_record.p,
                        hit_record.normal,
                        hit_record.front_face,
                        result,
                    ));
                }
                result
            },
            Material::DiffuseLight(_) => None,
            Material::Isotropic(i) => {
                let u = Vec3::random_unit_vector(rng);
                let attenuation = i.texture.value(&hit_record.texture_coords, hit_record.p);
                let ray = Ray::new(hit_record.p, u, ray_in.time());
                let result = Some(ScatteredRay { attenuation, ray });
                proof {
                    assert(is_unit_sample(u));
                    assert(isotropic_ok(
                        i.texture,
                        *ray_in,
                        hit_record.p,
                        hit_record.texture_coords,
                        result,
                    ));
                }
                result
            },
        }
    }

    /// What this material emits at the hit.
    pub fn emit(&self, hit_record: &HitRecord<'_>) -> (c: Color)
        requires
            mat_wf(*self),
            point_in(hit_record.p, PMAX as int),
            tc_wf(hit_record.texture_coords),
        ensures
            c == spec_emit(*self, hit_record.texture_coords, hit_record.p),
            vec_in(c.0, TEXMAX as int),
    {
        match self {
            Material::DiffuseLight(dl) => dl.texture.value(
                &hit_record.texture_coords,
                hit_record.p,
            ),
            _ => Color::black(),
        }
    }
}

/// The relative refraction index stays within the accepted range when the
/// stored index is inverted.
proof fn lemma_ri_bounds(rm: int)
    requires
        9216 <= rm <= 92160000,
    ensures
        1 <= fxdiv(ONE_RAW as int, rm) <= 92160000,
{
    crate::fx::lemma_tdiv_abs_le((ONE_RAW as int) * SCALE, rm);
    crate::fx::lemma_tdiv_unit_mag((ONE_RAW as int) * SCALE, rm);
    vstd::arithmetic::div_mod::lemma_div_is_ordered_by_denominator(849346560000int, 9216int, rm);
    assert(fxdiv(ONE_RAW as int, rm) == 849346560000int / rm);
    vstd::arithmetic::div_mod::lemma_div_pos_is_pos(849346560000int, rm);
}

/// Schlick's approximation, on the grid.
fn reflectance(cosine: Fx, refraction_index: Fx) -> (r: Fx)
    requires
        -16 * SCALE <= cosine.0 <= SCALE,
        0 < refraction_index.0 <= 92160000,
    ensures
        r.0 == spec_reflectance(cosine.0 as int, refraction_index.0 as int),
{
    let a = Fx(ONE_RAW).sub(refraction_index).div(Fx(ONE_RAW).add(refraction_index));
    proof {
        crate::fx::lemma_mul_abs_le(
            ONE_RAW as int - refraction_index.0,
            SCALE as int,
            ONE_RAW as int + refraction_index.0,
            SCALE as int,
        );
        crate::fx::lemma_tdiv_mag_le(
            (ONE_RAW - refraction_index.0) * SCALE,
            (ONE_RAW as int + refraction_index.0) * SCALE,
            ONE_RAW as int + refraction_index.0,
        );
        vstd::arithmetic::div_mod::lemma_div_multiples_vanish(
            SCALE as int,
            ONE_RAW as int + refraction_index.0,
        );
        crate::fx::lemma_fxmul_mag(a.0 as int, a.0 as int, 921600, 921600);
        assert(a.0 * a.0 >= 0) by (nonlinear_arith);
        crate::fx::lemma_tdiv_abs_le(a.0 * a.0, SCALE as int);
    }
    let r0 = a.mul(a);
    let p1 = Fx(ONE_RAW).sub(cosine);
    proof {
        crate::fx::lemma_fxmul_mag(p1.0 as int, p1.0 as int, 15667200, 15667200);
        crate::fx::lemma_fxmul_mag(
            fxmul(p1.0 as int, p1.0 as int),
            fxmul(p1.0 as int, p1.0 as int),
            266342400,
            266342400,
        );
        crate::fx::lemma_fxmul_mag(
            fxmul(fxmul(p1.0 as int, p1.0 as int), fxmul(p1.0 as int, p1.0 as int)),
            p1.0 as int,
            76972953600,
            15667200,
        );
        crate::fx::lemma_fxmul_mag(
            ONE_RAW as int - fxmul(a.0 as int, a.0 as int),
            fxmul(
                fxmul(fxmul(p1.0 as int, p1.0 as int), fxmul(p1.0 as int, p1.0 as int)),
                p1.0 as int,
            ),
            921600,
            1308540211200,
        );
    }
    let p2 = p1.mul(p1);
    let p4 = p2.mul(p2);
    let p5 = p4.mul(p1);
    let one_minus_r0 = Fx(ONE_RAW).sub(r0);
    r0.add(one_minus_r0.mul(p5))
}

impl ScatteredRay {
    /// An outgoing ray from the hit point, with its filter color.
    pub fn new(
        hit_record: &HitRecord<'_>,
        attenuation: Color,
        direction: Vec3,
        time: Fx,
    ) -> (r: ScatteredRay)
        ensures
            r.attenuation == attenuation,
            r.ray.spec_origin() == hit_record.p,
            r.ray.spec_direction() == direction,
            r.ray.spec_time() == time,
    {
        ScatteredRay { attenuation, ray: Ray::new(hit_record.p, direction, time) }
    }
}

} // verus!
