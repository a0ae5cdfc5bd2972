use weekend_raytracer::color::Color;
use weekend_raytracer::fx::{Fx, ONE_RAW, SCALE};
use weekend_raytracer::hittables::HitRecord;
use weekend_raytracer::material::{Dielectric, DiffuseLight, Lambertian, Material, Metal};
use weekend_raytracer::math::point3::Point3;
use weekend_raytracer::math::ray::Ray;
use weekend_raytracer::math::vec3::Vec3;
use weekend_raytracer::rng::RandomSource;
use weekend_raytracer::texture::{CheckerTexture, Texture, TextureCoords};

fn fxv(x: f64) -> Fx {
    Fx((x * SCALE as f64).round() as i128)
}

fn v3(x: f64, y: f64, z: f64) -> Vec3 {
    Vec3 { x: fxv(x), y: fxv(y), z: fxv(z) }
}

fn p3(x: f64, y: f64, z: f64) -> Point3 {
    Point3(v3(x, y, z))
}

fn coords0() -> TextureCoords {
    TextureCoords { u: Fx(0), v: Fx(0) }
}

#[test]
fn color_round_trip_extremes() {
    // Full white serializes to the channel maximum, black to zero.
    assert_eq!(Color::white().pixel_text(), "255 255 255");
    assert_eq!(Color::black().pixel_text(), "0 0 0");
    // Channel accessors agree with the serialized line.
    assert_eq!(Color::white().red(), 255);
    assert_eq!(Color::black().blue(), 0);
}

#[test]
fn color_gamma_quarter() {
    // Gamma encoding is the square root: a linear quarter becomes a half,
    // and a half of 256 rounds down to 128.
    let c = Color::new(fxv(0.25), fxv(0.25), fxv(0.25));
    assert_eq!(c.pixel_text(), "128 128 128");
}

#[test]
fn checker_alternates_between_cells() {
    let c1 = Color::new(fxv(0.2), fxv(0.3), fxv(0.1));
    let c2 = Color::new(fxv(0.9), fxv(0.9), fxv(0.9));
    let checker = Texture::CheckerTexture(CheckerTexture::new(
        fxv(0.32),
        Texture::solid(c1),
        Texture::solid(c2),
    ));
    let at_origin = checker.value(&coords0(), p3(0.0, 0.0, 0.0));
    let one_cell = checker.value(&coords0(), p3(0.32, 0.0, 0.0));
    assert_eq!(at_origin, c1);
    assert_eq!(one_cell, c2);
    assert_ne!(at_origin, one_cell);
}

#[test]
fn lambertian_scatter_never_zero() {
    // Ten thousand scatters off random unit normals: no zero direction.
    let mat = Material::Lambertian(Lambertian::new(Texture::solid(Color::white())));
    let mut rng = RandomSource::from_seed(97);
    let ray_in = Ray::new(p3(0.0, 0.0, 0.0), v3(0.0, 0.0, -1.0), Fx(0));
    for _ in 0..10000 {
        let normal = Vec3::random_unit_vector(&mut rng);
        let rec = HitRecord::new(
            Fx(SCALE),
            p3(0.0, 0.0, -1.0),
            &ray_in,
            normal,
            &mat,
            coords0(),
        );
        let s = mat
            .scatter(&ray_in, &rec, &mut rng)
            .expect("diffuse surfaces always scatter");
        let d = *s.ray.direction();
        assert!(d.x.0 != 0 || d.y.0 != 0 || d.z.0 != 0);
    }
}

#[test]
fn dielectric_unit_index_keeps_direction() {
    // A relative index of one bends nothing at normal incidence.
    let mat = Material::Dielectric(Dielectric::new(Fx(ONE_RAW)));
    let mut rng = RandomSource::from_seed(3);
    let ray_in = Ray::new(p3(0.0, 0.0, 0.0), v3(0.0, 0.0, -1.0), Fx(0));
    let rec = HitRecord::new(
        Fx(SCALE),
        p3(0.0, 0.0, -1.0),
        &ray_in,
        v3(0.0, 0.0, 1.0),
        &mat,
        coords0(),
    );
    for _ in 0..100 {
        let s = mat
            .scatter(&ray_in, &rec, &mut rng)
            .expect("dielectrics always scatter");
        assert_eq!(*s.ray.direction(), v3(0.0, 0.0, -1.0));
        // The dielectric does not tint the light it passes.
        assert_eq!(s.attenuation, Color::white());
    }
}

#[test]
fn dielectric_unit_index_keeps_oblique_direction() {
    // An exactly representable unit direction at oblique, non-grazing
    // incidence: whenever the unit-index dielectric refracts, the
    // direction passes through unchanged; the rare stochastic reflection
    // mirrors it instead.
    let mat = Material::Dielectric(Dielectric::new(Fx(ONE_RAW)));
    let mut rng = RandomSource::from_seed(17);
    let ray_in = Ray::new(p3(0.0, 0.0, 0.0), v3(0.6, 0.0, -0.8), Fx(0));
    let rec = HitRecord::new(
        Fx(SCALE),
        p3(0.6, 0.0, -0.8),
        &ray_in,
        v3(0.0, 0.0, 1.0),
        &mat,
        coords0(),
    );
    let mut unchanged = 0;
    for _ in 0..200 {
        let s = mat.scatter(&ray_in, &rec, &mut rng).expect("always scatters");
        let d = *s.ray.direction();
        if d == v3(0.6, 0.0, -0.8) {
            unchanged += 1;
        } else {
            assert_eq!(d, v3(0.6, 0.0, 0.8));
        }
    }
    assert!(unchanged >= 190);
}

#[test]
fn metal_reflects_across_normal() {
    // A perfectly smooth metal mirrors the incoming direction.
    let mat = Material::Metal(Metal::new(Color::white(), Fx(0)));
    let mut rng = RandomSource::from_seed(11);
    let ray_in = Ray::new(p3(0.0, -1.0, 0.0), v3(0.6, 0.8, 0.0), Fx(0));
    let rec = HitRecord::new(
        Fx(SCALE),
        p3(0.6, -0.2, 0.0),
        &ray_in,
        v3(0.0, -1.0, 0.0),
        &mat,
        coords0(),
    );
    let s = mat.scatter(&ray_in, &rec, &mut rng).expect("open reflection");
    assert_eq!(*s.ray.direction(), v3(0.6, -0.8, 0.0));
}

#[test]
fn metal_absorbs_grazing_fuzz() {
    // A fully rough metal can push a grazing reflection into the surface;
    // the scatter is then absorbed.  Statistically some of many grazing
    // scatters must be absorbed.
    let mat = Material::Metal(Metal::new(Color::white(), Fx(ONE_RAW)));
    let mut rng = RandomSource::from_seed(5);
    let ray_in = Ray::new(p3(0.0, -1.0, 0.0), v3(1.0, 0.001, 0.0), Fx(0));
    let rec = HitRecord::new(
        Fx(SCALE),
        p3(1.0, -0.999, 0.0),
        &ray_in,
        v3(0.0, -1.0, 0.0),
        &mat,
        coords0(),
    );
    let mut absorbed = 0;
    for _ in 0..200 {
        if mat.scatter(&ray_in, &rec, &mut rng).is_none() {
            absorbed += 1;
        }
    }
    assert!(absorbed > 0);
}

#[test]
fn diffuse_light_emits_and_never_scatters() {
    let glow = Color::new(fxv(4.0), fxv(4.0), fxv(4.0));
    let mat = Material::DiffuseLight(DiffuseLight::new(Texture::solid(glow)));
    let mut rng = RandomSource::from_seed(8);
    let ray_in = Ray::new(p3(0.0, 0.0, 0.0), v3(0.0, 0.0, -1.0), Fx(0));
    let rec = HitRecord::new(
        Fx(SCALE),
        p3(0.0, 0.0, -1.0),
        &ray_in,
        v3(0.0, 0.0, 1.0),
        &mat,
        coords0(),
    );
    assert!(mat.scatter(&ray_in, &rec, &mut rng).is_none());
    assert_eq!(mat.emit(&rec), glow);
}

#[test]
fn random_draws_stay_in_range() {
    let mut rng = RandomSource::from_seed(123);
    for _ in 0..1000 {
        assert!(rng.next_below(10) < 10);
        let u = rng.next_unit();
        assert!(0 <= u.0 && u.0 < SCALE);
        let r = rng.next_range(fxv(-1.0), fxv(1.0));
        assert!(-SCALE <= r.0 && r.0 < SCALE);
        let v = Vec3::random_in_unit_disk(&mut rng);
        assert_eq!(v.z.0, 0);
    }
}
