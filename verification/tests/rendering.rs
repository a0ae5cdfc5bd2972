use weekend_raytracer::camera::Camera;
use weekend_raytracer::color::Color;
use weekend_raytracer::fx::{Fx, ONE_RAW, SCALE};
use weekend_raytracer::hittables::{quad, ConstantMedium, HitRecord, Hittable, HittableList, Quad, Sphere};
use weekend_raytracer::material::{Lambertian, Material};
use weekend_raytracer::math::interval::{ExtFx, Interval};
use weekend_raytracer::math::point3::Point3;
use weekend_raytracer::math::ray::Ray;
use weekend_raytracer::math::vec3::Vec3;
use weekend_raytracer::rng::RandomSource;
use weekend_raytracer::texture::{Noise, Texture};

fn fxv(x: f64) -> Fx {
    Fx((x * SCALE as f64).round() as i128)
}

fn v3(x: f64, y: f64, z: f64) -> Vec3 {
    Vec3 { x: fxv(x), y: fxv(y), z: fxv(z) }
}

fn p3(x: f64, y: f64, z: f64) -> Point3 {
    Point3(v3(x, y, z))
}

fn gray_material() -> Material {
    Material::Lambertian(Lambertian::new(Texture::solid(Color::new(
        fxv(0.5),
        fxv(0.5),
        fxv(0.5),
    ))))
}

#[test]
fn quad_root_on_window_edge_misses() {
    // The root bound is strictly open: a quad whose plane root lands
    // exactly on the window's lower end is a miss, and just below it a
    // hit.
    let q = Quad::new(p3(-0.5, -0.5, -1.0), v3(1.0, 0.0, 0.0), v3(0.0, 1.0, 0.0), gray_material());
    let r = Ray::new(p3(0.0, 0.0, 0.0), v3(0.0, 0.0, -1.0), Fx(0));
    let at_edge = Interval::new(ExtFx::Fin(Fx(SCALE)), ExtFx::PosInf);
    assert!(q.hit(&r, &at_edge).is_none());
    let below_edge = Interval::new(ExtFx::Fin(Fx(SCALE - 1)), ExtFx::PosInf);
    assert!(q.hit(&r, &below_edge).is_some());
}

#[test]
fn quad_interior_hit() {
    // A unit quad one unit in front of the camera: the central ray hits
    // its middle at parameter one.
    let q = Quad::new(p3(-0.5, -0.5, -1.0), v3(1.0, 0.0, 0.0), v3(0.0, 1.0, 0.0), gray_material());
    let bounds = Interval::new(ExtFx::Fin(Fx(922)), ExtFx::PosInf);
    let r = Ray::new(p3(0.0, 0.0, 0.0), v3(0.0, 0.0, -1.0), Fx(0));
    let h = q.hit(&r, &bounds).expect("central hit");
    assert_eq!(h.t.0, SCALE);
    assert_eq!(h.texture_coords.u.0, SCALE / 2);
    assert_eq!(h.texture_coords.v.0, SCALE / 2);
    // Just outside the edge the plane is struck but the quad is not.
    let miss = Ray::new(p3(0.7, 0.0, 0.0), v3(0.0, 0.0, -1.0), Fx(0));
    assert!(q.hit(&miss, &bounds).is_none());
}

#[test]
fn box_of_quads_is_closed() {
    let b = quad::make_box(p3(0.0, 0.0, 0.0), p3(1.0, 1.0, 1.0), gray_material());
    let bounds = Interval::new(ExtFx::Fin(Fx(922)), ExtFx::PosInf);
    let mut rng = RandomSource::from_seed(4);
    // A ray from far out on the positive z side hits the front face.
    let r = Ray::new(p3(0.5, 0.5, 5.0), v3(0.0, 0.0, -1.0), Fx(0));
    let h = b.hit(&r, &bounds, &mut rng).expect("front face");
    assert_eq!(h.t.0, 4 * SCALE);
    // From each axis direction the box is struck somewhere.
    let r2 = Ray::new(p3(5.0, 0.5, 0.5), v3(-1.0, 0.0, 0.0), Fx(0));
    assert!(b.hit(&r2, &bounds, &mut rng).is_some());
}

#[test]
fn constant_medium_scatters_inside() {
    // A dense fog in a unit sphere: a ray through the middle scatters
    // somewhere strictly inside the boundary.
    let boundary = Hittable::Sphere(Sphere::stationary(p3(0.0, 0.0, -2.0), fxv(1.0), gray_material()));
    let fog = Hittable::ConstantMedium(ConstantMedium::new(
        boundary,
        fxv(100.0),
        Texture::solid(Color::white()),
    ));
    let bounds = Interval::new(ExtFx::Fin(Fx(922)), ExtFx::PosInf);
    let mut rng = RandomSource::from_seed(21);
    let r = Ray::new(p3(0.0, 0.0, 0.0), v3(0.0, 0.0, -1.0), Fx(0));
    let mut hits = 0;
    for _ in 0..50 {
        if let Some(h) = fog.hit(&r, &bounds, &mut rng) {
            assert!(h.t.0 > SCALE - 1000 && h.t.0 < 3 * SCALE + 1000);
            hits += 1;
        }
    }
    assert!(hits > 40);
}

#[test]
fn noise_texture_stays_gray_in_unit_range() {
    let mut rng = RandomSource::from_seed(9);
    let tex = Texture::Noise(Noise::new(fxv(4.0), &mut rng));
    let tc = weekend_raytracer::texture::TextureCoords { u: Fx(0), v: Fx(0) };
    for k in 0..20 {
        let p = p3(0.13 * k as f64, 0.07 * k as f64, -0.05 * k as f64);
        let c = tex.value(&tc, p);
        assert!(0 <= c.0.x.0 && c.0.x.0 <= SCALE);
        assert_eq!(c.0.x.0, c.0.y.0);
        assert_eq!(c.0.y.0, c.0.z.0);
    }
}

#[test]
fn hit_record_faces_the_ray() {
    let mat = gray_material();
    let r = Ray::new(p3(0.0, 0.0, 0.0), v3(0.0, 0.0, -1.0), Fx(0));
    let tc = weekend_raytracer::texture::TextureCoords { u: Fx(0), v: Fx(0) };
    // Outward normal opposing the ray: kept, and marked front face.
    let front = HitRecord::new(Fx(SCALE), p3(0.0, 0.0, -1.0), &r, v3(0.0, 0.0, 1.0), &mat, tc);
    assert!(front.front_face);
    assert_eq!(front.normal, v3(0.0, 0.0, 1.0));
    // Outward normal along the ray: flipped, and marked back face.
    let back = HitRecord::new(Fx(SCALE), p3(0.0, 0.0, -1.0), &r, v3(0.0, 0.0, -1.0), &mat, tc);
    assert!(!back.front_face);
    assert_eq!(back.normal, v3(0.0, 0.0, 1.0));
    // Displacing a record moves only its point.
    let moved = front.offset(v3(1.0, 0.0, 0.0));
    assert_eq!(moved.p, p3(1.0, 0.0, -1.0));
    assert_eq!(moved.normal, front.normal);
}

#[test]
fn render_single_sphere_deterministic() {
    // A low-resolution render of one diffuse sphere: equal seeds give
    // byte-equal images, the center pixel shows the sphere (black at
    // depth one over a bright background), and a corner shows the
    // background.
    let world = Hittable::Sphere(Sphere::stationary(p3(0.0, 0.0, -1.0), fxv(0.5), gray_material()));
    let cam = Camera::builder()
        .look_from(p3(0.0, 0.0, 0.0))
        .image_width(32)
        .samples_per_pixel(1)
        .max_depth(1)
        .background(Color::new(fxv(0.7), fxv(0.8), fxv(1.0)))
        .build();
    let img1 = cam.render(&world, 42);
    let img2 = cam.render(&world, 42);
    assert_eq!(img1, img2);
    let lines: Vec<&str> = img1.lines().collect();
    assert_eq!(lines[0], "P3");
    assert_eq!(lines[1], "32 32");
    assert_eq!(lines[2], "255");
    assert_eq!(lines.len(), 3 + 32 * 32);
    let background_line = "214 228 255";
    let center = lines[3 + 16 * 32 + 16];
    let corner = lines[3];
    assert_eq!(corner, background_line);
    assert_eq!(center, "0 0 0");
    assert_ne!(center, corner);
}

#[test]
fn render_header_matches_dimensions() {
    let world = Hittable::List(HittableList::new());
    let cam = Camera::builder()
        .look_from(p3(0.0, 0.0, 0.0))
        .image_width(40)
        .aspect_ratio(fxv(2.0))
        .samples_per_pixel(1)
        .max_depth(1)
        .background(Color::white())
        .build();
    let img = cam.render(&world, 7);
    let lines: Vec<&str> = img.lines().collect();
    assert_eq!(lines[0], "P3");
    assert_eq!(lines[1], "40 20");
    assert_eq!(lines[2], "255");
    assert_eq!(lines.len(), 3 + 40 * 20);
    // An empty world shows the background everywhere.
    assert_eq!(lines[3], "255 255 255");
    assert_eq!(lines[3 + 40 * 20 - 1], "255 255 255");
}
