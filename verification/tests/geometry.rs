use weekend_raytracer::color::Color;
use weekend_raytracer::fx::{Fx, ONE_RAW, SCALE};
use weekend_raytracer::hittables::{BvhNode, Hittable, HittableList, Sphere};
use weekend_raytracer::material::{Lambertian, Material};
use weekend_raytracer::math::interval::{ExtFx, Interval};
use weekend_raytracer::math::point3::Point3;
use weekend_raytracer::math::ray::Ray;
use weekend_raytracer::math::vec3::Vec3;
use weekend_raytracer::math::aabb::Aabb;
use weekend_raytracer::rng::RandomSource;
use weekend_raytracer::texture::Texture;

fn fxv(x: f64) -> Fx {
    Fx((x * SCALE as f64).round() as i128)
}

fn v3(x: f64, y: f64, z: f64) -> Vec3 {
    Vec3 { x: fxv(x), y: fxv(y), z: fxv(z) }
}

fn p3(x: f64, y: f64, z: f64) -> Point3 {
    Point3(v3(x, y, z))
}

fn gray_material() -> Material {
    Material::Lambertian(Lambertian::new(Texture::solid(Color::new(
        fxv(0.5),
        fxv(0.5),
        fxv(0.5),
    ))))
}

#[test]
fn aabb_hit_from_inside_unit_box() {
    // A unit box centered at the origin, a ray starting inside pointed
    // outward in several directions: all report a hit.
    let b = Aabb::from_points(p3(-0.5, -0.5, -0.5), p3(0.5, 0.5, 0.5));
    let t = Interval::universe();
    for dir in [
        v3(1.0, 0.0, 0.0),
        v3(-1.0, 0.0, 0.0),
        v3(0.3, 0.9, -0.2),
        v3(0.0, 0.0, 1.0),
    ] {
        let r = Ray::new(p3(0.0, 0.0, 0.0), dir, Fx(0));
        assert!(b.hit(&r, &t));
    }
}

#[test]
fn aabb_miss_from_outside() {
    let b = Aabb::from_points(p3(-0.5, -0.5, -0.5), p3(0.5, 0.5, 0.5));
    let t = Interval::universe();
    // The ray runs parallel to the box two units above it.
    let r = Ray::new(p3(0.0, 2.0, 0.0), v3(1.0, 0.0, 0.0), Fx(0));
    assert!(!b.hit(&r, &t));
}

#[test]
fn aabb_merge_commutes_and_associates() {
    let a = Aabb::from_points(p3(-1.0, 0.0, 0.0), p3(1.0, 1.0, 1.0));
    let b = Aabb::from_points(p3(0.5, -2.0, 0.25), p3(3.0, 0.5, 0.75));
    let c = Aabb::from_points(p3(-4.0, -4.0, -4.0), p3(-3.0, -3.0, -3.0));
    assert_eq!(Aabb::merge(&a, &b), Aabb::merge(&b, &a));
    assert_eq!(
        Aabb::merge(&Aabb::merge(&a, &b), &c),
        Aabb::merge(&a, &Aabb::merge(&b, &c))
    );
}

#[test]
fn sphere_hit_near_point() {
    // A sphere at (0,0,-1) of radius one half, a ray from the origin
    // toward it: the near hit is at one half, with outward normal +z.
    let s = Sphere::stationary(p3(0.0, 0.0, -1.0), fxv(0.5), gray_material());
    let r = Ray::new(p3(0.0, 0.0, 0.0), v3(0.0, 0.0, -1.0), Fx(0));
    let bounds = Interval::new(ExtFx::Fin(Fx(922)), ExtFx::PosInf);
    let hit = s.hit(&r, &bounds).expect("the ray must hit the sphere");
    assert_eq!(hit.t.0, SCALE / 2);
    assert_eq!(hit.normal, v3(0.0, 0.0, 1.0));
    assert!(hit.front_face);
    // Spherical coordinates of the point facing the camera.
    assert_eq!(hit.texture_coords.u.0, 230400);
    assert_eq!(hit.texture_coords.v.0, 460800);
}

#[test]
fn sphere_uv_seam_point() {
    // The seam point (-1, 0, 0) of the unit sphere wraps to u = 0, not
    // u = 1: the azimuth there counts as -pi.
    let s = Sphere::stationary(p3(0.0, 0.0, 0.0), fxv(1.0), gray_material());
    let r = Ray::new(p3(-5.0, 0.0, 0.0), v3(1.0, 0.0, 0.0), Fx(0));
    let bounds = Interval::new(ExtFx::Fin(Fx(922)), ExtFx::PosInf);
    let hit = s.hit(&r, &bounds).expect("the ray must hit the sphere");
    assert_eq!(hit.normal, v3(-1.0, 0.0, 0.0));
    assert_eq!(hit.texture_coords.u.0, 0);
    assert_eq!(hit.texture_coords.v.0, SCALE / 2);
}

#[test]
fn sphere_miss_behind() {
    let s = Sphere::stationary(p3(0.0, 0.0, -1.0), fxv(0.5), gray_material());
    // Pointing away from the sphere, with only forward parameters allowed.
    let r = Ray::new(p3(0.0, 0.0, 0.0), v3(0.0, 0.0, 1.0), Fx(0));
    let bounds = Interval::new(ExtFx::Fin(Fx(922)), ExtFx::PosInf);
    assert!(s.hit(&r, &bounds).is_none());
}

#[test]
fn moving_sphere_follows_time() {
    let s = Sphere::moving(
        p3(0.0, 0.0, -1.0),
        p3(2.0, 0.0, -1.0),
        fxv(0.5),
        gray_material(),
    );
    let bounds = Interval::new(ExtFx::Fin(Fx(922)), ExtFx::PosInf);
    // At time zero the sphere sits at x = 0, so a ray down the z axis hits.
    let r0 = Ray::new(p3(0.0, 0.0, 0.0), v3(0.0, 0.0, -1.0), Fx(0));
    assert!(s.hit(&r0, &bounds).is_some());
    // At time one it has moved two units along x and the same ray misses.
    let r1 = Ray::new(p3(0.0, 0.0, 0.0), v3(0.0, 0.0, -1.0), Fx(ONE_RAW));
    assert!(s.hit(&r1, &bounds).is_none());
}

#[test]
fn bvh_matches_linear_scan() {
    // Non-overlapping spheres on a grid; a thousand random rays must see
    // the same nearest hit through the tree as through the flat list.
    let mut rng = RandomSource::from_seed(2024);
    let make_spheres = || {
        let mut v: Vec<Hittable> = Vec::new();
        for ix in 0..4 {
            for iz in 0..4 {
                v.push(Hittable::Sphere(Sphere::stationary(
                    p3(ix as f64 * 3.0, 0.0, -3.0 * iz as f64 - 3.0),
                    fxv(0.9),
                    gray_material(),
                )));
            }
        }
        v
    };
    let mut list = HittableList::new();
    for s in make_spheres() {
        list.push(s);
    }
    let list = Hittable::List(list);
    let tree = Hittable::BvhNode(BvhNode::new(make_spheres()));
    let bounds = Interval::new(ExtFx::Fin(Fx(922)), ExtFx::PosInf);
    for _ in 0..1000 {
        let o = Point3(Vec3 {
            x: rng.next_range(fxv(-1.0), fxv(1.0)),
            y: rng.next_range(fxv(-1.0), fxv(1.0)),
            z: rng.next_range(fxv(-1.0), fxv(1.0)),
        });
        let d = Vec3 {
            x: rng.next_range(fxv(-1.0), fxv(1.0)),
            y: rng.next_range(fxv(-1.0), fxv(1.0)),
            z: rng.next_range(fxv(-1.0), Fx(-1)),
        };
        let r = Ray::new(o, d, Fx(0));
        let a = list.hit(&r, &bounds, &mut rng);
        let b = tree.hit(&r, &bounds, &mut rng);
        match (a, b) {
            (None, None) => {}
            (Some(x), Some(y)) => {
                assert_eq!(x.t.0, y.t.0);
                assert_eq!(x.p, y.p);
                assert_eq!(x.normal, y.normal);
                assert_eq!(x.front_face, y.front_face);
            }
            _ => panic!("tree and list disagree on whether the ray hits"),
        }
    }
}

#[test]
fn translate_shifts_hits() {
    let s = Hittable::Sphere(Sphere::stationary(p3(0.0, 0.0, -2.0), fxv(0.5), gray_material()));
    let moved = s.translate(v3(2.0, 0.0, 0.0));
    let bounds = Interval::new(ExtFx::Fin(Fx(922)), ExtFx::PosInf);
    let mut rng = RandomSource::from_seed(1);
    // Straight down the untranslated axis now misses.
    let r0 = Ray::new(p3(0.0, 0.0, 0.0), v3(0.0, 0.0, -1.0), Fx(0));
    assert!(moved.hit(&r0, &bounds, &mut rng).is_none());
    // Through the displaced center it hits, and the point is displaced.
    let r1 = Ray::new(p3(2.0, 0.0, 0.0), v3(0.0, 0.0, -1.0), Fx(0));
    let h = moved.hit(&r1, &bounds, &mut rng).expect("displaced sphere");
    assert_eq!(h.p, p3(2.0, 0.0, -1.5));
}

#[test]
fn rotate_turns_hits() {
    // A sphere two units down the x axis, rotated ninety degrees about y,
    // moves to minus z: sine one, cosine zero.
    let s = Hittable::Sphere(Sphere::stationary(p3(2.0, 0.0, 0.0), fxv(0.5), gray_material()));
    let turned = s.rotate_about(Fx(ONE_RAW), Fx(0), weekend_raytracer::math::Axis::Y);
    let bounds = Interval::new(ExtFx::Fin(Fx(922)), ExtFx::PosInf);
    let mut rng = RandomSource::from_seed(1);
    let r = Ray::new(p3(0.0, 0.0, 0.0), v3(0.0, 0.0, -1.0), Fx(0));
    let h = turned.hit(&r, &bounds, &mut rng).expect("rotated sphere");
    assert_eq!(h.t.0, (1.5 * SCALE as f64) as i128);
}
