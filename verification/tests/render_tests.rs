use ray_tracer::fx::SCALE;
use ray_tracer::image::Color;
use ray_tracer::material::{Dielectric, Lambertian, Material, Metal};
use ray_tracer::ray::{Hittable, HittableVec, Ray, T_INFINITY};
use ray_tracer::render::{background, random_in_hemisphere, ray_color};
use ray_tracer::rng::Randomness;
use ray_tracer::sphere::Sphere;
use ray_tracer::vec::{dot, Point, Vector};

fn gray() -> Material {
    Material::Lambertian(Lambertian::new(Color::new(32768, 32768, 32768)))
}

#[test]
fn ray_evaluates_parametrically() {
    let ray = Ray::new(Point::new(SCALE, 2 * SCALE, 3 * SCALE), Vector::new(0, 0, -SCALE));
    assert_eq!(Point::new(SCALE, 2 * SCALE, 3 * SCALE - SCALE / 2), ray.at(SCALE / 2));
    // Negative parameters are not restricted.
    assert_eq!(Point::new(SCALE, 2 * SCALE, 4 * SCALE), ray.at(-SCALE));
}

#[test]
fn default_effect_absorbs() {
    let effect = ray_tracer::material::MaterialEffect::default();
    assert_eq!(Color::new(0, 0, 0), effect.attenuation);
    assert!(effect.scattered.is_none());
    assert_eq!(Color::new(0, 0, 0), Color::default());
}

#[test]
fn sphere_head_on_hit() {
    // A ray down the z axis against a sphere half a unit deep hits at
    // t = 0.5 with the outward normal pointing back at the origin.
    let sphere = Sphere::new(Point::new(0, 0, -SCALE), SCALE / 2, gray());
    let ray = Ray::new(Point::new(0, 0, 0), Vector::new(0, 0, -SCALE));
    let hit = sphere.hit_by(&ray, 0, T_INFINITY).expect("must hit");
    assert_eq!(SCALE / 2, hit.t);
    assert_eq!(Vector::new(0, 0, SCALE), hit.normal);
    assert!(hit.front_face);
    assert_eq!(Vector::new(0, 0, -SCALE / 2), hit.point);
}

#[test]
fn sphere_miss_reports_none() {
    let sphere = Sphere::new(Point::new(0, 0, -SCALE), SCALE / 2, gray());
    let ray = Ray::new(Point::new(0, 0, 0), Vector::new(0, 0, SCALE));
    assert!(sphere.hit_by(&ray, 0, T_INFINITY).is_none());
    let sideways = Ray::new(Point::new(0, 0, 0), Vector::new(SCALE, 0, 0));
    assert!(sphere.hit_by(&sideways, 0, T_INFINITY).is_none());
}

#[test]
fn scene_returns_nearest_hit_in_either_order() {
    let near = Hittable::Sphere(Sphere::new(Point::new(0, 0, -2 * SCALE), SCALE / 2, gray()));
    let far = Hittable::Sphere(Sphere::new(Point::new(0, 0, -5 * SCALE), SCALE / 2, gray()));
    let ray = Ray::new(Point::new(0, 0, 0), Vector::new(0, 0, -SCALE));
    for world in [
        HittableVec::new(vec![near, far]),
        HittableVec::new(vec![far, near]),
    ] {
        let hit = world.hit_by(&ray, 0, T_INFINITY).expect("must hit");
        assert_eq!(3 * SCALE / 2, hit.t);
    }
}

#[test]
fn scene_narrowed_interval_excludes_far_hit() {
    let far = Hittable::Sphere(Sphere::new(Point::new(0, 0, -5 * SCALE), SCALE / 2, gray()));
    let ray = Ray::new(Point::new(0, 0, 0), Vector::new(0, 0, -SCALE));
    let world = HittableVec::new(vec![far]);
    assert!(world.hit_by(&ray, 0, SCALE).is_none());
}

#[test]
fn ray_color_negative_depth_is_black() {
    // An exhausted bounce budget gathers no more light, whatever the
    // scene holds.
    let world = HittableVec::new(vec![Hittable::Sphere(Sphere::new(
        Point::new(0, 0, -SCALE),
        SCALE / 2,
        gray(),
    ))]);
    let mut rng = Randomness::from_seed(1);
    let ray = Ray::new(Point::new(0, 0, 0), Vector::new(0, 0, -SCALE));
    assert_eq!(Color::new(0, 0, 0), ray_color(&ray, &world, -1, &mut rng));
}

#[test]
fn ray_color_miss_is_background_gradient() {
    // A straight-down-the-z ray has unit height zero, so the gradient
    // blends white and the sky color evenly.
    let empty = HittableVec::new(vec![]);
    let off_axis = HittableVec::new(vec![Hittable::Sphere(Sphere::new(
        Point::new(5 * SCALE, 0, 0),
        SCALE / 2,
        gray(),
    ))]);
    let mut rng = Randomness::from_seed(2);
    let ray = Ray::new(Point::new(0, 0, 0), Vector::new(0, 0, -SCALE));
    let expected = Color::new(49152, 55705, 65536);
    assert_eq!(expected, ray_color(&ray, &empty, 4, &mut rng));
    assert_eq!(expected, ray_color(&ray, &off_axis, 4, &mut rng));
    assert_eq!(expected, background(&ray));
}

#[test]
fn lambertian_always_scatters() {
    let material = Lambertian::new(Color::new(16384, 32768, 49152));
    let sphere = Sphere::new(Point::new(0, 0, -SCALE), SCALE / 2, gray());
    let ray = Ray::new(Point::new(0, 0, 0), Vector::new(0, 0, -SCALE));
    let hit = sphere.hit_by(&ray, 0, T_INFINITY).expect("must hit");
    let mut rng = Randomness::from_seed(3);
    for _ in 0..100 {
        let effect = material.scatter(&ray, &hit, &mut rng);
        let scattered = effect.scattered.expect("lambertian never absorbs");
        assert_eq!(hit.point, scattered.origin);
        assert_eq!(Color::new(16384, 32768, 49152), effect.attenuation);
    }
}

#[test]
fn metal_with_zero_fuzz_reflects_exactly() {
    let material = Metal::new(Color::new(45875, 39321, 32768), 0);
    let sphere = Sphere::new(Point::new(0, -2 * SCALE, 0), SCALE, gray());
    // Strike the top of the sphere at 45 degrees.
    let ray = Ray::new(Point::new(-SCALE, 0, 0), Vector::new(SCALE, -SCALE, 0));
    let hit = sphere.hit_by(&ray, 0, T_INFINITY).expect("must hit");
    assert_eq!(Vector::new(0, SCALE, 0), hit.normal);
    let mut rng = Randomness::from_seed(4);
    let effect = material.scatter(&ray, &hit, &mut rng);
    let scattered = effect.scattered.expect("must reflect");
    // Angle of incidence equals angle of reflection about the normal.
    assert_eq!(Vector::new(SCALE, SCALE, 0), scattered.direction);
}

#[test]
fn metal_absorbs_grazing_reflection() {
    // A ray tangent to the sphere reflects parallel to the surface:
    // dot(reflected, normal) is not positive, so the ray is absorbed.
    let material = Metal::new(Color::new(100, 200, 300), 0);
    let sphere = Sphere::new(Point::new(0, -SCALE, 0), SCALE, gray());
    let ray = Ray::new(Point::new(-SCALE, 0, 0), Vector::new(SCALE, 0, 0));
    let hit = sphere.hit_by(&ray, 0, T_INFINITY).expect("must hit");
    let mut rng = Randomness::from_seed(5);
    let effect = material.scatter(&ray, &hit, &mut rng);
    assert!(effect.scattered.is_none());
    assert_eq!(Color::new(100, 200, 300), effect.attenuation);
}

#[test]
fn metal_fuzz_decides_absorption_on_perturbed_direction() {
    // With a large fuzz at shallow incidence the perturbed reflection
    // sometimes leaves the surface and sometimes points into it; the
    // effect scatters exactly when the perturbed direction leaves, so an
    // emitted ray never points into the surface.
    let material = Metal::new(Color::new(32768, 32768, 32768), SCALE);
    let sphere = Sphere::new(Point::new(0, -2 * SCALE, 0), SCALE, gray());
    let ray = Ray::new(
        Point::new(-SCALE, -SCALE + SCALE / 8, 0),
        Vector::new(SCALE, -SCALE / 8, 0),
    );
    let hit = sphere.hit_by(&ray, 0, T_INFINITY).expect("must hit");
    let mut rng = Randomness::from_seed(9);
    let mut scattered_seen = false;
    let mut absorbed_seen = false;
    for _ in 0..200 {
        let effect = material.scatter(&ray, &hit, &mut rng);
        match effect.scattered {
            Some(s) => {
                scattered_seen = true;
                assert!(dot(&s.direction, &hit.normal) > 0);
            }
            None => {
                absorbed_seen = true;
            }
        }
    }
    assert!(scattered_seen && absorbed_seen);
}

#[test]
fn metal_fuzz_clamped_from_above_only() {
    let albedo = Color::new(0, 0, 0);
    assert_eq!(SCALE, Metal::new(albedo, 3 * SCALE).fuzz);
    assert_eq!(SCALE / 4, Metal::new(albedo, SCALE / 4).fuzz);
    // A negative fuzz passes through unclamped, as the reference
    // behavior has it.
    assert_eq!(-7, Metal::new(albedo, -7).fuzz);
}

#[test]
fn dielectric_unit_index_passes_head_on_ray_through() {
    let material = Dielectric::new(SCALE);
    let sphere = Sphere::new(Point::new(0, 0, -2 * SCALE), SCALE, gray());
    let ray = Ray::new(Point::new(0, 0, 0), Vector::new(0, 0, -SCALE));
    let hit = sphere.hit_by(&ray, 0, T_INFINITY).expect("must hit");
    assert!(hit.front_face);
    let mut rng = Randomness::from_seed(6);
    for _ in 0..50 {
        let effect = material.scatter(&ray, &hit, &mut rng);
        let scattered = effect.scattered.expect("dielectric never absorbs");
        // Ratio 1: the refraction solves to the identity.
        assert_eq!(Vector::new(0, 0, -SCALE), scattered.direction);
        assert_eq!(Color::new(SCALE, SCALE, SCALE), effect.attenuation);
    }
}

#[test]
fn dielectric_total_internal_reflection_reflects() {
    // Leaving a dense medium at 30 degrees off the surface normal:
    // ratio * sin exceeds 1, which forces a mirror reflection whatever
    // the Schlick draw says.
    let material = Dielectric::new(3 * SCALE);
    let sphere = Sphere::new(Point::new(0, 0, 0), SCALE, gray());
    let ray = Ray::new(Point::new(SCALE / 2, 0, 0), Vector::new(0, SCALE, 0));
    let hit = sphere.hit_by(&ray, 0, T_INFINITY).expect("must hit");
    assert!(!hit.front_face);
    let mut rng = Randomness::from_seed(7);
    let effect = material.scatter(&ray, &hit, &mut rng);
    let scattered = effect.scattered.expect("dielectric never absorbs");
    let expected = ray_tracer::vec::reflect(
        &ray_tracer::vec::unit(&ray.direction),
        &hit.normal,
    );
    assert_eq!(expected, scattered.direction);
    // The ray turned back down into the medium.
    assert!(scattered.direction.y < 0);
}

#[test]
fn hemisphere_sampling_never_points_into_surface() {
    let normal = Vector::new(0, SCALE, 0);
    let mut rng = Randomness::from_seed(8);
    for _ in 0..200 {
        let v = random_in_hemisphere(&normal, &mut rng);
        assert!(dot(&v, &normal) >= 0);
    }
}
