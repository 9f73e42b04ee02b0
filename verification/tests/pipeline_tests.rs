use ray_tracer::camera::{Camera, ConfigError, RenderSettings};
use ray_tracer::fx::SCALE;
use ray_tracer::image::{Color, Image};
use ray_tracer::material::{Lambertian, Material};
use ray_tracer::ppm::PPMWriter;
use ray_tracer::ray::{Hittable, HittableVec};
use ray_tracer::render::{fill_image, CLAMP_MAX};
use ray_tracer::rng::Randomness;
use ray_tracer::sphere::Sphere;
use ray_tracer::vec::{Point, Vector};

fn straight_camera(aspect: i64) -> Camera {
    Camera::new(
        Point::new(0, 0, 0),
        Point::new(0, 0, -SCALE),
        Vector::new(0, SCALE, 0),
        90 * SCALE,
        aspect,
        SCALE,
        0,
        SCALE,
    )
    .expect("camera configuration is valid")
}

fn one_sphere_scene(radius: i64) -> HittableVec {
    HittableVec::new(vec![Hittable::Sphere(Sphere::new(
        Point::new(0, 0, -SCALE),
        radius,
        Material::Lambertian(Lambertian::new(Color::new(32768, 32768, 32768))),
    ))])
}

#[test]
fn settings_validation_names_the_fault() {
    assert!(RenderSettings::default().validate().is_ok());
    assert_eq!(
        Err(ConfigError::InvalidSamples),
        RenderSettings::default().aa_samples(0).validate()
    );
    assert_eq!(
        Err(ConfigError::InvalidGamma),
        RenderSettings::default().gamma(0).validate()
    );
    assert_eq!(
        Err(ConfigError::InvalidGamma),
        RenderSettings::default().gamma(8).validate()
    );
    assert!(RenderSettings::default().aa_samples(100).ray_bounce_limit(50).gamma(2).validate().is_ok());
}

#[test]
fn camera_rejects_degenerate_configurations() {
    let origin = Point::new(0, 0, 0);
    let up = Vector::new(0, SCALE, 0);
    // Position coincides with the look-at target.
    assert!(matches!(
        Camera::new(origin, origin, up, 90 * SCALE, SCALE, SCALE, 0, SCALE),
        Err(ConfigError::DegenerateCamera)
    ));
    // The up vector is parallel to the view direction.
    assert!(matches!(
        Camera::new(
            origin,
            Point::new(0, 0, -SCALE),
            Vector::new(0, 0, SCALE),
            90 * SCALE,
            SCALE,
            SCALE,
            0,
            SCALE
        ),
        Err(ConfigError::DegenerateCamera)
    ));
    // The field of view must lie strictly between 0 and 180 degrees.
    assert!(matches!(
        Camera::new(origin, Point::new(0, 0, -SCALE), up, 0, SCALE, SCALE, 0, SCALE),
        Err(ConfigError::InvalidFieldOfView)
    ));
    assert!(matches!(
        Camera::new(origin, Point::new(0, 0, -SCALE), up, 180 * SCALE, SCALE, SCALE, 0, SCALE),
        Err(ConfigError::InvalidFieldOfView)
    ));
}

#[test]
fn camera_viewport_spans_the_field_of_view() {
    // A 90 degree vertical field of view gives a viewport height of
    // 2 * tan(45 degrees), within the trigonometric approximation.
    let camera = straight_camera(SCALE);
    assert_eq!(131068, camera.viewport.height);
    assert_eq!(131068, camera.viewport.width);
    assert_eq!(0, camera.lens_radius);
    let wide = Camera::new(
        Point::new(0, 0, 0),
        Point::new(0, 0, -SCALE),
        Vector::new(0, SCALE, 0),
        90 * SCALE,
        2 * SCALE,
        SCALE,
        SCALE / 2,
        SCALE,
    )
    .expect("camera configuration is valid");
    assert_eq!(2 * 131068, wide.viewport.width);
    assert_eq!(SCALE / 4, wide.lens_radius);
}

#[test]
fn image_starts_black_with_row_major_buffer() {
    let img = Image::new(4, 3);
    assert_eq!(4, img.width);
    assert_eq!(3, img.height);
    assert_eq!(12, img.data.len());
    for px in img.data.iter() {
        assert_eq!(Color::new(0, 0, 0), *px);
    }
}

#[test]
fn one_sphere_render_darkens_the_silhouette() {
    // With a bounce budget of zero a hit gathers no light at all, so the
    // sphere's silhouette renders black against the bright gradient.
    let mut img = Image::new(7, 7);
    let camera = straight_camera(SCALE);
    let world = one_sphere_scene(SCALE / 2);
    let settings = RenderSettings::default().aa_samples(4).ray_bounce_limit(0).gamma(2);
    let mut rng = Randomness::from_seed(42);
    fill_image(&mut img, &settings, &camera, &world, &mut rng);
    for px in img.data.iter() {
        assert!(0 <= px.red && px.red <= CLAMP_MAX);
        assert!(0 <= px.green && px.green <= CLAMP_MAX);
        assert!(0 <= px.blue && px.blue <= CLAMP_MAX);
    }
    let center = img.data[3 * 7 + 3];
    let corner = img.data[0];
    assert_eq!(Color::new(0, 0, 0), center);
    assert!(corner.red > 0 && corner.green > 0 && corner.blue > 0);
    assert!(center.red < corner.red);
}

#[test]
fn more_samples_reduce_render_variance() {
    // Monte Carlo convergence: across seeds, the center pixel of a
    // boundary-heavy scene fluctuates far less at 64 samples per pixel
    // than at 1.
    let camera = straight_camera(SCALE);
    let world = one_sphere_scene(39321);
    let variance_of = |samples: u16| -> f64 {
        let settings = RenderSettings::default().aa_samples(samples).ray_bounce_limit(0).gamma(1);
        let mut values: Vec<f64> = Vec::new();
        for seed in 0..24u64 {
            let mut img = Image::new(3, 3);
            let mut rng = Randomness::from_seed(seed);
            fill_image(&mut img, &settings, &camera, &world, &mut rng);
            values.push(img.data[4].red as f64 / SCALE as f64);
        }
        let mean: f64 = values.iter().sum::<f64>() / values.len() as f64;
        values.iter().map(|v| (v - mean) * (v - mean)).sum::<f64>() / values.len() as f64
    };
    let coarse = variance_of(1);
    let fine = variance_of(64);
    assert!(coarse > 0.0, "coarse variance was {coarse}");
    assert!(fine < coarse, "fine {fine} not below coarse {coarse}");
}

#[test]
fn ppm_encoding_is_exact() {
    let mut img = Image::new(2, 1);
    img.data[0] = Color::new(SCALE, 32768, 0);
    img.data[1] = Color::new(49152, 65470, 2 * SCALE);
    let mut writer = PPMWriter::new(Vec::new());
    writer.write(&img);
    let expected: &[u8] = b"P3\n2 1\n255\n255 127 0 191 254 255 \n";
    assert_eq!(expected.to_vec(), writer.into_bytes());
}

#[test]
fn ppm_clamps_out_of_range_channels() {
    let mut img = Image::new(1, 1);
    img.data[0] = Color::new(-5, 3 * SCALE, 65536);
    let mut writer = PPMWriter::new(Vec::new());
    writer.write(&img);
    let expected: &[u8] = b"P3\n1 1\n255\n0 255 255 \n";
    assert_eq!(expected.to_vec(), writer.into_bytes());
}
