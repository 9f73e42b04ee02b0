//! The thin-lens camera and the render configuration.

use vstd::prelude::*;
use crate::fx::{
    HALF_PI_FX, PI_FX, SCALE, TAU_FX, fx_divn, fx_divn_s, fx_mul, fx_mul_s, fx_tan, fx_tan_s,
    lemma_tdiv_bound, tdiv_s,
};
use crate::ray::Ray;
use crate::rng::Randomness;
use crate::vec::{
    Point, V3s, Vector, add_vs, cross, cross_s, div_vs, length_s, random_in_unit_disk, scale_vs,
    sub_vs, unit, unit_s,
};

verus! {

/// Why a configuration was rejected at construction.
#[derive(Debug, Clone, Copy, PartialEq, Eq, Structural)]
pub enum ConfigError {
    /// The camera position coincides with the look-at target, or the up
    /// vector is parallel to the view direction: no orthonormal basis.
    DegenerateCamera,
    /// The vertical field of view is outside (0, 180) degrees.
    InvalidFieldOfView,
    /// The antialiasing sample count is zero.
    InvalidSamples,
    /// The gamma denominator is zero or beyond the exact-root range.
    InvalidGamma,
}

/// The viewport's dimensions in camera space.
#[derive(Debug, Clone, Copy)]
pub struct Viewport {
    pub width: i64,
    pub height: i64,
}

impl Viewport {
    pub fn new(width: i64, height: i64) -> (v: Viewport)
        ensures
            v.width == width,
            v.height == height,
    {
        Viewport { width, height }
    }
}

/// Half the vertical field of view, in fixed-point radians:
/// `fov * pi / 180 / 2`.
pub open spec fn half_fov_rad_s(vert_fov: int) -> int {
    fx_divn_s(fx_divn_s(fx_mul_s(vert_fov, PI_FX as int), 180), 2)
}

/// The basis vector pointing from the look-at target to the camera.
pub open spec fn cam_w_s(position: V3s, look_at: V3s) -> V3s {
    unit_s(sub_vs(position, look_at))
}

/// The basis vector spanning the viewport's width.
pub open spec fn cam_u_s(position: V3s, look_at: V3s, vup: V3s) -> V3s {
    unit_s(cross_s(vup, cam_w_s(position, look_at)))
}

/// The basis vector spanning the viewport's height.
pub open spec fn cam_v_s(position: V3s, look_at: V3s, vup: V3s) -> V3s {
    cross_s(cam_w_s(position, look_at), cam_u_s(position, look_at, vup))
}

/// The viewport height `2 * tan(fov/2)`.
pub open spec fn viewport_height_s(vert_fov: int) -> int {
    fx_mul_s(2 * SCALE as int, fx_tan_s(half_fov_rad_s(vert_fov)))
}

/// A camera with an orthonormal basis, a focal plane, and a lens radius
/// for depth of field.
#[derive(Debug, Clone, Copy)]
pub struct Camera {
    pub position: Point,
    pub viewport: Viewport,
    pub focal: i64,
    pub lower_left_corner: Point,
    pub horizontal: Vector,
    pub vertical: Vector,
    pub u: Vector,
    pub v: Vector,
    pub w: Vector,
    pub lens_radius: i64,
}

/// The origin of a camera ray for the lens offset `off`.
pub open spec fn cam_ray_origin_s(c: Camera, off: V3s) -> V3s {
    add_vs(c.position@, off)
}

/// The lens offset for a disk sample `d`: `d.x * u + d.y * v` after
/// scaling the sample by the lens radius.
pub open spec fn cam_offset_s(c: Camera, d: V3s) -> V3s {
    let rd = scale_vs(d, c.lens_radius as int);
    add_vs(scale_vs(c.u@, rd.x), scale_vs(c.v@, rd.y))
}

/// The direction of a camera ray: from the offset origin to the point of
/// the focal plane addressed by the image coordinates `(t, s)`.
pub open spec fn cam_ray_dir_s(c: Camera, t: int, s: int, off: V3s) -> V3s {
    sub_vs(
        sub_vs(
            add_vs(
                add_vs(c.lower_left_corner@, scale_vs(c.horizontal@, t)),
                scale_vs(c.vertical@, s),
            ),
            c.position@,
        ),
        off,
    )
}

/// A disk sample as the lens sampler draws it: in the upper half of the
/// unit disk, at height zero.
pub open spec fn disk_sample_s(d: V3s) -> bool {
    d.z == 0 && d.y >= 0 && crate::fx::fx_add_s(fx_mul_s(d.x, d.x), fx_mul_s(d.y, d.y))
        < SCALE as int
}

/// What a camera ray for the image coordinates `(t, s)` promises: for
/// some admissible lens sample, its origin is the lens-offset position
/// and its direction aims at the matching point of the focal plane.
pub open spec fn camera_ray_ok(c: Camera, t: int, s: int, r: Ray) -> bool {
    exists|d: V3s|
        disk_sample_s(d) && r.origin@ == cam_ray_origin_s(c, cam_offset_s(c, d)) && r.direction@
            == cam_ray_dir_s(c, t, s, cam_offset_s(c, d))
}

impl Camera {
    /// Derive the orthonormal basis and viewport from the look-at
    /// configuration.  Fails fast when the position coincides with the
    /// target, the up vector is parallel to the view direction, or the
    /// field of view is outside (0, 180) degrees.
    pub fn new(
        position: Point,
        look_at: Point,
        vup: Vector,
        vert_fov: i64,
        aspect_ratio: i64,
        focal: i64,
        aperture: i64,
        focus_dist: i64,
    ) -> (res: Result<Camera, ConfigError>)
        ensures
            res is Ok <==> (0 < vert_fov < 180 * SCALE && length_s(sub_vs(position@, look_at@))
                != 0 && length_s(cross_s(vup@, cam_w_s(position@, look_at@))) != 0),
            res matches Err(e) ==> (e == ConfigError::InvalidFieldOfView <==> !(0 < vert_fov < 180
                * SCALE)),
            res matches Ok(c) ==> ({
                let w = cam_w_s(position@, look_at@);
                let u = cam_u_s(position@, look_at@, vup@);
                let v = cam_v_s(position@, look_at@, vup@);
                let height = viewport_height_s(vert_fov as int);
                let width = fx_mul_s(aspect_ratio as int, height);
                &&& c.position == position
                &&& c.w@ == w
                &&& c.u@ == u
                &&& c.v@ == v
                &&& c.viewport.height as int == height
                &&& c.viewport.width as int == width
                &&& c.focal == focal
                &&& c.horizontal@ == scale_vs(u, fx_mul_s(focus_dist as int, width))
                &&& c.vertical@ == scale_vs(v, fx_mul_s(focus_dist as int, height))
                &&& c.lower_left_corner@ == sub_vs(
                    sub_vs(
                        sub_vs(position@, div_vs(c.horizontal@, 2 * SCALE as int)),
                        div_vs(c.vertical@, 2 * SCALE as int),
                    ),
                    scale_vs(w, fx_mul_s(focal as int, focus_dist as int)),
                )
                &&& c.lens_radius as int == fx_divn_s(aperture as int, 2)
            }),
    {
        if !(0 < vert_fov && vert_fov < 180 * SCALE) {
            return Err(ConfigError::InvalidFieldOfView);
        }
        let to_camera = position.sub(&look_at);
        if to_camera.length() == 0 {
            return Err(ConfigError::DegenerateCamera);
        }
        let w = unit(&to_camera);
        let span = cross(&vup, &w);
        if span.length() == 0 {
            return Err(ConfigError::DegenerateCamera);
        }
        let u = unit(&span);
        let v = cross(&w, &u);
        let rad = fx_divn(fx_mul(vert_fov, PI_FX), 180);
        let half = fx_divn(rad, 2);
        proof {
            lemma_half_fov_in_range(vert_fov as int);
        }
        let height = fx_mul(2 * SCALE, fx_tan(half));
        let viewport = Viewport::new(fx_mul(aspect_ratio, height), height);
        let horizontal = u.scale(fx_mul(focus_dist, viewport.width));
        let vertical = v.scale(fx_mul(focus_dist, viewport.height));
        let lower_left_corner = position.sub(&horizontal.div_k(2 * SCALE)).sub(
            &vertical.div_k(2 * SCALE),
        ).sub(&w.scale(fx_mul(focal, focus_dist)));
        Ok(
            Camera {
                position,
                viewport,
                focal,
                lower_left_corner,
                horizontal,
                vertical,
                u,
                v,
                w,
                lens_radius: fx_divn(aperture, 2),
            },
        )
    }

    /// A ray for the normalized image coordinates `(t, s)`: its origin
    /// offset within the lens disk, its direction aimed at the matching
    /// point of the focal plane.
    pub fn ray(&self, t: i64, s: i64, rng: &mut Randomness) -> (r: Ray)
        ensures
            camera_ray_ok(*self, t as int, s as int, r),
    {
        let d = random_in_unit_disk(rng);
        let rd = d.scale(self.lens_radius);
        let offset = self.u.scale(rd.x).add(&self.v.scale(rd.y));
        let r = Ray::new(
            self.position.add(&offset),
            self.lower_left_corner.add(&self.horizontal.scale(t)).add(&self.vertical.scale(s)).sub(
                &self.position,
            ).sub(&offset),
        );
        proof {
            assert(disk_sample_s(d@));
            assert(offset@ == cam_offset_s(*self, d@));
            assert(r.origin@ == cam_ray_origin_s(*self, cam_offset_s(*self, d@)));
            assert(r.direction@ == cam_ray_dir_s(*self, t as int, s as int, cam_offset_s(*self, d@)));
        }
        r
    }
}

/// The halved field-of-view angle of a valid configuration lies in the
/// first quadrant.
proof fn lemma_half_fov_in_range(vert_fov: int)
    requires
        0 < vert_fov < 180 * SCALE as int,
    ensures
        0 <= half_fov_rad_s(vert_fov) <= HALF_PI_FX as int,
        half_fov_rad_s(vert_fov) <= TAU_FX as int,
{
    let m = vert_fov * PI_FX as int;
    assert(0 <= vert_fov * 205887 < 65536 * 37059660) by (nonlinear_arith)
        requires 0 < vert_fov < 11796480;
    assert(m == vert_fov * 205887);
    lemma_tdiv_bound(m, 65536, 37059660);
    let m1 = fx_mul_s(vert_fov, PI_FX as int);
    assert(m1 == tdiv_s(m, 65536));
    lemma_tdiv_bound(m1, 180, 205887);
    let m2 = fx_divn_s(m1, 180);
    assert(m2 == tdiv_s(m1, 180));
    lemma_tdiv_bound(m2, 2, 102944);
    let m3 = fx_divn_s(m2, 2);
    assert(m3 == tdiv_s(m2, 2));
}

/// The render configuration: an immutable value built once before the
/// render begins.  Gamma is carried as its integer denominator: a gamma
/// of `g` raises each channel to the power `1/g`.
#[derive(Debug, Clone, Copy, PartialEq, Eq, Structural)]
pub struct RenderSettings {
    pub antialiasing_samples: u16,
    pub ray_bounce_limit: u16,
    pub gamma: u16,
}

impl Default for RenderSettings {
    /// One sample, no bounces, gamma 1.
    fn default() -> (s: Self)
        ensures
            s.antialiasing_samples == 1,
            s.ray_bounce_limit == 0,
            s.gamma == 1,
    {
        RenderSettings { antialiasing_samples: 1, ray_bounce_limit: 0, gamma: 1 }
    }
}

impl RenderSettings {
    /// The sampler accepts a configuration only when it asks for at
    /// least one sample and a gamma denominator in the exact-root range.
    pub open spec fn valid(&self) -> bool {
        self.antialiasing_samples >= 1 && 1 <= self.gamma <= 7
    }

    /// The configuration with the antialiasing sample count replaced.
    pub fn aa_samples(self, val: u16) -> (s: Self)
        ensures
            s.antialiasing_samples == val,
            s.ray_bounce_limit == self.ray_bounce_limit,
            s.gamma == self.gamma,
    {
        RenderSettings { antialiasing_samples: val, ..self }
    }

    /// The configuration with the bounce budget replaced.
    pub fn ray_bounce_limit(self, val: u16) -> (s: Self)
        ensures
            s.ray_bounce_limit == val,
            s.antialiasing_samples == self.antialiasing_samples,
            s.gamma == self.gamma,
    {
        RenderSettings { ray_bounce_limit: val, ..self }
    }

    /// The configuration with the gamma denominator replaced.  The
    /// sampler honors denominators 1 through 7: the exact root compares
    /// `r^g` against `x * SCALE^(g-1)` in 128-bit arithmetic, which
    /// overflows at a denominator of 8; realistic gammas are 1 to 3.
    pub fn gamma(self, val: u16) -> (s: Self)
        ensures
            s.gamma == val,
            s.antialiasing_samples == self.antialiasing_samples,
            s.ray_bounce_limit == self.ray_bounce_limit,
    {
        RenderSettings { gamma: val, ..self }
    }

    /// Fail fast on a configuration the sampler cannot honor, naming
    /// what is wrong.
    pub fn validate(&self) -> (res: Result<(), ConfigError>)
        ensures
            res is Ok <==> self.valid(),
            res matches Err(e) ==> if self.antialiasing_samples < 1 {
                e == ConfigError::InvalidSamples
            } else {
                e == ConfigError::InvalidGamma
            },
    {
        if self.antialiasing_samples < 1 {
            Err(ConfigError::InvalidSamples)
        } else if !(1 <= self.gamma && self.gamma <= 7) {
            Err(ConfigError::InvalidGamma)
        } else {
            Ok(())
        }
    }
}

} // verus!
