//! The sampler/integrator: per-pixel jittered rays, the bounded walk of
//! scattered light, averaging, gamma correction, and the final clamp.

use vstd::prelude::*;
use crate::camera::{Camera, RenderSettings, camera_ray_ok};
use vstd::arithmetic::power::pow;
use crate::fx::{
    SCALE, fx_add, fx_add_s, fx_clamp, fx_div, fx_div_s, fx_from, fx_from_s, fx_mul, fx_mul_s,
    fx_nroot, fx_sub, fx_sub_s, iroot_s, clamp_s,
};
use crate::image::{C3s, Color, Image, add_cs, bounded_cs, black_s, clamp_cs, div_n_cs, mul_cs, scale_cs, white_s};
use crate::material::{MaterialEffect, material_effect_ok};
use crate::ray::{HitRecord, HittableVec, Ray, T_INFINITY, scan_hit_ok, scan_s};
use crate::rng::{Randomness, random_range, random_unit};
use crate::vec::{Vector, dot, dot_s, neg_vs, polar_unit_s, random_unit_vector, unit_s};

verus! {

/// Lower bound of every scene query: rays restart just off the surface
/// they scattered from, which suppresses immediate re-intersection
/// ("shadow acne").  About 0.001 in fixed point.
pub const T_ACNE: i64 = 65;

/// The ceiling pixel channels are clamped to: just under 1, so a later
/// 8-bit quantization cannot round up to 256.  About 0.999 in fixed
/// point.
pub const CLAMP_MAX: i64 = 65470;

/// The pale blue at the top of the background gradient.
pub open spec fn sky_s() -> C3s {
    C3s { red: 32768, green: 45875, blue: 65536 }
}

/// The pale blue at the top of the background gradient (0.5, 0.7, 1.0).
pub fn sky_color() -> (c: Color)
    ensures
        c@ == sky_s(),
{
    Color::new(32768, 45875, SCALE)
}

/// The background gradient a missing ray resolves to: white at the
/// horizon blending to the sky color with the ray's normalized height,
/// `(1 - t) * white + t * sky` for `t = (unit(direction).y + 1) / 2`.
pub open spec fn background_s(ray: Ray) -> C3s {
    let t = fx_mul_s(32768, fx_add_s(unit_s(ray.direction@).y, SCALE as int));
    add_cs(scale_cs(white_s(), fx_sub_s(SCALE as int, t)), scale_cs(sky_s(), t))
}

/// The background gradient for a ray that hits nothing.
pub fn background(ray: &Ray) -> (c: Color)
    ensures
        c@ == background_s(*ray),
{
    let unit_dir = crate::vec::unit(&ray.direction);
    let t = fx_mul(32768, fx_add(unit_dir.y, SCALE));
    Color::white().scale(fx_sub(SCALE, t)).add(&sky_color().scale(t))
}

/// Whether the scene scan over the standard interval finds a hit for the
/// ray.
pub open spec fn scene_hits_s(world: HittableVec, ray: Ray) -> bool {
    scan_s(world.objects@, ray, T_ACNE as int, T_INFINITY as int).0 is Some
}

/// The walk of scattered light below a ray the scene hits, given as the
/// sequence of (record, effect) pairs at each bounce: every pair is
/// admissible under the scene-scan and material contracts; the walk ends
/// on absorption or an exhausted bounce budget (black), or on a scattered
/// ray that escapes the scene (the folded attenuation times its
/// background), and otherwise continues on the scattered ray with the
/// attenuation folded into the accumulator.
pub open spec fn trace_steps_ok(
    world: HittableVec,
    ray: Ray,
    depth: int,
    acc: C3s,
    steps: Seq<(HitRecord, MaterialEffect)>,
    result: C3s,
) -> bool
    decreases steps.len(),
{
    if steps.len() == 0 {
        false
    } else {
        let h = steps[0].0;
        let e = steps[0].1;
        &&& scan_hit_ok(world, ray, T_ACNE as int, T_INFINITY as int, h)
        &&& material_effect_ok(h.material, ray, h, e)
        &&& match e.scattered {
            None => steps.len() == 1 && result == black_s(),
            Some(next) => {
                let deeper_acc = mul_cs(acc, e.attenuation@);
                if depth <= 0 {
                    steps.len() == 1 && result == black_s()
                } else if !scene_hits_s(world, next) {
                    steps.len() == 1 && result == mul_cs(deeper_acc, background_s(next))
                } else {
                    trace_steps_ok(world, next, depth - 1, deeper_acc, steps.drop_first(), result)
                }
            },
        }
    }
}

/// The whole light walk below a ray the scene hits: some sequence of
/// admissible steps decides the result.
pub open spec fn ray_trace_ok(
    world: HittableVec,
    ray: Ray,
    depth: int,
    acc: C3s,
    result: C3s,
) -> bool {
    exists|steps: Seq<(HitRecord, MaterialEffect)>|
        #[trigger] trace_steps_ok(world, ray, depth, acc, steps, result)
}

/// Everything the integrator promises of a gathered color: black below
/// the bounce budget, the exact background gradient on a miss, and on a
/// hit the result of an admissible light walk starting from a white
/// attenuation.
pub open spec fn ray_color_ok(world: HittableVec, ray: Ray, depth: int, c: C3s) -> bool {
    &&& (depth < 0 ==> c == black_s())
    &&& (depth >= 0 && !scene_hits_s(world, ray) ==> c == background_s(ray))
    &&& (depth >= 0 && scene_hits_s(world, ray) ==> ray_trace_ok(world, ray, depth, white_s(), c))
}

/// The outgoing radiance gathered along a ray, walked iteratively with
/// an accumulated attenuation product: the walk ends on an exhausted
/// bounce budget (black), on absorption (black), or on a miss (the
/// background through the accumulated attenuation).
#[verifier::rlimit(100)]
pub fn ray_color(ray: &Ray, world: &HittableVec, depth: i32, rng: &mut Randomness) -> (c: Color)
    ensures
        ray_color_ok(*world, *ray, depth as int, c@),
{
    if depth < 0 {
        return Color::black();
    }
    let first = world.hit_by(ray, T_ACNE, T_INFINITY);
    match first {
        None => background(ray),
        Some(h0) => {
            let mut acc = Color::white();
            let mut hit_rec = h0;
            let mut current: Ray = *ray;
            let mut remaining: i32 = depth;
            loop
                invariant
                    remaining >= 0,
                    depth >= 0,
                    scene_hits_s(*world, *ray),
                    scan_hit_ok(*world, current, T_ACNE as int, T_INFINITY as int, hit_rec),
                    forall|res: C3s|
                        ray_trace_ok(*world, current, remaining as int, acc@, res)
                            ==> ray_trace_ok(*world, *ray, depth as int, white_s(), res),
                decreases remaining,
            {
                let ghost cur0 = current;
                let ghost rem0 = remaining as int;
                let ghost acc0 = acc@;
                let ghost hit0 = hit_rec;
                let eff = hit_rec.material.scatter(&current, &hit_rec, rng);
                match eff.scattered {
                    None => {
                        proof {
                            assert(trace_steps_ok(
                                *world,
                                cur0,
                                rem0,
                                acc0,
                                seq![(hit0, eff)],
                                black_s(),
                            ));
                            assert(ray_trace_ok(*world, cur0, rem0, acc0, black_s()));
                        }
                        return Color::black();
                    },
                    Some(next_ray) => {
                        acc = acc.mul(&eff.attenuation);
                        if remaining == 0 {
                            proof {
                                assert(trace_steps_ok(
                                    *world,
                                    cur0,
                                    rem0,
                                    acc0,
                                    seq![(hit0, eff)],
                                    black_s(),
                                ));
                                assert(ray_trace_ok(*world, cur0, rem0, acc0, black_s()));
                            }
                            return Color::black();
                        }
                        remaining = remaining - 1;
                        current = next_ray;
                        match world.hit_by(&current, T_ACNE, T_INFINITY) {
                            None => {
                                let out = acc.mul(&background(&current));
                                proof {
                                    assert(!scene_hits_s(*world, next_ray));
                                    assert(out@ == mul_cs(
                                        mul_cs(acc0, eff.attenuation@),
                                        background_s(next_ray),
                                    ));
                                    assert(trace_steps_ok(
                                        *world,
                                        cur0,
                                        rem0,
                                        acc0,
                                        seq![(hit0, eff)],
                                        out@,
                                    ));
                                    assert(ray_trace_ok(*world, cur0, rem0, acc0, out@));
                                }
                                return out;
                            },
                            Some(h) => {
                                hit_rec = h;
                                proof {
                                    assert forall|res: C3s|
                                        ray_trace_ok(
                                            *world,
                                            current,
                                            remaining as int,
                                            acc@,
                                            res,
                                        ) implies ray_trace_ok(
                                        *world,
                                        *ray,
                                        depth as int,
                                        white_s(),
                                        res,
                                    ) by {
                                        let steps = choose|steps: Seq<(HitRecord, MaterialEffect)>|
                                            trace_steps_ok(
                                                *world,
                                                current,
                                                remaining as int,
                                                acc@,
                                                steps,
                                                res,
                                            );
                                        let longer = seq![(hit0, eff)] + steps;
                                        assert(longer.drop_first() =~= steps);
                                        assert(longer[0] == (hit0, eff));
                                        assert(trace_steps_ok(
                                            *world,
                                            cur0,
                                            rem0,
                                            acc0,
                                            longer,
                                            res,
                                        ));
                                        assert(ray_trace_ok(*world, cur0, rem0, acc0, res));
                                    }
                                }
                            },
                        }
                    },
                }
            }
        },
    }
}

/// A random direction in the hemisphere about a normal: a unit draw,
/// negated when it points into the surface.
pub fn random_in_hemisphere(normal: &Vector, rng: &mut Randomness) -> (v: Vector)
    ensures
        exists|theta: int, z: int|
            0 <= theta < crate::fx::TAU_FX && -SCALE <= z < SCALE && v@ == if dot_s(
                polar_unit_s(theta, z),
                normal@,
            ) > 0 {
                polar_unit_s(theta, z)
            } else {
                neg_vs(polar_unit_s(theta, z))
            },
{
    let random_dir = random_unit_vector(rng);
    let d = dot(&random_dir, normal);
    let out = if d > 0 {
        random_dir
    } else {
        random_dir.neg()
    };
    proof {
        let (theta, z): (int, int) = choose|theta: int, z: int|
            0 <= theta < crate::fx::TAU_FX && -SCALE <= z < SCALE && random_dir@ == polar_unit_s(
                theta,
                z,
            );
        assert(out@ == if dot_s(polar_unit_s(theta, z), normal@) > 0 {
            polar_unit_s(theta, z)
        } else {
            neg_vs(polar_unit_s(theta, z))
        });
    }
    out
}

/// A random color with each channel uniform in `[0, 1)`.
pub fn random_color(rng: &mut Randomness) -> (c: Color)
    ensures
        bounded_cs(c@, 0, SCALE as int - 1),
{
    Color::new(random_unit(rng), random_unit(rng), random_unit(rng))
}

/// A random color with each channel uniform in `[min, max)`.
pub fn random_color_ranged(min: i64, max: i64, rng: &mut Randomness) -> (c: Color)
    requires
        min < max,
    ensures
        bounded_cs(c@, min as int, max as int - 1),
{
    Color::new(
        random_range(min, max, rng),
        random_range(min, max, rng),
        random_range(min, max, rng),
    )
}

/// The per-pixel tone mapping: the accumulated mean clamped into the
/// unit range, taken to the gamma root channelwise, and clamped into the
/// displayable range.
pub open spec fn finalize_cs(m: C3s, g: nat) -> C3s {
    let e = (g - 1) as nat;
    clamp_cs(
        C3s {
            red: iroot_s(clamp_s(m.red, 0, SCALE as int) * pow(SCALE as int, e), g),
            green: iroot_s(clamp_s(m.green, 0, SCALE as int) * pow(SCALE as int, e), g),
            blue: iroot_s(clamp_s(m.blue, 0, SCALE as int) * pow(SCALE as int, e), g),
        },
        0,
        CLAMP_MAX as int,
    )
}

/// The normalized horizontal image coordinate of a jittered column:
/// `(col + jitter) / (width - 1)`.
pub open spec fn u_coord_s(col: int, jitter: int, width: int) -> int {
    fx_div_s(fx_add_s(fx_from_s(col), jitter), fx_from_s(width - 1))
}

/// The normalized vertical image coordinate of a jittered row:
/// `(height - (line + jitter)) / (height - 1)`; row 0 is the top of the
/// image, so the coordinate increases upward in camera space.
pub open spec fn v_coord_s(line: int, jitter: int, height: int) -> int {
    fx_div_s(fx_sub_s(fx_from_s(height), fx_add_s(fx_from_s(line), jitter)), fx_from_s(height - 1))
}

/// One admissible antialiasing sample at a pixel: for some jitter pair in
/// `[0, 1)` there is a camera ray at the jittered image coordinates whose
/// gathered radiance the integrator admits as `c`.
pub open spec fn sample_ok(
    world: HittableVec,
    camera: Camera,
    bounce_limit: int,
    width: int,
    height: int,
    line: int,
    col: int,
    c: C3s,
) -> bool {
    exists|ju: int, jv: int, r: Ray|
        {
            &&& 0 <= ju < SCALE as int
            &&& 0 <= jv < SCALE as int
            &&& #[trigger] camera_ray_ok(
                camera,
                u_coord_s(col, ju, width),
                v_coord_s(line, jv, height),
                r,
            )
            &&& ray_color_ok(world, r, bounce_limit, c)
        }
}

/// Channelwise total of a sequence of colors, folded from black in
/// arrival order.
pub open spec fn color_sum_s(vals: Seq<C3s>) -> C3s
    decreases vals.len(),
{
    if vals.len() == 0 {
        black_s()
    } else {
        add_cs(color_sum_s(vals.drop_last()), vals.last())
    }
}

/// Every entry of a sample sequence is admissible for the pixel.
pub open spec fn samples_ok(
    world: HittableVec,
    camera: Camera,
    bounce_limit: int,
    width: int,
    height: int,
    line: int,
    col: int,
    vals: Seq<C3s>,
) -> bool {
    forall|i: int|
        0 <= i < vals.len() ==> sample_ok(
            world,
            camera,
            bounce_limit,
            width,
            height,
            line,
            col,
            #[trigger] vals[i],
        )
}

/// What the sampler writes at a pixel: the tone-mapped mean of the
/// configured number of admissible samples at that pixel's coordinates.
pub open spec fn pixel_ok(
    world: HittableVec,
    camera: Camera,
    settings: RenderSettings,
    width: int,
    height: int,
    line: int,
    col: int,
    px: C3s,
) -> bool {
    exists|vals: Seq<C3s>|
        {
            &&& vals.len() == settings.antialiasing_samples as int
            &&& #[trigger] samples_ok(
                world,
                camera,
                settings.ray_bounce_limit as int,
                width,
                height,
                line,
                col,
                vals,
            )
            &&& px == finalize_cs(
                div_n_cs(color_sum_s(vals), settings.antialiasing_samples as int),
                settings.gamma as nat,
            )
        }
}

/// Render every pixel: accumulate the configured number of jittered
/// samples, average them, gamma correct with the configured denominator,
/// clamp, and store row-major.  Every written pixel is the tone-mapped
/// mean of admissible samples at its own coordinates, and every channel
/// ends in `[0, CLAMP_MAX]`.
pub fn fill_image(
    img: &mut Image,
    settings: &RenderSettings,
    camera: &Camera,
    world: &HittableVec,
    rng: &mut Randomness,
)
    requires
        old(img).wf(),
        old(img).width <= 0x10_0000,
        old(img).height <= 0x10_0000,
        settings.valid(),
    ensures
        final(img).wf(),
        final(img).width == old(img).width,
        final(img).height == old(img).height,
        forall|i: int|
            0 <= i < final(img).data@.len() ==> bounded_cs(
                #[trigger] final(img).data@[i]@,
                0,
                CLAMP_MAX as int,
            ),
        forall|line: int, col: int|
            0 <= line < old(img).height && 0 <= col < old(img).width ==> pixel_ok(
                *world,
                *camera,
                *settings,
                old(img).width as int,
                old(img).height as int,
                line,
                col,
                #[trigger] final(img).data@[line * old(img).width + col]@,
            ),
{
    let samples = settings.antialiasing_samples;
    let width = img.width;
    let height = img.height;
    let mut line: usize = 0;
    while line < height
        invariant
            img.wf(),
            img.width == width,
            img.height == height,
            width <= 0x10_0000,
            height <= 0x10_0000,
            img.data@.len() == width * height,
            line <= height,
            samples == settings.antialiasing_samples,
            settings.valid(),
            forall|i: int|
                0 <= i < line * width ==> bounded_cs(#[trigger] img.data@[i]@, 0, CLAMP_MAX as int),
            forall|l: int, c: int|
                0 <= l < line && 0 <= c < width ==> pixel_ok(
                    *world,
                    *camera,
                    *settings,
                    width as int,
                    height as int,
                    l,
                    c,
                    #[trigger] img.data@[l * width + c]@,
                ),
        decreases height - line,
    {
        let mut col: usize = 0;
        while col < width
            invariant
                img.wf(),
                img.width == width,
                img.height == height,
                width <= 0x10_0000,
                height <= 0x10_0000,
                img.data@.len() == width * height,
                line < height,
                col <= width,
                samples == settings.antialiasing_samples,
                settings.valid(),
                forall|i: int|
                    0 <= i < line * width + col ==> bounded_cs(
                        #[trigger] img.data@[i]@,
                        0,
                        CLAMP_MAX as int,
                    ),
                forall|l: int, c: int|
                    0 <= l < height && 0 <= c < width && (l < line || (l == line && c < col))
                        ==> pixel_ok(
                        *world,
                        *camera,
                        *settings,
                        width as int,
                        height as int,
                        l,
                        c,
                        #[trigger] img.data@[l * width + c]@,
                    ),
            decreases width - col,
        {
            let mut color = Color::black();
            let mut s: u16 = 0;
            let ghost mut vals: Seq<C3s> = Seq::empty();
            while s < samples
                invariant
                    samples == settings.antialiasing_samples,
                    col < width <= 0x10_0000,
                    line < height <= 0x10_0000,
                    s <= samples,
                    s as int == vals.len(),
                    color@ == color_sum_s(vals),
                    samples_ok(
                        *world,
                        *camera,
                        settings.ray_bounce_limit as int,
                        width as int,
                        height as int,
                        line as int,
                        col as int,
                        vals,
                    ),
                decreases samples - s,
            {
                let ju = random_unit(rng);
                let jv = random_unit(rng);
                let u = fx_div(fx_add(fx_from(col as i64), ju), fx_from(width as i64 - 1));
                let v = fx_div(
                    fx_sub(fx_from(height as i64), fx_add(fx_from(line as i64), jv)),
                    fx_from(height as i64 - 1),
                );
                let r = camera.ray(u, v, rng);
                let sample = ray_color(&r, world, settings.ray_bounce_limit as i32, rng);
                let ghost vals0 = vals;
                proof {
                    assert(u as int == u_coord_s(col as int, ju as int, width as int));
                    assert(v as int == v_coord_s(line as int, jv as int, height as int));
                    assert(camera_ray_ok(
                        *camera,
                        u_coord_s(col as int, ju as int, width as int),
                        v_coord_s(line as int, jv as int, height as int),
                        r,
                    ));
                    assert(sample_ok(
                        *world,
                        *camera,
                        settings.ray_bounce_limit as int,
                        width as int,
                        height as int,
                        line as int,
                        col as int,
                        sample@,
                    ));
                    vals = vals.push(sample@);
                }
                color = color.add(&sample);
                proof {
                    assert(vals.drop_last() =~= vals0);
                    assert(vals.last() == sample@);
                    assert(color@ == color_sum_s(vals));
                    assert forall|i: int| 0 <= i < vals.len() implies sample_ok(
                        *world,
                        *camera,
                        settings.ray_bounce_limit as int,
                        width as int,
                        height as int,
                        line as int,
                        col as int,
                        #[trigger] vals[i],
                    ) by {
                        if i < vals0.len() {
                            assert(vals[i] == vals0[i]);
                        } else {
                            assert(vals[i] == sample@);
                        }
                    }
                }
                s = s + 1;
            }
            let mean = color.div_n(samples as i64);
            let g = settings.gamma;
            let mut px = Color::new(
                fx_nroot(fx_clamp(mean.red, 0, SCALE), g),
                fx_nroot(fx_clamp(mean.green, 0, SCALE), g),
                fx_nroot(fx_clamp(mean.blue, 0, SCALE), g),
            );
            px.clamp(0, CLAMP_MAX);
            proof {
                assert(px@ == finalize_cs(mean@, settings.gamma as nat));
                assert(mean@ == div_n_cs(
                    color_sum_s(vals),
                    settings.antialiasing_samples as int,
                ));
                assert(pixel_ok(
                    *world,
                    *camera,
                    *settings,
                    width as int,
                    height as int,
                    line as int,
                    col as int,
                    px@,
                ));
                assert(line * width + col < width * height) by (nonlinear_arith)
                    requires
                        line < height,
                        col < width,
                        0 <= line,
                        0 <= col,
                ;
            }
            let ghost data0 = img.data@;
            let idx = line * width + col;
            img.data[idx] = px;
            proof {
                assert forall|l: int, c: int|
                    0 <= l < height && 0 <= c < width && (l < line || (l == line && c < col + 1))
                        implies pixel_ok(
                    *world,
                    *camera,
                    *settings,
                    width as int,
                    height as int,
                    l,
                    c,
                    #[trigger] img.data@[l * width + c]@,
                ) by {
                    if l == line && c == col {
                        assert(img.data@[l * width + c] == px);
                    } else {
                        assert(l * width + c < line * width + col) by (nonlinear_arith)
                            requires
                                0 <= l,
                                0 <= c,
                                c < width,
                                0 <= col,
                                col < width,
                                0 <= line,
                                l < line || (l == line && c < col),
                        ;
                        assert(img.data@[l * width + c] == data0[l * width + c]);
                        assert(pixel_ok(
                            *world,
                            *camera,
                            *settings,
                            width as int,
                            height as int,
                            l,
                            c,
                            data0[l * width + c]@,
                        ));
                    }
                }
            }
            col = col + 1;
        }
        proof {
            assert((line + 1) * width == line * width + width) by (nonlinear_arith);
        }
        line = line + 1;
    }
    proof {
        assert(line * width >= img.data@.len()) by (nonlinear_arith)
            requires
                line == height,
                img.data@.len() == width * height,
                0 <= width,
        ;
    }
}

} // verus!
