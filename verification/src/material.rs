//! Light-scattering models: diffuse, specular with fuzz, and refractive.

use vstd::prelude::*;
use crate::fx::{
    SCALE, TAU_FX, fx_abs, fx_abs_s, fx_add, fx_add_s, fx_div, fx_div_s, fx_min, fx_mul, fx_mul_s,
    fx_neg, fx_neg_s, fx_sqrt, fx_sqrt_s, fx_sub, fx_sub_s, lemma_fx_mul_minus_one,
    lemma_fx_mul_one, lemma_isqrt_unique, tdiv_s,
};
use crate::image::{C3s, Color, white_s};
use crate::ray::{HitRecord, Ray};
use crate::rng::{Randomness, random_unit};
use crate::vec::{
    V3s, Vector, add_vs, bounded_vs, dot, dot_s, len_sq_s, neg_vs, polar_unit_s, reflect,
    reflect_s, random_unit_vector, scale_vs, unit, unit_s,
};

verus! {

/// What a material does to an incoming ray: how much light each channel
/// keeps, and the outgoing ray if the light was not absorbed.
pub struct MaterialEffect {
    pub attenuation: Color,
    pub scattered: Option<Ray>,
}

impl Default for MaterialEffect {
    /// Full absorption: black attenuation and no outgoing ray.
    fn default() -> (e: Self)
        ensures
            e.attenuation@ == (C3s { red: 0, green: 0, blue: 0 }),
            e.scattered is None,
    {
        Self { attenuation: Color::new(0, 0, 0), scattered: None }
    }
}

impl MaterialEffect {
    /// An effect that scatters.
    pub fn new(attenuation: Color, scatter: Ray) -> (e: Self)
        ensures
            e.attenuation == attenuation,
            e.scattered == Some(scatter),
    {
        Self { attenuation, scattered: Some(scatter) }
    }

    /// An absorbed ray: attenuation only.
    pub fn with_attenuation(attenuation: Color) -> (e: Self)
        ensures
            e.attenuation == attenuation,
            e.scattered is None,
    {
        Self { attenuation, scattered: None }
    }
}

/// A diffuse surface: scatters about the normal, never absorbs.
#[derive(Debug, Clone, Copy)]
pub struct Lambertian {
    pub albedo: Color,
}

/// A specular surface: mirror reflection perturbed by a fuzz radius,
/// absorbing rays that would reflect into the surface.
#[derive(Debug, Clone, Copy)]
pub struct Metal {
    pub albedo: Color,
    pub fuzz: i64,
}

/// A refractive surface: reflects or refracts by Snell's law and a
/// Schlick reflectance draw, never absorbs.
#[derive(Debug, Clone, Copy)]
pub struct Dielectric {
    pub refraction_index: i64,
}

/// The closed set of materials.
#[derive(Debug, Clone, Copy)]
pub enum Material {
    Lambertian(Lambertian),
    Metal(Metal),
    Dielectric(Dielectric),
}

/// The scatter direction of a diffuse bounce: the normal plus a random
/// unit vector, guarded to the bare normal when the two cancel.
pub open spec fn lambertian_dir_s(normal: V3s, u: V3s) -> V3s {
    if add_vs(normal, u) == (V3s { x: 0, y: 0, z: 0 }) {
        normal
    } else {
        add_vs(normal, u)
    }
}

/// What diffuse scattering promises of an effect: the albedo as
/// attenuation and an outgoing ray from the hit point whose direction is
/// the diffuse form for some polar draw.
pub open spec fn lambertian_effect_ok(m: Lambertian, hit: HitRecord, e: MaterialEffect) -> bool {
    &&& e.attenuation == m.albedo
    &&& e.scattered is Some
    &&& (e.scattered matches Some(s) ==> s.origin == hit.point && exists|theta: int, z: int|
        0 <= theta < TAU_FX && -SCALE <= z < SCALE && s.direction@ == lambertian_dir_s(
            hit.normal@,
            polar_unit_s(theta, z),
        ))
}

impl Lambertian {
    pub fn new(albedo: Color) -> (m: Lambertian)
        ensures
            m.albedo == albedo,
    {
        Lambertian { albedo }
    }

    /// Diffuse scattering: always emits a ray from the hit point, with
    /// the albedo as attenuation; a degenerate (cancelled) direction is
    /// replaced by the normal itself.
    pub fn scatter(&self, _ray: &Ray, hit: &HitRecord, rng: &mut Randomness) -> (e: MaterialEffect)
        ensures
            lambertian_effect_ok(*self, *hit, e),
    {
        let rand_dir = random_unit_vector(rng);
        let candidate = hit.normal.add(&rand_dir);
        let scatter_dir = if candidate.x == 0 && candidate.y == 0 && candidate.z == 0 {
            hit.normal
        } else {
            candidate
        };
        proof {
            let (theta, z): (int, int) = choose|theta: int, z: int|
                0 <= theta < TAU_FX && -SCALE <= z < SCALE && rand_dir@ == polar_unit_s(theta, z);
            assert(scatter_dir@ == lambertian_dir_s(hit.normal@, polar_unit_s(theta, z)));
        }
        MaterialEffect::new(self.albedo, Ray::new(hit.point, scatter_dir))
    }
}

/// The fuzz-perturbed specular direction: the mirror reflection plus the
/// fuzz-scaled random offset.
pub open spec fn metal_dir_s(d: V3s, n: V3s, fuzz: int, u: V3s) -> V3s {
    add_vs(reflect_s(d, n), scale_vs(u, fuzz))
}

/// One drawn offset decides a specular outcome: the effect scatters
/// exactly when the fuzz-perturbed reflection leaves the surface, and
/// then emits it from the hit point.
pub open spec fn metal_outcome_ok(m: Metal, ray: Ray, hit: HitRecord, e: MaterialEffect, u: V3s) -> bool {
    let dir = metal_dir_s(ray.direction@, hit.normal@, m.fuzz as int, u);
    match e.scattered {
        None => dot_s(dir, hit.normal@) <= 0,
        Some(s) => dot_s(dir, hit.normal@) > 0 && s.origin == hit.point && s.direction@ == dir,
    }
}

/// What specular scattering promises of an effect: the albedo as
/// attenuation, and for some polar draw the fuzz-perturbed outcome; with
/// fuzz 0 the outcome is decided by, and emits, the bare reflection.
pub open spec fn metal_effect_ok(m: Metal, ray: Ray, hit: HitRecord, e: MaterialEffect) -> bool {
    &&& e.attenuation == m.albedo
    &&& exists|theta: int, z: int|
        0 <= theta < TAU_FX && -SCALE <= z < SCALE && metal_outcome_ok(
            m,
            ray,
            hit,
            e,
            polar_unit_s(theta, z),
        )
    &&& (m.fuzz == 0 ==> (e.scattered is Some <==> dot_s(
        reflect_s(ray.direction@, hit.normal@),
        hit.normal@,
    ) > 0))
    &&& (m.fuzz == 0 ==> (e.scattered matches Some(s) ==> s.direction@ == reflect_s(
        ray.direction@,
        hit.normal@,
    )))
}

impl Metal {
    /// Fuzz is clamped from above to 1; a negative fuzz passes through
    /// unclamped, as the reference behavior has it.
    pub fn new(albedo: Color, fuziness: i64) -> (m: Metal)
        ensures
            m.albedo == albedo,
            m.fuzz as int == if fuziness < SCALE {
                fuziness as int
            } else {
                SCALE as int
            },
    {
        Metal {
            albedo,
            fuzz: if fuziness < SCALE {
                fuziness
            } else {
                SCALE
            },
        }
    }

    /// Specular scattering: the mirror reflection plus a fuzz-scaled
    /// random offset; a perturbed reflection landing inside the surface
    /// (`dot(reflected, normal) <= 0`) is absorbed.  With fuzz 0 the
    /// emitted direction is the exact mirror reflection.
    pub fn scatter(&self, ray: &Ray, hit: &HitRecord, rng: &mut Randomness) -> (e: MaterialEffect)
        ensures
            metal_effect_ok(*self, *ray, *hit, e),
    {
        let reflected = reflect(&ray.direction, &hit.normal);
        let rand_dir = random_unit_vector(rng);
        let direction = reflected.add(&rand_dir.scale(self.fuzz));
        let e = if dot(&direction, &hit.normal) > 0 {
            MaterialEffect::new(self.albedo, Ray::new(hit.point, direction))
        } else {
            MaterialEffect::with_attenuation(self.albedo)
        };
        proof {
            let (theta, z): (int, int) = choose|theta: int, z: int|
                0 <= theta < TAU_FX && -SCALE <= z < SCALE && rand_dir@ == polar_unit_s(theta, z);
            assert(direction@ == metal_dir_s(
                ray.direction@,
                hit.normal@,
                self.fuzz as int,
                polar_unit_s(theta, z),
            ));
            assert(metal_outcome_ok(*self, *ray, *hit, e, polar_unit_s(theta, z)));
            if self.fuzz == 0 {
                assert(scale_vs(polar_unit_s(theta, z), 0) == (V3s { x: 0, y: 0, z: 0 }));
                assert(direction@ == reflect_s(ray.direction@, hit.normal@));
            }
        }
        e
    }
}

/// Snell refraction by perpendicular/parallel decomposition:
/// `r_perp = ratio * (incoming + cos * normal)`,
/// `r_par = -sqrt(|1 - |r_perp|^2|) * normal`.
pub open spec fn refract_s(incoming: V3s, normal: V3s, etai_over_etat: int) -> V3s {
    let cos = dot_s(neg_vs(incoming), normal);
    let r_perp = scale_vs(add_vs(incoming, scale_vs(normal, cos)), etai_over_etat);
    let r_par = scale_vs(
        normal,
        fx_neg_s(fx_sqrt_s(fx_abs_s(fx_sub_s(SCALE as int, len_sq_s(r_perp))))),
    );
    add_vs(r_perp, r_par)
}

fn refract(incoming: &Vector, normal: &Vector, etai_over_etat: i64) -> (r: Vector)
    ensures
        r@ == refract_s(incoming@, normal@, etai_over_etat as int),
{
    let cos = dot(&incoming.neg(), normal);
    let r_perp = incoming.add(&normal.scale(cos)).scale(etai_over_etat);
    let r_par = normal.scale(fx_neg(fx_sqrt(fx_abs(fx_sub(SCALE, r_perp.length_squared())))));
    r_perp.add(&r_par)
}

/// The Schlick approximation of the Fresnel reflection coefficient:
/// `r0^2 + (1 - r0^2) * (1 - cos)^5` with `r0 = (1 - ratio) / (1 + ratio)`.
pub open spec fn reflectance_s(cos: int, refr_ratio: int) -> int {
    let r0 = fx_div_s(fx_sub_s(SCALE as int, refr_ratio), fx_add_s(SCALE as int, refr_ratio));
    let r0sq = fx_mul_s(r0, r0);
    let p = fx_sub_s(SCALE as int, cos);
    let p5 = fx_mul_s(fx_mul_s(fx_mul_s(fx_mul_s(p, p), p), p), p);
    fx_add_s(r0sq, fx_mul_s(fx_sub_s(SCALE as int, r0sq), p5))
}

fn reflectance(cos: i64, refr_ratio: i64) -> (r: i64)
    ensures
        r as int == reflectance_s(cos as int, refr_ratio as int),
{
    let r0 = fx_div(fx_sub(SCALE, refr_ratio), fx_add(SCALE, refr_ratio));
    let r0sq = fx_mul(r0, r0);
    let p = fx_sub(SCALE, cos);
    let p5 = fx_mul(fx_mul(fx_mul(fx_mul(p, p), p), p), p);
    fx_add(r0sq, fx_mul(fx_sub(SCALE, r0sq), p5))
}

/// The effective refraction ratio at a boundary: the reciprocal of the
/// index entering the object, the bare index leaving it.
pub open spec fn dielectric_ratio_s(d: Dielectric, front_face: bool) -> int {
    if front_face {
        fx_div_s(SCALE as int, d.refraction_index as int)
    } else {
        d.refraction_index as int
    }
}

/// The clamped incidence cosine `min(dot(-unit(incoming), normal), 1)`.
pub open spec fn dielectric_cos_s(incoming: V3s, normal: V3s) -> int {
    let c = dot_s(neg_vs(unit_s(incoming)), normal);
    if c <= SCALE as int {
        c
    } else {
        SCALE as int
    }
}

/// Whether total internal reflection forces a reflection:
/// `ratio * sin_theta > 1`.
pub open spec fn cannot_refract_s(incoming: V3s, normal: V3s, ratio: int) -> bool {
    let cos = dielectric_cos_s(incoming, normal);
    let sin = fx_sqrt_s(fx_sub_s(SCALE as int, fx_mul_s(cos, cos)));
    fx_mul_s(ratio, sin) > SCALE as int
}

/// What refractive scattering promises of an effect: white attenuation,
/// an outgoing ray from the hit point whose direction is the mirror
/// reflection or the Snell refraction of the unit incoming direction;
/// total internal reflection forces the reflection, and a unit index
/// head on against an exact unit normal passes the ray through.
pub open spec fn dielectric_effect_ok(m: Dielectric, ray: Ray, hit: HitRecord, e: MaterialEffect) -> bool {
    &&& e.attenuation@ == white_s()
    &&& e.scattered is Some
    &&& (e.scattered matches Some(s) ==> s.origin == hit.point && (s.direction@ == reflect_s(
        unit_s(ray.direction@),
        hit.normal@,
    ) || s.direction@ == refract_s(
        unit_s(ray.direction@),
        hit.normal@,
        dielectric_ratio_s(m, hit.front_face),
    )))
    &&& (cannot_refract_s(ray.direction@, hit.normal@, dielectric_ratio_s(m, hit.front_face))
        ==> (e.scattered matches Some(s) ==> s.direction@ == reflect_s(
        unit_s(ray.direction@),
        hit.normal@,
    )))
    &&& ((m.refraction_index == SCALE && hit.front_face && unit_s(ray.direction@) == neg_vs(
        hit.normal@,
    ) && dot_s(hit.normal@, hit.normal@) == SCALE as int && bounded_vs(hit.normal@, SCALE as int))
        ==> (e.scattered matches Some(s) ==> s.direction@ == unit_s(ray.direction@)))
}

/// At a unit refraction index, against an exact unit normal, the Schlick
/// reflectance vanishes and the Snell refraction of a head-on unit ray
/// is the identity.
proof fn lemma_unit_index_identity(n: V3s)
    requires
        dot_s(n, n) == SCALE as int,
        bounded_vs(n, SCALE as int),
    ensures
        fx_div_s(SCALE as int, SCALE as int) == SCALE as int,
        reflectance_s(SCALE as int, SCALE as int) == 0,
        fx_sqrt_s(fx_sub_s(SCALE as int, fx_mul_s(SCALE as int, SCALE as int))) == 0,
        fx_mul_s(SCALE as int, 0) == 0,
        dot_s(neg_vs(neg_vs(n)), n) == SCALE as int,
        refract_s(neg_vs(n), n, SCALE as int) == neg_vs(n),
{
    let s = SCALE as int;
    let u = neg_vs(n);
    lemma_fx_mul_one(n.x);
    lemma_fx_mul_one(n.y);
    lemma_fx_mul_one(n.z);
    lemma_fx_mul_minus_one(n.x);
    lemma_fx_mul_minus_one(n.y);
    lemma_fx_mul_minus_one(n.z);
    lemma_fx_mul_one(s);
    lemma_fx_mul_one(0);
    vstd::arithmetic::div_mod::lemma_div_of0(s);
    vstd::arithmetic::div_mod::lemma_div_of0(2 * s);
    assert(tdiv_s(0, s) == 0);
    assert(tdiv_s(0, 2 * s) == 0);
    assert(fx_mul_s(0, 0) == 0);
    assert(fx_mul_s(s, 0) == 0);
    assert(neg_vs(u) == n);
    assert((s * s) / s == s) by {
        vstd::arithmetic::div_mod::lemma_div_by_multiple(s, s);
    }
    assert(fx_div_s(s, s) == s);
    assert(fx_sub_s(s, s) == 0);
    assert(fx_div_s(0, 2 * s) == 0);
    assert(reflectance_s(s, s) == 0);
    assert(fx_sqrt_s(fx_sub_s(s, fx_mul_s(s, s))) == 0);
    assert(scale_vs(n, s) == n);
    assert(add_vs(u, n) == (V3s { x: 0, y: 0, z: 0 }));
    let r_perp = scale_vs(add_vs(u, scale_vs(n, s)), s);
    assert(r_perp == (V3s { x: 0, y: 0, z: 0 }));
    assert(len_sq_s(r_perp) == 0);
    assert(fx_abs_s(fx_sub_s(s, 0)) == s);
    assert(s * s == 0x1_0000_0000);
    lemma_isqrt_unique(0x1_0000_0000, s);
    assert(fx_sqrt_s(s) == s);
    let r_par = scale_vs(n, fx_neg_s(s));
    assert(r_par == u);
    assert(add_vs(r_perp, r_par) == u);
    assert(refract_s(u, n, s) == u);
}

impl Dielectric {
    pub fn new(refraction_index: i64) -> (m: Dielectric)
        ensures
            m.refraction_index == refraction_index,
    {
        Dielectric { refraction_index }
    }

    /// Refractive scattering: always emits a ray from the hit point with
    /// no absorption; the direction is the mirror reflection when total
    /// internal reflection forces it or a Schlick draw chooses it, and
    /// the Snell refraction otherwise.  At a unit index, head on against
    /// a unit normal, the ray passes through with direction unchanged.
    #[verifier::rlimit(30)]
    pub fn scatter(&self, ray: &Ray, hit: &HitRecord, rng: &mut Randomness) -> (e: MaterialEffect)
        ensures
            dielectric_effect_ok(*self, *ray, *hit, e),
    {
        let no_attenuation = Color::new(SCALE, SCALE, SCALE);
        let refraction_ratio = if hit.front_face {
            fx_div(SCALE, self.refraction_index)
        } else {
            self.refraction_index
        };
        let unit_dir = unit(&ray.direction);
        let cos_theta = fx_min(dot(&unit_dir.neg(), &hit.normal), SCALE);
        let sin_theta = fx_sqrt(fx_sub(SCALE, fx_mul(cos_theta, cos_theta)));
        let cannot_refract = fx_mul(refraction_ratio, sin_theta) > SCALE;
        let rand_fx = random_unit(rng);
        let new_ray_dir = if cannot_refract || reflectance(cos_theta, refraction_ratio) > rand_fx {
            reflect(&unit_dir, &hit.normal)
        } else {
            refract(&unit_dir, &hit.normal, refraction_ratio)
        };
        proof {
            if self.refraction_index == SCALE && hit.front_face && unit_s(ray.direction@)
                == neg_vs(hit.normal@) && dot_s(hit.normal@, hit.normal@) == SCALE as int
                && bounded_vs(hit.normal@, SCALE as int) {
                let n = hit.normal@;
                let u = neg_vs(n);
                lemma_unit_index_identity(n);
                assert(unit_dir@ == u);
                assert(cos_theta as int == SCALE as int);
                assert(refraction_ratio as int == SCALE as int);
                assert(sin_theta as int == 0);
                assert(!cannot_refract);
                assert(new_ray_dir@ == refract_s(u, n, SCALE as int));
            }
        }
        MaterialEffect::new(no_attenuation, Ray::new(hit.point, new_ray_dir))
    }
}

/// What scattering promises of an effect, by variant: the full contract
/// of the variant struck.  Opaque: callers pass the fact along whole and
/// reveal it where a variant's clauses are needed.
#[verifier::opaque]
pub open spec fn material_effect_ok(m: Material, ray: Ray, hit: HitRecord, e: MaterialEffect) -> bool {
    match m {
        Material::Lambertian(l) => lambertian_effect_ok(l, hit, e),
        Material::Metal(mt) => metal_effect_ok(mt, ray, hit, e),
        Material::Dielectric(d) => dielectric_effect_ok(d, ray, hit, e),
    }
}

impl Material {
    /// Dispatch to the variant's scattering model, carrying its whole
    /// contract.
    pub fn scatter(&self, ray: &Ray, hit: &HitRecord, rng: &mut Randomness) -> (e: MaterialEffect)
        ensures
            material_effect_ok(*self, *ray, *hit, e),
            e.scattered matches Some(s) ==> s.origin == hit.point,
    {
        proof {
            reveal(material_effect_ok);
        }
        match self {
            Material::Lambertian(m) => m.scatter(ray, hit, rng),
            Material::Metal(m) => m.scatter(ray, hit, rng),
            Material::Dielectric(m) => m.scatter(ray, hit, rng),
        }
    }
}

} // verus!
