//! Sphere geometry and its ray-intersection routine.

use vstd::prelude::*;
use crate::fx::{
    SCALE, fx_add, fx_add_s, fx_div, fx_div_s, fx_mul, fx_mul_s, fx_neg, fx_neg_s, fx_sqrt,
    fx_sqrt_s, fx_sub, fx_sub_s,
};
use crate::material::Material;
use crate::ray::{HitRecord, Ray, at_s};
use crate::vec::{Point, V3s, div_vs, dot, dot_s, len_sq_s, neg_vs, sub_vs};

verus! {

/// A sphere bound to a material.  The radius may be negative: that models
/// a hollow inner surface by inverting the effective normal.
#[derive(Debug, Clone, Copy)]
pub struct Sphere {
    pub center: Point,
    pub radius: i64,
    pub material: Material,
}

/// `|direction|^2`, the leading quadratic coefficient.
pub open spec fn quad_a_s(ray: Ray) -> int {
    len_sq_s(ray.direction@)
}

/// Half the linear quadratic coefficient: `dot(direction, origin - center)`.
pub open spec fn quad_half_b_s(s: Sphere, ray: Ray) -> int {
    dot_s(ray.direction@, sub_vs(ray.origin@, s.center@))
}

/// The constant quadratic coefficient: `|origin - center|^2 - radius^2`.
pub open spec fn quad_c_s(s: Sphere, ray: Ray) -> int {
    fx_sub_s(len_sq_s(sub_vs(ray.origin@, s.center@)), fx_mul_s(s.radius as int, s.radius as int))
}

/// The reduced discriminant `half_b^2 - a*c`; negative means the ray's
/// line misses the sphere.
pub open spec fn discriminant_s(s: Sphere, ray: Ray) -> int {
    fx_sub_s(
        fx_mul_s(quad_half_b_s(s, ray), quad_half_b_s(s, ray)),
        fx_mul_s(quad_a_s(ray), quad_c_s(s, ray)),
    )
}

/// The smaller root `(-half_b - sqrt(disc)) / a`.
pub open spec fn root_near_s(s: Sphere, ray: Ray) -> int {
    fx_div_s(
        fx_sub_s(fx_neg_s(quad_half_b_s(s, ray)), fx_sqrt_s(discriminant_s(s, ray))),
        quad_a_s(ray),
    )
}

/// The larger root `(-half_b + sqrt(disc)) / a`.
pub open spec fn root_far_s(s: Sphere, ray: Ray) -> int {
    fx_div_s(
        fx_add_s(fx_neg_s(quad_half_b_s(s, ray)), fx_sqrt_s(discriminant_s(s, ray))),
        quad_a_s(ray),
    )
}

/// Strict membership in the open search interval.
pub open spec fn within_s(t: int, t_min: int, t_max: int) -> bool {
    t_min < t && t < t_max
}

/// Whether the sphere reports an intersection: the discriminant is
/// nonnegative and a root lies in the open interval, the nearer root
/// taking precedence.
pub open spec fn sphere_hit_some_s(s: Sphere, ray: Ray, t_min: int, t_max: int) -> bool {
    discriminant_s(s, ray) >= 0 && (within_s(root_near_s(s, ray), t_min, t_max) || within_s(
        root_far_s(s, ray),
        t_min,
        t_max,
    ))
}

/// The parameter the sphere reports: the nearer root if it is in range,
/// else the farther one.
pub open spec fn sphere_hit_t_s(s: Sphere, ray: Ray, t_min: int, t_max: int) -> int {
    if within_s(root_near_s(s, ray), t_min, t_max) {
        root_near_s(s, ray)
    } else {
        root_far_s(s, ray)
    }
}

/// The outward-oriented normal at a surface point:
/// `(point - center) / radius` (a negative radius inverts it).
pub open spec fn outward_normal_s(s: Sphere, p: V3s) -> V3s {
    div_vs(sub_vs(p, s.center@), s.radius as int)
}

/// Whether `h` is exactly the record the sphere builds for an
/// intersection at parameter `t`: the surface point, the parameter, the
/// orientation flag, the orientation-corrected normal, and the sphere's
/// material.
pub open spec fn record_matches_s(s: Sphere, ray: Ray, t: int, h: HitRecord) -> bool {
    let p = at_s(ray, t);
    let outward = outward_normal_s(s, p);
    let front = dot_s(ray.direction@, outward) < 0;
    &&& h.t as int == t
    &&& h.point@ == p
    &&& h.front_face == front
    &&& h.normal@ == if front {
        outward
    } else {
        neg_vs(outward)
    }
    &&& h.material == s.material
}

/// The nearer root never exceeds the farther one.
pub proof fn lemma_roots_ordered(s: Sphere, ray: Ray)
    requires
        discriminant_s(s, ray) >= 0,
    ensures
        root_near_s(s, ray) <= root_far_s(s, ray),
{
    let disc = discriminant_s(s, ray);
    let sq = fx_sqrt_s(disc);
    if disc > 0 {
        crate::fx::lemma_isqrt(disc * SCALE as int);
        assert(disc * SCALE as int >= 0) by (nonlinear_arith)
            requires disc > 0;
    }
    assert(sq >= 0);
    let a = quad_a_s(ray);
    crate::vec::lemma_len_sq_nonneg(ray.direction@);
    let hb = quad_half_b_s(s, ray);
    let n1 = fx_sub_s(fx_neg_s(hb), sq);
    let n2 = fx_add_s(fx_neg_s(hb), sq);
    assert(n1 <= n2);
    if a > 0 {
        assert(n1 * SCALE as int <= n2 * SCALE as int);
        crate::fx::lemma_tdiv_mono(n1 * SCALE as int, n2 * SCALE as int, a);
    }
}

/// A sphere that reports a hit at parameter `t` reports none when the
/// search interval is narrowed to end at `t`: the reported parameter is
/// the nearest one in range.
pub proof fn lemma_sphere_no_closer_hit(s: Sphere, ray: Ray, t_min: int, t_max: int)
    requires
        sphere_hit_some_s(s, ray, t_min, t_max),
    ensures
        !sphere_hit_some_s(s, ray, t_min, sphere_hit_t_s(s, ray, t_min, t_max)),
{
    lemma_roots_ordered(s, ray);
}

impl Sphere {
    pub fn new(center: Point, radius: i64, material: Material) -> (s: Sphere)
        ensures
            s.center == center,
            s.radius == radius,
            s.material == material,
    {
        Sphere { center, radius, material }
    }

    /// Solve the quadratic `a*t^2 + 2*half_b*t + c = 0` for the ray's
    /// intersections with the sphere and report the nearest parameter in
    /// the open interval `(t_min, t_max)`, or that there is none.
    pub fn hit_by(&self, ray: &Ray, t_min: i64, t_max: i64) -> (res: Option<HitRecord>)
        ensures
            res is Some <==> sphere_hit_some_s(*self, *ray, t_min as int, t_max as int),
            res matches Some(h) ==> h.t as int == sphere_hit_t_s(
                *self,
                *ray,
                t_min as int,
                t_max as int,
            ) && record_matches_s(*self, *ray, h.t as int, h) && t_min < h.t < t_max,
    {
        let c_to_o = ray.origin.sub(&self.center);
        let a = ray.direction.length_squared();
        let half_b = dot(&ray.direction, &c_to_o);
        let c = fx_sub(c_to_o.length_squared(), fx_mul(self.radius, self.radius));
        let discriminant = fx_sub(fx_mul(half_b, half_b), fx_mul(a, c));
        if discriminant < 0 {
            return None;
        }
        let discr_sqrt = fx_sqrt(discriminant);
        let mut t = fx_div(fx_sub(fx_neg(half_b), discr_sqrt), a);
        if !(t > t_min && t < t_max) {
            t = fx_div(fx_add(fx_neg(half_b), discr_sqrt), a);
            if !(t > t_min && t < t_max) {
                return None;
            }
        }
        let intersect = ray.at(t);
        let outward = intersect.sub(&self.center).div_k(self.radius);
        let front_face = dot(&ray.direction, &outward) < 0;
        Some(HitRecord::new(intersect, outward, t, front_face, self.material))
    }
}

} // verus!
