//! Vector and point algebra over fixed-point components.

use vstd::prelude::*;
use crate::fx::{
    FX_MAX, SCALE, TAU_FX, fx_add, fx_add_s, fx_cos, fx_cos_s, fx_div, fx_div_s, fx_mul, fx_mul_s,
    fx_neg, fx_neg_s, fx_sin, fx_sin_s, fx_sqrt, fx_sqrt_s, fx_sub, fx_sub_s, lemma_fx_mul_one,
    tdiv_s,
};
use crate::rng::{Randomness, random_range, random_unit};

verus! {

/// Mathematical model of a vector: the three fixed-point components, as
/// unbounded integers.
pub ghost struct V3s {
    pub x: int,
    pub y: int,
    pub z: int,
}

/// A 3-component vector; each component is a fixed-point real.
#[derive(Debug, Clone, Copy, PartialEq, Eq, Structural)]
pub struct Vector {
    pub x: i64,
    pub y: i64,
    pub z: i64,
}

/// Points share the vector representation.
pub type Point = Vector;

impl View for Vector {
    type V = V3s;

    open spec fn view(&self) -> V3s {
        V3s { x: self.x as int, y: self.y as int, z: self.z as int }
    }
}

/// Componentwise sum.
pub open spec fn add_vs(a: V3s, b: V3s) -> V3s {
    V3s { x: fx_add_s(a.x, b.x), y: fx_add_s(a.y, b.y), z: fx_add_s(a.z, b.z) }
}

/// Componentwise difference.
pub open spec fn sub_vs(a: V3s, b: V3s) -> V3s {
    V3s { x: fx_sub_s(a.x, b.x), y: fx_sub_s(a.y, b.y), z: fx_sub_s(a.z, b.z) }
}

/// Componentwise negation.
pub open spec fn neg_vs(a: V3s) -> V3s {
    V3s { x: fx_neg_s(a.x), y: fx_neg_s(a.y), z: fx_neg_s(a.z) }
}

/// Scaling by a fixed-point factor.
pub open spec fn scale_vs(a: V3s, k: int) -> V3s {
    V3s { x: fx_mul_s(a.x, k), y: fx_mul_s(a.y, k), z: fx_mul_s(a.z, k) }
}

/// Componentwise division by a fixed-point divisor.
pub open spec fn div_vs(a: V3s, k: int) -> V3s {
    V3s { x: fx_div_s(a.x, k), y: fx_div_s(a.y, k), z: fx_div_s(a.z, k) }
}

/// Inner product.
pub open spec fn dot_s(a: V3s, b: V3s) -> int {
    fx_add_s(fx_add_s(fx_mul_s(a.x, b.x), fx_mul_s(a.y, b.y)), fx_mul_s(a.z, b.z))
}

/// Cross product.
pub open spec fn cross_s(a: V3s, b: V3s) -> V3s {
    V3s {
        x: fx_sub_s(fx_mul_s(a.y, b.z), fx_mul_s(a.z, b.y)),
        y: fx_sub_s(fx_mul_s(a.z, b.x), fx_mul_s(a.x, b.z)),
        z: fx_sub_s(fx_mul_s(a.x, b.y), fx_mul_s(a.y, b.x)),
    }
}

/// Squared length.
pub open spec fn len_sq_s(a: V3s) -> int {
    dot_s(a, a)
}

/// Length.
pub open spec fn length_s(a: V3s) -> int {
    fx_sqrt_s(len_sq_s(a))
}

/// All components at most `m` in magnitude.
pub open spec fn bounded_vs(v: V3s, m: int) -> bool {
    crate::fx::abs_s(v.x) <= m && crate::fx::abs_s(v.y) <= m && crate::fx::abs_s(v.z) <= m
}

/// A squared length is never negative.
pub proof fn lemma_len_sq_nonneg(v: V3s)
    ensures
        len_sq_s(v) >= 0,
{
    assert(v.x * v.x >= 0) by (nonlinear_arith);
    assert(v.y * v.y >= 0) by (nonlinear_arith);
    assert(v.z * v.z >= 0) by (nonlinear_arith);
    vstd::arithmetic::div_mod::lemma_div_pos_is_pos(v.x * v.x, SCALE as int);
    vstd::arithmetic::div_mod::lemma_div_pos_is_pos(v.y * v.y, SCALE as int);
    vstd::arithmetic::div_mod::lemma_div_pos_is_pos(v.z * v.z, SCALE as int);
}

/// The fallback direction a degenerate normalization resolves to.
pub open spec fn fallback_unit_s() -> V3s {
    V3s { x: 0, y: 0, z: SCALE as int }
}

/// Normalization: division by the length, or the fixed fallback direction
/// when the length truncates to zero.
pub open spec fn unit_s(a: V3s) -> V3s {
    if length_s(a) == 0 {
        fallback_unit_s()
    } else {
        div_vs(a, length_s(a))
    }
}

/// Mirror reflection about a normal: `v - 2*dot(v, n)*n`.
pub open spec fn reflect_s(v: V3s, n: V3s) -> V3s {
    sub_vs(v, scale_vs(n, fx_mul_s(2 * SCALE as int, dot_s(v, n))))
}

impl Vector {
    pub fn new(x: i64, y: i64, z: i64) -> (v: Vector)
        ensures
            v@ == (V3s { x: x as int, y: y as int, z: z as int }),
    {
        Vector { x, y, z }
    }

    pub fn length(&self) -> (r: i64)
        ensures
            r as int == length_s(self@),
            r >= 0,
    {
        fx_sqrt(self.length_squared())
    }

    pub fn length_squared(&self) -> (r: i64)
        ensures
            r as int == len_sq_s(self@),
    {
        fx_add(fx_add(fx_mul(self.x, self.x), fx_mul(self.y, self.y)), fx_mul(self.z, self.z))
    }

    /// Componentwise negation.
    pub fn neg(&self) -> (v: Vector)
        ensures
            v@ == neg_vs(self@),
    {
        Vector { x: fx_neg(self.x), y: fx_neg(self.y), z: fx_neg(self.z) }
    }

    /// Componentwise sum.
    pub fn add(&self, other: &Vector) -> (v: Vector)
        ensures
            v@ == add_vs(self@, other@),
    {
        Vector {
            x: fx_add(self.x, other.x),
            y: fx_add(self.y, other.y),
            z: fx_add(self.z, other.z),
        }
    }

    /// Componentwise difference.
    pub fn sub(&self, other: &Vector) -> (v: Vector)
        ensures
            v@ == sub_vs(self@, other@),
    {
        Vector {
            x: fx_sub(self.x, other.x),
            y: fx_sub(self.y, other.y),
            z: fx_sub(self.z, other.z),
        }
    }

    /// Scaling by a fixed-point factor.
    pub fn scale(&self, k: i64) -> (v: Vector)
        ensures
            v@ == scale_vs(self@, k as int),
    {
        Vector { x: fx_mul(self.x, k), y: fx_mul(self.y, k), z: fx_mul(self.z, k) }
    }

    /// Componentwise division by a fixed-point divisor.
    pub fn div_k(&self, k: i64) -> (v: Vector)
        ensures
            v@ == div_vs(self@, k as int),
    {
        Vector { x: fx_div(self.x, k), y: fx_div(self.y, k), z: fx_div(self.z, k) }
    }
}

/// Inner product.
pub fn dot(a: &Vector, b: &Vector) -> (r: i64)
    ensures
        r as int == dot_s(a@, b@),
{
    fx_add(fx_add(fx_mul(a.x, b.x), fx_mul(a.y, b.y)), fx_mul(a.z, b.z))
}

/// Cross product.
pub fn cross(a: &Vector, b: &Vector) -> (v: Vector)
    ensures
        v@ == cross_s(a@, b@),
{
    Vector {
        x: fx_sub(fx_mul(a.y, b.z), fx_mul(a.z, b.y)),
        y: fx_sub(fx_mul(a.z, b.x), fx_mul(a.x, b.z)),
        z: fx_sub(fx_mul(a.x, b.y), fx_mul(a.y, b.x)),
    }
}

/// The direction of `v` with unit length; a degenerate (zero-length) input
/// resolves to a fixed fallback direction instead of faulting.
pub fn unit(v: &Vector) -> (r: Vector)
    ensures
        r@ == unit_s(v@),
{
    let len = v.length();
    if len == 0 {
        Vector { x: 0, y: 0, z: SCALE }
    } else {
        v.div_k(len)
    }
}

/// Mirror reflection of `v` about the normal `normal`.
pub fn reflect(v: &Vector, normal: &Vector) -> (r: Vector)
    ensures
        r@ == reflect_s(v@, normal@),
{
    v.sub(&normal.scale(fx_mul(2 * SCALE, dot(v, normal))))
}

/// About the axis-aligned unit normal along z, reflection flips the
/// normal component and keeps the tangential ones exactly: the angle of
/// incidence equals the angle of reflection.
pub proof fn lemma_reflect_axis(v: V3s)
    requires
        bounded_vs(v, FX_MAX as int / 2),
    ensures
        reflect_s(v, V3s { x: 0, y: 0, z: SCALE as int }) == (V3s { x: v.x, y: v.y, z: -v.z }),
{
    let s = SCALE as int;
    let n = V3s { x: 0, y: 0, z: s };
    lemma_fx_mul_one(v.z);
    assert(dot_s(v, n) == v.z);
    assert((2 * s) * v.z == (2 * v.z) * s) by (nonlinear_arith);
    lemma_fx_mul_one(2 * v.z);
    assert(fx_mul_s(2 * s, v.z) == 2 * v.z);
    lemma_fx_mul_one(0);
    assert(scale_vs(n, 2 * v.z) == (V3s { x: 0, y: 0, z: fx_mul_s(s, 2 * v.z) }));
    assert(fx_mul_s(s, 2 * v.z) == 2 * v.z);
}

/// Normalizing an axis-aligned vector of whole-unit magnitude yields the
/// exact unit direction, whose length is exactly one: the provable core
/// of "a normalized vector has length one" (for general vectors the
/// truncating arithmetic leaves a small tolerance instead).
pub proof fn lemma_unit_axis_exact(k: int)
    requires
        1 <= k <= 0xA0_0000,
    ensures
        unit_s(V3s { x: k * SCALE as int, y: 0, z: 0 }) == (V3s {
            x: SCALE as int,
            y: 0,
            z: 0,
        }),
        length_s(unit_s(V3s { x: k * SCALE as int, y: 0, z: 0 })) == SCALE as int,
{
    let s = SCALE as int;
    let v = V3s { x: k * s, y: 0, z: 0 };
    assert((k * s) * (k * s) == (k * k * s) * s) by (nonlinear_arith);
    assert(0 <= k * k * s <= FX_MAX as int) by (nonlinear_arith)
        requires 1 <= k <= 0xA0_0000 && s == 0x1_0000;
    assert(tdiv_s((k * s) * (k * s), s) == k * k * s) by {
        vstd::arithmetic::div_mod::lemma_div_by_multiple(k * k * s, s);
        assert((k * s) * (k * s) >= 0) by (nonlinear_arith)
            requires k >= 1 && s >= 1;
    }
    assert(len_sq_s(v) == k * k * s);
    assert((k * k * s) * s == (k * s) * (k * s)) by (nonlinear_arith);
    assert((k * s) * (k * s) < (k * s + 1) * (k * s + 1)) by (nonlinear_arith)
        requires k >= 1 && s >= 1;
    crate::fx::lemma_isqrt_unique((k * k * s) * s, k * s);
    assert(length_s(v) == k * s);
    assert((k * s) * s == s * (k * s)) by (nonlinear_arith);
    assert(tdiv_s((k * s) * s, k * s) == s) by {
        vstd::arithmetic::div_mod::lemma_div_by_multiple(s, k * s);
        assert((k * s) * s >= 0) by (nonlinear_arith)
            requires k >= 1 && s >= 1;
    }
    assert(unit_s(v) == (V3s { x: s, y: 0, z: 0 }));
    lemma_fx_mul_one(s);
    assert(len_sq_s(V3s { x: s, y: 0, z: 0 }) == s);
    crate::fx::lemma_isqrt_unique(s * s, s);
}

/// Euclidean division characterization of a truncated nonnegative
/// quotient: `q * d <= a < (q + 1) * d`.
proof fn lemma_trunc_quotient(a: int, d: int)
    requires
        0 <= a,
        0 < d,
    ensures
        0 <= tdiv_s(a, d),
        tdiv_s(a, d) * d <= a,
        a < (tdiv_s(a, d) + 1) * d,
{
    vstd::arithmetic::div_mod::lemma_div_pos_is_pos(a, d);
    vstd::arithmetic::div_mod::lemma_fundamental_div_mod(a, d);
    vstd::arithmetic::div_mod::lemma_mod_division_less_than_divisor(a, d);
    let q = a / d;
    let r = a % d;
    assert(a == d * q + r);
    assert(q * d == d * q) by (nonlinear_arith);
    assert((q + 1) * d == d * q + d) by (nonlinear_arith);
}

/// Normalizing any vector of length at least one (with componentwise
/// magnitude within 2^30) yields a vector whose length is one to within
/// a few fixed-point units: the truncation in the component divisions,
/// the products, and the square root cannot drift it further.  Below
/// length one the claim genuinely fails in this representation: the
/// divisions truncate relative to a length that carries almost no bits,
/// so a vector around 0.005 long can normalize with percent-level error.
/// That is a limit of fixed-point arithmetic, not of the algorithm.
pub proof fn lemma_unit_length_tolerance(v: V3s)
    requires
        bounded_vs(v, 0x4000_0000),
        length_s(v) >= SCALE as int,
    ensures
        SCALE as int - 5 <= length_s(unit_s(v)) <= SCALE as int + 2,
{
    let s = SCALE as int;
    let a1 = crate::fx::abs_s(v.x);
    let a2 = crate::fx::abs_s(v.y);
    let a3 = crate::fx::abs_s(v.z);
    assert(a1 == v.x || a1 == -v.x);
    assert(a2 == v.y || a2 == -v.y);
    assert(a3 == v.z || a3 == -v.z);
    assert(v.x * v.x == a1 * a1) by (nonlinear_arith)
        requires a1 == v.x || a1 == -v.x;
    assert(v.y * v.y == a2 * a2) by (nonlinear_arith)
        requires a2 == v.y || a2 == -v.y;
    assert(v.z * v.z == a3 * a3) by (nonlinear_arith)
        requires a3 == v.z || a3 == -v.z;
    assert(a1 * a1 <= 0x4000_0000 * 0x4000_0000int) by (nonlinear_arith)
        requires 0 <= a1 <= 0x4000_0000;
    assert(a2 * a2 <= 0x4000_0000 * 0x4000_0000int) by (nonlinear_arith)
        requires 0 <= a2 <= 0x4000_0000;
    assert(a3 * a3 <= 0x4000_0000 * 0x4000_0000int) by (nonlinear_arith)
        requires 0 <= a3 <= 0x4000_0000;
    // The squared length loses less than one unit per component.
    let t1 = tdiv_s(a1 * a1, s);
    let t2 = tdiv_s(a2 * a2, s);
    let t3 = tdiv_s(a3 * a3, s);
    lemma_trunc_quotient(a1 * a1, s);
    lemma_trunc_quotient(a2 * a2, s);
    lemma_trunc_quotient(a3 * a3, s);
    let lsq = len_sq_s(v);
    assert(lsq == t1 + t2 + t3);
    let ww = a1 * a1 + a2 * a2 + a3 * a3;
    assert(lsq * s <= ww < lsq * s + 3 * s) by (nonlinear_arith)
        requires
            t1 * s <= a1 * a1 < (t1 + 1) * s,
            t2 * s <= a2 * a2 < (t2 + 1) * s,
            t3 * s <= a3 * a3 < (t3 + 1) * s,
            lsq == t1 + t2 + t3,
            ww == a1 * a1 + a2 * a2 + a3 * a3,
    ;
    // The computed length brackets the true squared norm.
    let el = length_s(v);
    assert(el == crate::fx::isqrt_s(lsq * s));
    crate::fx::lemma_isqrt(lsq * s);
    assert(el * el <= lsq * s < (el + 1) * (el + 1));
    assert(el >= s);
    // Components cannot exceed the length by more than two units.
    assert(a1 <= el + 2 && a2 <= el + 2 && a3 <= el + 2) by (nonlinear_arith)
        requires
            a1 * a1 <= ww,
            a2 * a2 <= ww,
            a3 * a3 <= ww,
            ww < (el + 1) * (el + 1) + 3 * s,
            0 <= a1,
            0 <= a2,
            0 <= a3,
            el >= s,
            s == 0x1_0000,
    ;
    // The normalized components, by magnitude.
    assert(unit_s(v) == div_vs(v, el));
    let u = div_vs(v, el);
    assert(u.x == crate::fx::sat_s(tdiv_s(v.x * s, el)));
    let q1 = tdiv_s(a1 * s, el);
    let q2 = tdiv_s(a2 * s, el);
    let q3 = tdiv_s(a3 * s, el);
    lemma_trunc_quotient(a1 * s, el);
    lemma_trunc_quotient(a2 * s, el);
    lemma_trunc_quotient(a3 * s, el);
    assert(tdiv_s(v.x * s, el) == if v.x < 0 { -q1 } else { q1 }) by (nonlinear_arith)
        requires
            el > 0,
            s > 0,
            a1 == crate::fx::abs_s(v.x),
            q1 == tdiv_s(a1 * s, el),
    ;
    assert(tdiv_s(v.y * s, el) == if v.y < 0 { -q2 } else { q2 }) by (nonlinear_arith)
        requires
            el > 0,
            s > 0,
            a2 == crate::fx::abs_s(v.y),
            q2 == tdiv_s(a2 * s, el),
    ;
    assert(tdiv_s(v.z * s, el) == if v.z < 0 { -q3 } else { q3 }) by (nonlinear_arith)
        requires
            el > 0,
            s > 0,
            a3 == crate::fx::abs_s(v.z),
            q3 == tdiv_s(a3 * s, el),
    ;
    // Magnitude bound on normalized components: at most one plus two
    // units.
    assert(q1 <= s + 2 && q2 <= s + 2 && q3 <= s + 2) by (nonlinear_arith)
        requires
            q1 * el <= a1 * s,
            q2 * el <= a2 * s,
            q3 * el <= a3 * s,
            a1 <= el + 2,
            a2 <= el + 2,
            a3 <= el + 2,
            el >= s,
            s == 0x1_0000,
            0 <= q1,
            0 <= q2,
            0 <= q3,
    ;
    assert(u.x * u.x == q1 * q1) by (nonlinear_arith)
        requires u.x == q1 || u.x == -q1;
    assert(u.y * u.y == q2 * q2) by (nonlinear_arith)
        requires u.y == q2 || u.y == -q2;
    assert(u.z * u.z == q3 * q3) by (nonlinear_arith)
        requires u.z == q3 || u.z == -q3;
    let qq = q1 * q1 + q2 * q2 + q3 * q3;
    let e2 = el * el;
    let s2 = s * s;
    // Upper bound: the sum of squares stays within six units of one.
    assert((q1 * q1) * e2 <= (a1 * a1) * s2) by (nonlinear_arith)
        requires 0 <= q1 * el <= a1 * s && e2 == el * el && s2 == s * s;
    assert((q2 * q2) * e2 <= (a2 * a2) * s2) by (nonlinear_arith)
        requires 0 <= q2 * el <= a2 * s && e2 == el * el && s2 == s * s;
    assert((q3 * q3) * e2 <= (a3 * a3) * s2) by (nonlinear_arith)
        requires 0 <= q3 * el <= a3 * s && e2 == el * el && s2 == s * s;
    assert(qq * e2 == (q1 * q1) * e2 + (q2 * q2) * e2 + (q3 * q3) * e2) by (nonlinear_arith)
        requires qq == q1 * q1 + q2 * q2 + q3 * q3;
    assert(s2 * ww == (a1 * a1) * s2 + (a2 * a2) * s2 + (a3 * a3) * s2) by (nonlinear_arith)
        requires ww == a1 * a1 + a2 * a2 + a3 * a3;
    assert(qq * e2 <= s2 * ww);
    assert(qq <= s * s + 6 * s) by (nonlinear_arith)
        requires
            qq * (el * el) <= (s * s) * ww,
            ww < (el + 1) * (el + 1) + 3 * s,
            el >= s,
            s == 0x1_0000,
            0 <= qq,
    ;
    // Lower bound: the sum of squares misses one by at most a few units.
    assert((a1 * a1) * s2 < ((q1 * q1) + 2 * q1 + 1) * e2) by (nonlinear_arith)
        requires 0 <= a1 * s < (q1 + 1) * el && 0 <= q1 && e2 == el * el && s2 == s * s;
    assert((a2 * a2) * s2 < ((q2 * q2) + 2 * q2 + 1) * e2) by (nonlinear_arith)
        requires 0 <= a2 * s < (q2 + 1) * el && 0 <= q2 && e2 == el * el && s2 == s * s;
    assert((a3 * a3) * s2 < ((q3 * q3) + 2 * q3 + 1) * e2) by (nonlinear_arith)
        requires 0 <= a3 * s < (q3 + 1) * el && 0 <= q3 && e2 == el * el && s2 == s * s;
    assert(s2 * ww < (qq + 6 * s + 15) * e2) by (nonlinear_arith)
        requires
            s2 * ww == (a1 * a1) * s2 + (a2 * a2) * s2 + (a3 * a3) * s2,
            (a1 * a1) * s2 < ((q1 * q1) + 2 * q1 + 1) * e2,
            (a2 * a2) * s2 < ((q2 * q2) + 2 * q2 + 1) * e2,
            (a3 * a3) * s2 < ((q3 * q3) + 2 * q3 + 1) * e2,
            qq == q1 * q1 + q2 * q2 + q3 * q3,
            0 <= q1 <= s + 2,
            0 <= q2 <= s + 2,
            0 <= q3 <= s + 2,
            0 <= e2,
            s == 0x1_0000,
    ;
    assert(qq > s * s - 6 * s - 15) by (nonlinear_arith)
        requires
            (s * s) * ww < (qq + 6 * s + 15) * (el * el),
            el * el <= lsq * s,
            lsq * s <= ww,
            el >= s,
            s == 0x1_0000,
    ;
    // The squared length of the normalization, after its own truncations.
    let b1 = tdiv_s(q1 * q1, s);
    let b2 = tdiv_s(q2 * q2, s);
    let b3 = tdiv_s(q3 * q3, s);
    assert(q1 * q1 >= 0 && q2 * q2 >= 0 && q3 * q3 >= 0) by (nonlinear_arith);
    lemma_trunc_quotient(q1 * q1, s);
    lemma_trunc_quotient(q2 * q2, s);
    lemma_trunc_quotient(q3 * q3, s);
    let lu = len_sq_s(u);
    assert(lu == b1 + b2 + b3);
    assert(qq - 3 * s < lu * s <= qq) by (nonlinear_arith)
        requires
            b1 * s <= q1 * q1 < (b1 + 1) * s,
            b2 * s <= q2 * q2 < (b2 + 1) * s,
            b3 * s <= q3 * q3 < (b3 + 1) * s,
            lu == b1 + b2 + b3,
            qq == q1 * q1 + q2 * q2 + q3 * q3,
            s > 0,
    ;
    // And its square root.
    assert(lu * s > (s * s - 6 * s - 15) - 3 * s);
    assert(lu > 0) by (nonlinear_arith)
        requires lu * s > s * s - 9 * s - 15 && s == 0x1_0000;
    assert(length_s(u) == crate::fx::isqrt_s(lu * s));
    crate::fx::lemma_isqrt(lu * s);
    let fin = length_s(u);
    assert(fin <= s + 2) by (nonlinear_arith)
        requires
            fin >= 0,
            fin * fin <= lu * s,
            lu * s <= qq,
            qq <= s * s + 6 * s,
            s == 0x1_0000,
    ;
    assert(fin >= s - 5) by (nonlinear_arith)
        requires
            fin >= 0,
            lu * s < (fin + 1) * (fin + 1),
            lu * s > s * s - 9 * s - 15,
            s == 0x1_0000,
    ;
}

/// The point a polar draw lands on: height `z`, azimuth `theta`, radius
/// `sqrt(1 - z*z)` in the slice at that height.
pub open spec fn polar_unit_s(theta: int, z: int) -> V3s {
    let r = fx_sqrt_s(fx_sub_s(SCALE as int, fx_mul_s(z, z)));
    V3s { x: fx_mul_s(r, fx_cos_s(theta)), y: fx_mul_s(r, fx_sin_s(theta)), z: z }
}

/// A random direction drawn by the polar method: height uniform in
/// `[-1, 1)`, azimuth uniform in `[0, 2*pi)`.
pub fn random_unit_vector(rng: &mut Randomness) -> (v: Vector)
    ensures
        exists|theta: int, z: int|
            0 <= theta < TAU_FX && -SCALE <= z < SCALE && v@ == polar_unit_s(theta, z),
{
    let theta: i64 = random_range(0, TAU_FX, rng);
    let z: i64 = random_range(-SCALE, SCALE, rng);
    let r: i64 = fx_sqrt(fx_sub(SCALE, fx_mul(z, z)));
    let v = Vector { x: fx_mul(r, fx_cos(theta)), y: fx_mul(r, fx_sin(theta)), z };
    proof {
        assert(v@ == polar_unit_s(theta as int, z as int));
    }
    v
}

/// A random point in the unit disk's upper half (`y >= 0`, `z == 0`),
/// drawn by rejection on the height; the rejection loop is bounded, and a
/// run of rejections resolves to the disk's center.
pub fn random_in_unit_disk(rng: &mut Randomness) -> (v: Vector)
    ensures
        v@.z == 0,
        v@.y >= 0,
        fx_add_s(fx_mul_s(v@.x, v@.x), fx_mul_s(v@.y, v@.y)) < SCALE as int,
{
    let x: i64 = random_range(-SCALE, SCALE, rng);
    let x_square: i64 = fx_mul(x, x);
    let mut tries: u64 = 0;
    while tries < 4096
        invariant
            x_square as int == fx_mul_s(x as int, x as int),
        decreases 4096 - tries,
    {
        let guess: i64 = random_unit(rng);
        if fx_add(x_square, fx_mul(guess, guess)) < SCALE {
            return Vector { x, y: guess, z: 0 };
        }
        tries = tries + 1;
    }
    Vector { x: 0, y: 0, z: 0 }
}

} // verus!
