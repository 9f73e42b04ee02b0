//! Fixed-point real arithmetic.
//!
//! A real number `x` is represented by the `i64` nearest `x * SCALE`
//! (`SCALE` is 2^16, so one unit is 2^-16).  Every operation is total:
//! results are truncated toward zero and saturate at `FX_MAX` in magnitude,
//! and the guarded divisions return 0 on a zero divisor.  Each executable
//! operation carries an exact contract over the corresponding spec function,
//! so callers reason about the computed values bit-for-bit.

use vstd::prelude::*;
use vstd::arithmetic::power::{
    pow, lemma_pow_adds, lemma_pow_increases, lemma_pow_positive, lemma_pow0, lemma_pow1,
    lemma0_pow, lemma1_pow,
};

verus! {

/// Number of fixed-point units per 1.0 (2^16).
pub const SCALE: i64 = 65536;

/// Largest magnitude a fixed-point value may take; arithmetic saturates here.
pub const FX_MAX: i64 = i64::MAX;

/// Magnitude of an integer.
pub open spec fn abs_s(a: int) -> int {
    if a < 0 {
        -a
    } else {
        a
    }
}

/// Saturation into the symmetric representable range `[-FX_MAX, FX_MAX]`.
pub open spec fn sat_s(a: int) -> int {
    if a > FX_MAX as int {
        FX_MAX as int
    } else if a < -(FX_MAX as int) {
        -(FX_MAX as int)
    } else {
        a
    }
}

/// Division truncating toward zero, total: 0 when the divisor is 0.
pub open spec fn tdiv_s(a: int, b: int) -> int {
    if b == 0 {
        0
    } else if (a < 0) == (b < 0) {
        abs_s(a) / abs_s(b)
    } else {
        -(abs_s(a) / abs_s(b))
    }
}

/// Fixed-point sum.
pub open spec fn fx_add_s(a: int, b: int) -> int {
    sat_s(a + b)
}

/// Fixed-point difference.
pub open spec fn fx_sub_s(a: int, b: int) -> int {
    sat_s(a - b)
}

/// Fixed-point negation.
pub open spec fn fx_neg_s(a: int) -> int {
    sat_s(-a)
}

/// Fixed-point product: `a * b` rescaled by `SCALE`, truncated toward zero.
pub open spec fn fx_mul_s(a: int, b: int) -> int {
    sat_s(tdiv_s(a * b, SCALE as int))
}

/// Fixed-point quotient: `a / b` rescaled by `SCALE`, truncated toward zero;
/// 0 when `b` is 0.
pub open spec fn fx_div_s(a: int, b: int) -> int {
    if b == 0 {
        0
    } else {
        sat_s(tdiv_s(a * (SCALE as int), b))
    }
}

/// A fixed-point value divided by a plain integer count (no rescaling).
pub open spec fn fx_divn_s(a: int, n: int) -> int {
    sat_s(tdiv_s(a, n))
}

/// Largest `r >= 0` with `r * r <= n` (0 for negative `n`).
pub open spec fn isqrt_s(n: int) -> int
    decreases n,
{
    if n <= 0 {
        0
    } else {
        let p = isqrt_s(n - 1);
        if (p + 1) * (p + 1) <= n {
            p + 1
        } else {
            p
        }
    }
}

/// Fixed-point square root: `sqrt(a / SCALE) * SCALE`, truncated;
/// 0 for negative `a`.
pub open spec fn fx_sqrt_s(a: int) -> int {
    if a <= 0 {
        0
    } else {
        isqrt_s(a * (SCALE as int))
    }
}

/// `isqrt_s(n)` is exactly the integer square root of a nonnegative `n`.
pub proof fn lemma_isqrt(n: int)
    requires
        n >= 0,
    ensures
        isqrt_s(n) >= 0,
        isqrt_s(n) * isqrt_s(n) <= n,
        n < (isqrt_s(n) + 1) * (isqrt_s(n) + 1),
    decreases n,
{
    if n > 0 {
        lemma_isqrt(n - 1);
        let p = isqrt_s(n - 1);
        if (p + 1) * (p + 1) <= n {
            assert(n <= (p + 1) * (p + 1)) by {
                assert(n - 1 < (p + 1) * (p + 1));
            }
            assert((p + 1) * (p + 1) < (p + 2) * (p + 2)) by (nonlinear_arith)
                requires p >= 0;
        }
    }
}

/// The integer square root is pinned by its characteristic inequalities.
pub proof fn lemma_isqrt_unique(n: int, r: int)
    requires
        n >= 0,
        r >= 0,
        r * r <= n,
        n < (r + 1) * (r + 1),
    ensures
        r == isqrt_s(n),
{
    lemma_isqrt(n);
    let i = isqrt_s(n);
    if r < i {
        assert((r + 1) * (r + 1) <= i * i) by (nonlinear_arith)
            requires 0 <= r + 1 <= i;
    }
    if i < r {
        assert((i + 1) * (i + 1) <= r * r) by (nonlinear_arith)
            requires 0 <= i + 1 <= r;
    }
}

/// Magnitude of an `i64`, as a `u64`.
pub fn abs_u(a: i64) -> (r: u64)
    ensures
        r as int == abs_s(a as int),
{
    if a >= 0 {
        a as u64
    } else {
        (-(a as i128)) as u64
    }
}

/// Reassemble a magnitude and a sign into a saturated `i64`.
fn apply_sign(m: u128, neg: bool) -> (r: i64)
    ensures
        r as int == sat_s(if neg { -(m as int) } else { m as int }),
{
    let clipped: u64 = if m > FX_MAX as u128 {
        FX_MAX as u64
    } else {
        m as u64
    };
    if neg {
        -(clipped as i64)
    } else {
        clipped as i64
    }
}

/// Saturating fixed-point sum.
pub fn fx_add(a: i64, b: i64) -> (r: i64)
    ensures
        r as int == fx_add_s(a as int, b as int),
{
    let s: i128 = a as i128 + b as i128;
    if s > FX_MAX as i128 {
        FX_MAX
    } else if s < -(FX_MAX as i128) {
        -FX_MAX
    } else {
        s as i64
    }
}

/// Saturating fixed-point difference.
pub fn fx_sub(a: i64, b: i64) -> (r: i64)
    ensures
        r as int == fx_sub_s(a as int, b as int),
{
    let s: i128 = a as i128 - b as i128;
    if s > FX_MAX as i128 {
        FX_MAX
    } else if s < -(FX_MAX as i128) {
        -FX_MAX
    } else {
        s as i64
    }
}

/// Saturating fixed-point negation.
pub fn fx_neg(a: i64) -> (r: i64)
    ensures
        r as int == fx_neg_s(a as int),
{
    if a == i64::MIN {
        FX_MAX
    } else {
        -a
    }
}

/// Saturating fixed-point product.
pub fn fx_mul(a: i64, b: i64) -> (r: i64)
    ensures
        r as int == fx_mul_s(a as int, b as int),
{
    let neg: bool = (a < 0) != (b < 0);
    let ua: u64 = abs_u(a);
    let ub: u64 = abs_u(b);
    proof {
        assert((ua as int) * (ub as int) <= 0x8000_0000_0000_0000int * 0x8000_0000_0000_0000int)
            by (nonlinear_arith)
            requires
                ua as int <= 0x8000_0000_0000_0000,
                ub as int <= 0x8000_0000_0000_0000,
        ;
        assert(abs_s((a as int) * (b as int)) == abs_s(a as int) * abs_s(b as int))
            by (nonlinear_arith);
        assert(((a as int) * (b as int) < 0) == ((a as int) * (b as int) != 0
            && ((a as int) < 0) != ((b as int) < 0))) by (nonlinear_arith);
    }
    let q: u128 = (ua as u128) * (ub as u128) / (SCALE as u128);
    apply_sign(q, neg)
}

/// Saturating, guarded fixed-point quotient (0 when `b` is 0).
pub fn fx_div(a: i64, b: i64) -> (r: i64)
    ensures
        r as int == fx_div_s(a as int, b as int),
{
    if b == 0 {
        return 0;
    }
    let neg: bool = (a < 0) != (b < 0);
    let ua: u64 = abs_u(a);
    let ub: u64 = abs_u(b);
    proof {
        assert((ua as int) * (SCALE as int) <= 0x8000_0000_0000_0000int * 0x1_0000int)
            by (nonlinear_arith)
            requires
                ua as int <= 0x8000_0000_0000_0000,
        ;
        assert(abs_s((a as int) * (SCALE as int)) == abs_s(a as int) * (SCALE as int))
            by (nonlinear_arith);
    }
    let q: u128 = (ua as u128) * (SCALE as u128) / (ub as u128);
    apply_sign(q, neg)
}

/// Guarded division of a fixed-point value by a plain integer count.
pub fn fx_divn(a: i64, n: i64) -> (r: i64)
    ensures
        r as int == fx_divn_s(a as int, n as int),
{
    if n == 0 {
        return 0;
    }
    let neg: bool = (a < 0) != (n < 0);
    let ua: u64 = abs_u(a);
    let un: u64 = abs_u(n);
    let q: u128 = (ua as u128) / (un as u128);
    apply_sign(q, neg)
}

/// Fixed-point square root by binary search (0 for a negative argument).
pub fn fx_sqrt(a: i64) -> (r: i64)
    ensures
        r as int == fx_sqrt_s(a as int),
        r >= 0,
{
    if a <= 0 {
        proof {
            if a as int > 0 {
                lemma_isqrt(a as int * (SCALE as int));
            }
        }
        return 0;
    }
    proof {
        assert((a as int) * (SCALE as int) <= 0x8000_0000_0000_0000int * 0x1_0000int)
            by (nonlinear_arith)
            requires
                0 <= a as int <= 0x8000_0000_0000_0000,
        ;
    }
    let n: u128 = (a as u128) * (SCALE as u128);
    let mut lo: u64 = 0;
    let mut hi: u64 = 0x1_0000_0000_0000;
    proof {
        assert((0x1_0000_0000_0001int) * (0x1_0000_0000_0001int) > n as int) by (nonlinear_arith)
            requires n as int <= 0x8000_0000_0000_0000_0000int;
    }
    while lo < hi
        invariant
            lo <= hi <= 0x1_0000_0000_0000,
            (lo as int) * (lo as int) <= n as int,
            (n as int) < (hi as int + 1) * (hi as int + 1),
        decreases hi - lo,
    {
        let mid: u64 = lo + (hi - lo + 1) / 2;
        proof {
            assert((mid as int) * (mid as int) <= 0x1_0000_0000_0000int * 0x1_0000_0000_0000int)
                by (nonlinear_arith)
                requires
                    0 <= mid as int <= 0x1_0000_0000_0000,
            ;
        }
        if (mid as u128) * (mid as u128) <= n {
            lo = mid;
        } else {
            hi = mid - 1;
        }
    }
    proof {
        lemma_isqrt_unique(n as int, lo as int);
    }
    lo as i64
}

/// The smaller of two fixed-point values.
pub fn fx_min(a: i64, b: i64) -> (r: i64)
    ensures
        r as int == if a as int <= b as int { a as int } else { b as int },
{
    if a <= b {
        a
    } else {
        b
    }
}

/// Multiplying by one (the scale itself) is the identity on representable
/// values.
pub proof fn lemma_fx_mul_one(x: int)
    requires
        -(FX_MAX as int) <= x <= FX_MAX as int,
    ensures
        fx_mul_s(x, SCALE as int) == x,
        fx_mul_s(SCALE as int, x) == x,
{
    let s = SCALE as int;
    assert(abs_s(x * s) == abs_s(x) * s) by (nonlinear_arith)
        requires s > 0;
    assert((x * s < 0) == (x < 0)) by (nonlinear_arith)
        requires s > 0;
    assert((abs_s(x) * s) / s == abs_s(x)) by {
        vstd::arithmetic::div_mod::lemma_div_by_multiple(abs_s(x), s);
    }
    assert(x * s == s * x) by (nonlinear_arith);
}

/// Multiplying by minus one negates a representable value.
pub proof fn lemma_fx_mul_minus_one(x: int)
    requires
        -(FX_MAX as int) <= x <= FX_MAX as int,
    ensures
        fx_mul_s(x, -(SCALE as int)) == -x,
{
    let s = SCALE as int;
    assert(abs_s(x * -s) == abs_s(x) * s) by (nonlinear_arith)
        requires s > 0;
    assert((x * -s < 0) == (x > 0)) by (nonlinear_arith)
        requires s > 0;
    assert((abs_s(x) * s) / s == abs_s(x)) by {
        vstd::arithmetic::div_mod::lemma_div_by_multiple(abs_s(x), s);
    }
}

/// The fixed-point representation of a plain integer.
pub open spec fn fx_from_s(n: int) -> int {
    sat_s(n * SCALE as int)
}

/// Lift a plain integer into fixed point (saturating).
pub fn fx_from(n: i64) -> (r: i64)
    ensures
        r as int == fx_from_s(n as int),
{
    let s: i128 = (n as i128) * (SCALE as i128);
    proof {
        assert(-0x8000_0000_0000_0000int * 0x1_0000 <= (n as int) * (SCALE as int)
            <= 0x8000_0000_0000_0000int * 0x1_0000) by (nonlinear_arith)
            requires
                -0x8000_0000_0000_0000 <= n as int <= 0x8000_0000_0000_0000,
        ;
    }
    if s > FX_MAX as i128 {
        FX_MAX
    } else if s < -(FX_MAX as i128) {
        -FX_MAX
    } else {
        s as i64
    }
}

/// Saturated magnitude.
pub open spec fn fx_abs_s(a: int) -> int {
    sat_s(abs_s(a))
}

/// Saturating fixed-point magnitude.
pub fn fx_abs(a: i64) -> (r: i64)
    ensures
        r as int == fx_abs_s(a as int),
{
    if a == i64::MIN {
        FX_MAX
    } else if a < 0 {
        -a
    } else {
        a
    }
}

/// Fixed-point pi.
pub const PI_FX: i64 = 205887;

/// Fixed-point pi / 2.
pub const HALF_PI_FX: i64 = 102943;

/// Fixed-point 2 * pi.
pub const TAU_FX: i64 = 411774;

/// Degree-7 Taylor polynomial of the sine around 0, in fixed point:
/// `t - t^3/6 + t^5/120 - t^7/5040`.  Used on `[0, pi/2]`.
pub open spec fn sin_core_s(t: int) -> int {
    let t2 = fx_mul_s(t, t);
    let t3 = fx_mul_s(t2, t);
    let t5 = fx_mul_s(t3, t2);
    let t7 = fx_mul_s(t5, t2);
    fx_sub_s(fx_add_s(fx_sub_s(t, fx_divn_s(t3, 6)), fx_divn_s(t5, 120)), fx_divn_s(t7, 5040))
}

/// Fixed-point sine on `[0, 2*pi]`, by quarter-wave reduction onto the
/// Taylor core.
pub open spec fn fx_sin_s(a: int) -> int {
    if a <= HALF_PI_FX as int {
        sin_core_s(a)
    } else if a <= PI_FX as int {
        sin_core_s(PI_FX as int - a)
    } else if a <= (PI_FX + HALF_PI_FX) as int {
        fx_neg_s(sin_core_s(a - PI_FX as int))
    } else {
        fx_neg_s(sin_core_s(TAU_FX as int - a))
    }
}

/// Fixed-point cosine on `[0, 2*pi]`, by quarter-wave reduction onto the
/// Taylor core.
pub open spec fn fx_cos_s(a: int) -> int {
    if a <= HALF_PI_FX as int {
        sin_core_s(HALF_PI_FX as int - a)
    } else if a <= PI_FX as int {
        fx_neg_s(sin_core_s(a - HALF_PI_FX as int))
    } else if a <= (PI_FX + HALF_PI_FX) as int {
        fx_neg_s(sin_core_s((PI_FX + HALF_PI_FX) as int - a))
    } else {
        sin_core_s(a - (PI_FX + HALF_PI_FX) as int)
    }
}

/// Fixed-point tangent: sine over cosine (0 where the cosine truncates
/// to 0).
pub open spec fn fx_tan_s(a: int) -> int {
    fx_div_s(fx_sin_s(a), fx_cos_s(a))
}

fn sin_core(t: i64) -> (r: i64)
    ensures
        r as int == sin_core_s(t as int),
{
    let t2 = fx_mul(t, t);
    let t3 = fx_mul(t2, t);
    let t5 = fx_mul(t3, t2);
    let t7 = fx_mul(t5, t2);
    fx_sub(fx_add(fx_sub(t, fx_divn(t3, 6)), fx_divn(t5, 120)), fx_divn(t7, 5040))
}

/// Fixed-point sine of an angle in `[0, 2*pi]`.
pub fn fx_sin(a: i64) -> (r: i64)
    requires
        0 <= a <= TAU_FX,
    ensures
        r as int == fx_sin_s(a as int),
{
    if a <= HALF_PI_FX {
        sin_core(a)
    } else if a <= PI_FX {
        sin_core(PI_FX - a)
    } else if a <= PI_FX + HALF_PI_FX {
        fx_neg(sin_core(a - PI_FX))
    } else {
        fx_neg(sin_core(TAU_FX - a))
    }
}

/// Fixed-point cosine of an angle in `[0, 2*pi]`.
pub fn fx_cos(a: i64) -> (r: i64)
    requires
        0 <= a <= TAU_FX,
    ensures
        r as int == fx_cos_s(a as int),
{
    if a <= HALF_PI_FX {
        sin_core(HALF_PI_FX - a)
    } else if a <= PI_FX {
        fx_neg(sin_core(a - HALF_PI_FX))
    } else if a <= PI_FX + HALF_PI_FX {
        fx_neg(sin_core(PI_FX + HALF_PI_FX - a))
    } else {
        sin_core(a - (PI_FX + HALF_PI_FX))
    }
}

/// Fixed-point tangent of an angle in `[0, 2*pi]`.
pub fn fx_tan(a: i64) -> (r: i64)
    requires
        0 <= a <= TAU_FX,
    ensures
        r as int == fx_tan_s(a as int),
{
    fx_div(fx_sin(a), fx_cos(a))
}

/// A truncating quotient of nonnegative values is below `k` whenever the
/// dividend is below `b * k`.
pub proof fn lemma_tdiv_bound(a: int, b: int, k: int)
    requires
        0 <= a,
        0 < b,
        a < b * k,
    ensures
        0 <= tdiv_s(a, b) < k,
{
    assert(tdiv_s(a, b) == a / b);
    vstd::arithmetic::div_mod::lemma_div_pos_is_pos(a, b);
    vstd::arithmetic::div_mod::lemma_multiply_divide_lt(a, b, k);
}

/// Truncating division by a positive divisor is monotone in the
/// dividend.
pub proof fn lemma_tdiv_mono(a: int, b: int, d: int)
    requires
        a <= b,
        0 < d,
    ensures
        tdiv_s(a, d) <= tdiv_s(b, d),
{
    if 0 <= a {
        vstd::arithmetic::div_mod::lemma_div_is_ordered(a, b, d);
    } else if b < 0 {
        vstd::arithmetic::div_mod::lemma_div_is_ordered(-b, -a, d);
    } else {
        vstd::arithmetic::div_mod::lemma_div_pos_is_pos(-a, d);
        vstd::arithmetic::div_mod::lemma_div_pos_is_pos(b, d);
    }
}

/// Largest `r >= 0` whose `g`-th power is at most `n` (0 for negative `n`).
pub open spec fn iroot_s(n: int, g: nat) -> int
    decreases n,
{
    if n <= 0 {
        0
    } else {
        let p = iroot_s(n - 1, g);
        if pow(p + 1, g) <= n {
            p + 1
        } else {
            p
        }
    }
}

/// A power of a nonnegative base is nonnegative.
pub proof fn lemma_pow_nonneg(b: int, e: nat)
    requires
        0 <= b,
    ensures
        0 <= pow(b, e),
    decreases e,
{
    lemma_pow0(b);
    if e > 0 {
        lemma_pow_nonneg(b, (e - 1) as nat);
        assert(pow(b, e) == b * pow(b, (e - 1) as nat)) by {
            reveal(pow);
        }
        assert(b * pow(b, (e - 1) as nat) >= 0) by (nonlinear_arith)
            requires b >= 0 && pow(b, (e - 1) as nat) >= 0;
    }
}

/// Powers are monotone in a nonnegative base.
pub proof fn lemma_pow_base_mono(a: int, b: int, e: nat)
    requires
        0 <= a <= b,
    ensures
        pow(a, e) <= pow(b, e),
    decreases e,
{
    lemma_pow0(a);
    lemma_pow0(b);
    if e > 0 {
        lemma_pow_base_mono(a, b, (e - 1) as nat);
        lemma_pow_nonneg(a, (e - 1) as nat);
        lemma_pow_nonneg(b, (e - 1) as nat);
        assert(pow(a, e) == a * pow(a, (e - 1) as nat)) by {
            reveal(pow);
        }
        assert(pow(b, e) == b * pow(b, (e - 1) as nat)) by {
            reveal(pow);
        }
        assert(a * pow(a, (e - 1) as nat) <= b * pow(b, (e - 1) as nat)) by (nonlinear_arith)
            requires
                0 <= a <= b,
                0 <= pow(a, (e - 1) as nat) <= pow(b, (e - 1) as nat),
        ;
    }
}

/// Powers with a positive exponent are strictly monotone in a
/// nonnegative base.
pub proof fn lemma_pow_base_strict(a: int, b: int, e: nat)
    requires
        0 <= a < b,
        1 <= e,
    ensures
        pow(a, e) < pow(b, e),
    decreases e,
{
    lemma_pow_nonneg(a, (e - 1) as nat);
    lemma_pow_positive(b, (e - 1) as nat);
    assert(pow(a, e) == a * pow(a, (e - 1) as nat)) by {
        reveal(pow);
    }
    assert(pow(b, e) == b * pow(b, (e - 1) as nat)) by {
        reveal(pow);
    }
    if e == 1 {
        lemma_pow0(a);
        lemma_pow0(b);
    } else {
        lemma_pow_base_strict(a, b, (e - 1) as nat);
    }
    assert(a * pow(a, (e - 1) as nat) < b * pow(b, (e - 1) as nat)) by (nonlinear_arith)
        requires
            0 <= a < b,
            0 <= pow(a, (e - 1) as nat) <= pow(b, (e - 1) as nat),
            1 <= pow(b, (e - 1) as nat),
    ;
}

/// `iroot_s(n, g)` is exactly the integer `g`-th root of a nonnegative `n`.
pub proof fn lemma_iroot(n: int, g: nat)
    requires
        n >= 0,
        g >= 1,
    ensures
        iroot_s(n, g) >= 0,
        pow(iroot_s(n, g), g) <= n,
        n < pow(iroot_s(n, g) + 1, g),
    decreases n,
{
    if n == 0 {
        lemma0_pow(g);
        lemma1_pow(g);
    } else {
        lemma_iroot(n - 1, g);
        let p = iroot_s(n - 1, g);
        if pow(p + 1, g) <= n {
            lemma_pow_base_strict(p + 1, p + 2, g);
        }
    }
}

/// The integer `g`-th root is pinned by its characteristic inequalities.
pub proof fn lemma_iroot_unique(n: int, g: nat, r: int)
    requires
        n >= 0,
        g >= 1,
        r >= 0,
        pow(r, g) <= n,
        n < pow(r + 1, g),
    ensures
        r == iroot_s(n, g),
{
    lemma_iroot(n, g);
    let i = iroot_s(n, g);
    if r < i {
        lemma_pow_base_mono(r + 1, i, g);
    }
    if i < r {
        lemma_pow_base_mono(i + 1, r, g);
    }
}

/// An exact power, for bases up to the scale and exponents up to 7.
fn pow_u(b: u64, e: u16) -> (r: u128)
    requires
        b <= 65536,
        e <= 7,
    ensures
        r as int == pow(b as int, e as nat),
{
    let mut acc: u128 = 1;
    let mut i: u16 = 0;
    proof {
        lemma_pow0(b as int);
    }
    while i < e
        invariant
            i <= e,
            e <= 7,
            b <= 65536,
            acc as int == pow(b as int, i as nat),
        decreases e - i,
    {
        proof {
            lemma_pow_adds(b as int, 1, i as nat);
            lemma_pow1(b as int);
            assert(pow(b as int, (i + 1) as nat) == (b as int) * pow(b as int, i as nat));
            assert((acc as int) * (b as int) == pow(b as int, (i + 1) as nat)) by (nonlinear_arith)
                requires
                    acc as int == pow(b as int, i as nat),
                    pow(b as int, (i + 1) as nat) == (b as int) * pow(b as int, i as nat),
            ;
            lemma_pow_base_mono(b as int, 65536, (i + 1) as nat);
            assert(pow(b as int, (i + 1) as nat) <= pow(65536, (i + 1) as nat));
            lemma_pow_increases(65536, (i + 1) as nat, 7);
            assert(pow(65536int, (i + 1) as nat) <= pow(65536int, 7nat));
            assert(pow(65536, 7) == 0x1_0000_0000_0000_0000_0000_0000_0000) by {
                reveal_with_fuel(pow, 8);
            }
        }
        acc = acc * (b as u128);
        i = i + 1;
    }
    acc
}

/// The fixed-point `g`-th root of a channel value in `[0, 1]`: the
/// largest `r` with `r^g <= x * SCALE^(g-1)`, so `r / SCALE` is the
/// truncated real root of `x / SCALE`.
pub fn fx_nroot(x: i64, g: u16) -> (r: i64)
    requires
        1 <= g <= 7,
        0 <= x <= SCALE,
    ensures
        r as int == iroot_s((x as int) * pow(SCALE as int, (g - 1) as nat), g as nat),
        0 <= r <= SCALE,
{
    let sp: u128 = pow_u(SCALE as u64, g - 1);
    proof {
        lemma_pow_nonneg(65536, (g - 1) as nat);
        lemma_pow_increases(65536, (g - 1) as nat, 6);
        assert(pow(65536, 6) == 0x1_0000_0000_0000_0000_0000_0000) by {
            reveal_with_fuel(pow, 8);
        }
        assert((x as int) * (sp as int) <= 65536 * (sp as int)) by (nonlinear_arith)
            requires
                0 <= x as int <= 65536,
                0 <= sp as int,
        ;
    }
    let target: u128 = (x as u128) * sp;
    let ghost gt: int = (x as int) * pow(SCALE as int, (g - 1) as nat);
    proof {
        assert(target as int == gt);
        lemma0_pow(g as nat);
        assert(gt <= pow(65536, g as nat)) by {
            lemma_pow_adds(65536, 1, (g - 1) as nat);
            lemma_pow1(65536);
            assert((x as int) * pow(65536, (g - 1) as nat) <= 65536 * pow(
                65536,
                (g - 1) as nat,
            )) by (nonlinear_arith)
                requires
                    0 <= x as int <= 65536,
                    0 <= pow(65536, (g - 1) as nat),
            ;
        }
        lemma_pow_base_strict(65536, 65537, g as nat);
        lemma_pow_nonneg(0, g as nat);
    }
    let mut lo: u64 = 0;
    let mut hi: u64 = 65536;
    while lo < hi
        invariant
            lo <= hi <= 65536,
            1 <= g <= 7,
            target as int == gt,
            gt >= 0,
            pow(lo as int, g as nat) <= gt,
            gt < pow(hi as int + 1, g as nat),
        decreases hi - lo,
    {
        let mid: u64 = lo + (hi - lo + 1) / 2;
        let p = pow_u(mid, g);
        if p <= target {
            lo = mid;
        } else {
            hi = mid - 1;
        }
    }
    proof {
        lemma_iroot_unique(gt, g as nat, lo as int);
    }
    lo as i64
}

/// Clamp into a closed interval.
pub open spec fn clamp_s(a: int, lo: int, hi: int) -> int {
    if a < lo {
        lo
    } else if a > hi {
        hi
    } else {
        a
    }
}

/// Clamp a fixed-point value into `[lo, hi]`.
pub fn fx_clamp(a: i64, lo: i64, hi: i64) -> (r: i64)
    ensures
        r as int == clamp_s(a as int, lo as int, hi as int),
{
    if a < lo {
        lo
    } else if a > hi {
        hi
    } else {
        a
    }
}

} // verus!
