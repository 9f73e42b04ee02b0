//! Injected randomness.
//!
//! Every routine that samples (lens offsets, antialiasing jitter, material
//! scattering) takes an explicit, seedable source, so renders are
//! reproducible under a fixed seed and concurrent workers can each own an
//! independent stream.  The generator itself comes from the `rand` crate and
//! sits behind two trusted wrappers; everything derived from it is verified.

use vstd::prelude::*;
use crate::fx::{SCALE, fx_mul, fx_sub, sat_s, tdiv_s};
use rand::Rng;
use rand::SeedableRng;

verus! {

/// Declares rand's standard generator, rand::rngs::StdRng, so a value of
/// it can sit in a field; the type stays opaque to the verifier.
#[verifier::external_type_specification]
#[verifier::external_body]
pub struct ExStdRng(rand::rngs::StdRng);

/// Relies on rand::rngs::StdRng::seed_from_u64 (SeedableRng): builds a
/// generator whose stream is a function of the 64-bit seed.
#[verifier::external_body]
fn std_rng_from_seed(seed: u64) -> rand::rngs::StdRng {
    rand::rngs::StdRng::seed_from_u64(seed)
}

/// Relies on rand::Rng::gen_range over `0..n`: a draw from `[0, n)`;
/// nothing is assumed beyond the range of the result.
#[verifier::external_body]
fn std_rng_below(rng: &mut rand::rngs::StdRng, n: u64) -> (r: u64)
    requires
        n >= 1,
    ensures
        r < n,
{
    rng.gen_range(0..n)
}

/// A seedable stream of random draws.
pub struct Randomness {
    rng: rand::rngs::StdRng,
}

impl Randomness {
    /// A stream determined by `seed`.
    pub fn from_seed(seed: u64) -> Randomness {
        Randomness { rng: std_rng_from_seed(seed) }
    }

    /// A draw from `[0, n)`.
    pub fn below(&mut self, n: u64) -> (r: u64)
        requires
            n >= 1,
        ensures
            r < n,
    {
        std_rng_below(&mut self.rng, n)
    }
}

/// The quotient of a product `u * d` by `SCALE` stays below `d` while `u`
/// stays below `SCALE`.
proof fn lemma_scaled_fraction_bound(u: int, d: int)
    requires
        0 <= u < SCALE as int,
        0 <= d,
    ensures
        0 <= tdiv_s(u * d, SCALE as int) <= d,
        d > 0 ==> tdiv_s(u * d, SCALE as int) < d,
{
    let s = SCALE as int;
    assert(u * d >= 0) by (nonlinear_arith)
        requires 0 <= u && 0 <= d;
    assert(tdiv_s(u * d, s) == (u * d) / s);
    vstd::arithmetic::div_mod::lemma_div_pos_is_pos(u * d, s);
    if d > 0 {
        assert(u * d < s * d) by (nonlinear_arith)
            requires 0 <= u < s && d > 0;
        vstd::arithmetic::div_mod::lemma_multiply_divide_lt(u * d, s, d);
    } else {
        assert(u * d == 0) by (nonlinear_arith)
            requires d == 0;
    }
}

/// A uniform fixed-point draw from `[min, max)`, as the original sampler:
/// a grid of `SCALE` steps across the interval.
pub fn random_range(min: i64, max: i64, rng: &mut Randomness) -> (r: i64)
    requires
        min < max,
    ensures
        min <= r < max,
{
    let u: i64 = rng.below(SCALE as u64) as i64;
    let d: i64 = fx_sub(max, min);
    let v: i64 = fx_mul(u, d);
    proof {
        lemma_scaled_fraction_bound(u as int, d as int);
        assert(v as int == sat_s(tdiv_s(u as int * d as int, SCALE as int)));
        assert(0 <= v < d);
        assert(d as int <= max as int - min as int);
    }
    min + v
}

/// A uniform fixed-point draw from `[0, 1)`.
pub fn random_unit(rng: &mut Randomness) -> (r: i64)
    ensures
        0 <= r < SCALE,
{
    random_range(0, SCALE, rng)
}

} // verus!
