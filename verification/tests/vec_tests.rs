use ray_tracer::fx::{
    fx_add, fx_clamp, fx_cos, fx_div, fx_mul, fx_neg, fx_nroot, fx_sin, fx_sqrt, fx_sub,
    HALF_PI_FX, SCALE,
};
use ray_tracer::rng::{random_range, random_unit, Randomness};
use ray_tracer::vec::{
    cross, dot, random_in_unit_disk, random_unit_vector, reflect, unit, Vector,
};

#[test]
fn length_example() {
    assert_eq!(6 * SCALE, Vector::new(2 * SCALE, 4 * SCALE, 4 * SCALE).length());
}

#[test]
fn dot_example() {
    let a = Vector::new(SCALE, 5 * SCALE, 3 * SCALE);
    let b = Vector::new(SCALE, 3 * SCALE, 3 * SCALE);
    assert_eq!(25 * SCALE, dot(&a, &b));
}

#[test]
fn cross_example() {
    let u = Vector::new(2 * SCALE, 3 * SCALE, 4 * SCALE);
    let v = Vector::new(5 * SCALE, 6 * SCALE, 7 * SCALE);
    assert_eq!(Vector::new(-3 * SCALE, 6 * SCALE, -3 * SCALE), cross(&u, &v));
}

#[test]
fn unit_has_unit_length() {
    // The length of a normalized vector stays within a few fixed-point
    // units of one.
    let samples = [
        Vector::new(SCALE, 2 * SCALE, 3 * SCALE),
        Vector::new(2 * SCALE, 4 * SCALE, 4 * SCALE),
        Vector::new(-5 * SCALE, SCALE, 7 * SCALE),
        Vector::new(123456, 7890, -424242),
        Vector::new(0, 0, -SCALE),
        Vector::new(1000 * SCALE, -2000 * SCALE, 500 * SCALE),
    ];
    for v in samples.iter() {
        let len = unit(v).length();
        assert!((len - SCALE).abs() <= 16, "length of unit vector was {len}");
    }
}

#[test]
fn unit_of_degenerate_vector_is_fallback() {
    // A vector whose squared length truncates to zero resolves to the
    // fixed fallback direction instead of faulting.
    assert_eq!(Vector::new(0, 0, SCALE), unit(&Vector::new(0, 0, 0)));
    assert_eq!(Vector::new(0, 0, SCALE), unit(&Vector::new(3, 4, 5)));
}

#[test]
fn unit_of_exact_vectors() {
    assert_eq!(Vector::new(0, 0, -SCALE), unit(&Vector::new(0, 0, -7 * SCALE)));
    let u = unit(&Vector::new(SCALE, 2 * SCALE, 3 * SCALE));
    assert_eq!(Vector::new(17515, 35030, 52545), u);
}

#[test]
fn reflect_axis_aligned() {
    // Angle of incidence equals angle of reflection about the normal.
    let v = Vector::new(SCALE, -SCALE, 0);
    let n = Vector::new(0, SCALE, 0);
    assert_eq!(Vector::new(SCALE, SCALE, 0), reflect(&v, &n));
    let w = Vector::new(3 * SCALE, -2 * SCALE, 5 * SCALE);
    assert_eq!(Vector::new(3 * SCALE, 2 * SCALE, 5 * SCALE), reflect(&w, &n));
}

#[test]
fn fx_arithmetic_exact_values() {
    assert_eq!(3 * SCALE, fx_add(SCALE, 2 * SCALE));
    assert_eq!(-SCALE, fx_sub(SCALE, 2 * SCALE));
    assert_eq!(98304, fx_mul(3 * SCALE, 32768));
    assert_eq!(32768, fx_div(SCALE, 2 * SCALE));
    assert_eq!(2 * SCALE, fx_sqrt(4 * SCALE));
    assert_eq!(-5, fx_neg(5));
    assert_eq!(7, fx_clamp(7, 0, SCALE));
    assert_eq!(SCALE, fx_clamp(2 * SCALE, 0, SCALE));
    assert_eq!(0, fx_clamp(-3, 0, SCALE));
    assert_eq!(0, fx_div(SCALE, 0));
}

#[test]
fn fx_saturates_instead_of_wrapping() {
    let m = i64::MAX;
    assert_eq!(m, fx_add(m, m));
    assert_eq!(-m, fx_sub(-m, m));
    assert_eq!(m, fx_mul(m, 2 * SCALE));
    assert_eq!(-m, fx_mul(m, -2 * SCALE));
}

#[test]
fn fx_trig_quarter_points() {
    assert_eq!(0, fx_sin(0));
    let s = fx_sin(HALF_PI_FX);
    assert!((s - SCALE).abs() <= 32, "sin(pi/2) was {s}");
    let c = fx_cos(0);
    assert!((c - SCALE).abs() <= 32, "cos(0) was {c}");
    let c2 = fx_cos(2 * HALF_PI_FX);
    assert!((c2 + SCALE).abs() <= 64, "cos(pi) was {c2}");
}

#[test]
fn fx_nroot_exact_values() {
    assert_eq!(32768, fx_nroot(16384, 2));
    assert_eq!(SCALE, fx_nroot(SCALE, 3));
    assert_eq!(46340, fx_nroot(32768, 2));
    assert_eq!(0, fx_nroot(0, 5));
    assert_eq!(12345, fx_nroot(12345, 1));
}

#[test]
fn random_range_stays_in_bounds() {
    let mut rng = Randomness::from_seed(7);
    for _ in 0..1000 {
        let x = random_range(-SCALE, SCALE, &mut rng);
        assert!(-SCALE <= x && x < SCALE);
        let y = random_unit(&mut rng);
        assert!(0 <= y && y < SCALE);
    }
}

#[test]
fn random_unit_vector_has_unit_length() {
    let mut rng = Randomness::from_seed(11);
    for _ in 0..200 {
        let v = random_unit_vector(&mut rng);
        let len = v.length();
        assert!((len - SCALE).abs() <= 128, "length was {len}");
    }
}

#[test]
fn random_in_unit_disk_upper_half() {
    // The rejection sampler only ever draws the height from [0, 1), so
    // every sample sits in the disk's upper half.
    let mut rng = Randomness::from_seed(13);
    for _ in 0..200 {
        let v = random_in_unit_disk(&mut rng);
        assert_eq!(0, v.z);
        assert!(v.y >= 0);
        let rsq = fx_add(fx_mul(v.x, v.x), fx_mul(v.y, v.y));
        assert!(rsq < SCALE);
    }
}
