//! Exact-value tests for the fixed-point scalar, vector, flag and
//! generator building blocks.

use pathtrace::aligned_size;
use pathtrace::bool32::Bool32;
use pathtrace::fixed::Fx;
use pathtrace::rng::{random_in_unit_disk, random_in_unit_sphere, DefaultRng};
use pathtrace::vec3::Vec3;

fn v(x: i64, y: i64, z: i64) -> Vec3 {
    Vec3::new(Fx::from_raw(x), Fx::from_raw(y), Fx::from_raw(z))
}

#[test]
fn fx_from_int_scales() {
    assert_eq!(Fx::from_int(3).raw, 196608);
    assert_eq!(Fx::from_int(-2).raw, -131072);
    assert_eq!(Fx::zero().raw, 0);
    assert_eq!(Fx::one().raw, 65536);
}

#[test]
fn fx_add_sub_neg_abs_min() {
    let a = Fx::from_int(3);
    let b = Fx::from_int(2);
    assert_eq!(a.add(b).raw, 327680);
    assert_eq!(a.sub(b).raw, 65536);
    assert_eq!(a.neg().raw, -196608);
    assert_eq!(a.neg().abs().raw, 196608);
    assert_eq!(a.min(b).raw, 131072);
    assert_eq!(b.min(a).raw, 131072);
}

#[test]
fn fx_mul_is_exact_on_integers() {
    assert_eq!(Fx::from_int(3).mul(Fx::from_int(2)).raw, 393216);
    assert_eq!(Fx::from_raw(32768).mul(Fx::from_raw(49152)).raw, 24576);
}

#[test]
fn fx_mul_truncates_toward_zero() {
    // 3/65536 squared rounds to zero, from both signs
    assert_eq!(Fx::from_raw(3).mul(Fx::from_raw(3)).raw, 0);
    assert_eq!(Fx::from_raw(-98304).mul(Fx::from_raw(32768)).raw, -49152);
    assert_eq!(Fx::from_raw(-3).mul(Fx::from_raw(3)).raw, 0);
}

#[test]
fn fx_div_truncates() {
    assert_eq!(Fx::one().div(Fx::from_int(3)).raw, 21845);
    assert_eq!(Fx::from_int(-3).div(Fx::from_int(2)).raw, -98304);
    assert_eq!(Fx::from_raw(-196608).div_int(2).raw, -98304);
}

#[test]
fn fx_sqrt_exact_and_floor() {
    assert_eq!(Fx::from_int(4).sqrt().raw, 131072);
    assert_eq!(Fx::from_int(2).sqrt().raw, 92681);
    assert_eq!(Fx::zero().sqrt().raw, 0);
    assert_eq!(Fx::one().sqrt().raw, 65536);
}

#[test]
fn aligned_size_rounds_up_to_power_of_two() {
    assert_eq!(aligned_size(5, 4), 8);
    assert_eq!(aligned_size(0, 8), 0);
    assert_eq!(aligned_size(16, 16), 16);
    assert_eq!(aligned_size(17, 16), 32);
    assert_eq!(aligned_size(1, 1), 1);
}

#[test]
fn bool32_flags() {
    assert_eq!(Bool32::new(true).0, 1);
    assert_eq!(Bool32::new(false).0, 0);
    assert_eq!(Bool32::new(true).or(Bool32::new(false)).0, 1);
    assert_eq!(Bool32::new(false).or(Bool32::new(false)).0, 0);
    assert_eq!(Bool32::new(true).and(Bool32::new(false)).0, 0);
    assert_eq!(Bool32::new(true).and(Bool32::new(true)).0, 1);
    assert_eq!(Bool32::new(true).not().0, 0);
    assert_eq!(Bool32::new(false).not().0, 1);
    assert!(Bool32::new(true).as_bool());
    assert!(!Bool32::new(false).as_bool());
}

#[test]
fn vec3_dot_and_cross() {
    let a = v(65536, 131072, 196608);
    let b = v(262144, 327680, 393216);
    assert_eq!(a.dot(b).raw, 2097152);
    let x = v(65536, 0, 0);
    let y = v(0, 65536, 0);
    let c = x.cross(y);
    assert_eq!((c.x.raw, c.y.raw, c.z.raw), (0, 0, 65536));
}

#[test]
fn vec3_normalize_three_four_five() {
    let n = v(196608, 262144, 0).normalize();
    assert_eq!((n.x.raw, n.y.raw, n.z.raw), (39321, 52428, 0));
}

#[test]
fn vec3_normalize_keeps_degenerate_vectors() {
    let tiny = v(3, -2, 1);
    let n = tiny.normalize();
    assert_eq!((n.x.raw, n.y.raw, n.z.raw), (3, -2, 1));
    assert!(tiny.near_zero() == false);
    assert!(v(0, 0, 0).near_zero());
}

#[test]
fn vec3_lerp_midpoint() {
    let a = v(0, 0, 0);
    let b = v(65536, 65536, 65536);
    let m = a.lerp(b, Fx::from_raw(32768));
    assert_eq!((m.x.raw, m.y.raw, m.z.raw), (32768, 32768, 32768));
}

#[test]
fn rng_same_seed_same_sequence() {
    let mut a = DefaultRng::new(42);
    let mut b = DefaultRng::new(42);
    for _ in 0..32 {
        assert_eq!(a.next_u32(), b.next_u32());
    }
}

#[test]
fn rng_unit_draws_are_in_range() {
    let mut r = DefaultRng::new(7);
    for _ in 0..100 {
        let d = r.next_fx();
        assert!(0 <= d.raw && d.raw < 65536);
    }
}

#[test]
fn rng_sphere_samples_lie_in_the_ball() {
    for seed in 0..50u32 {
        let mut r = DefaultRng::new(seed);
        let s = random_in_unit_sphere(&mut r);
        assert!(s.x.raw.abs() <= 65536);
        assert!(s.y.raw.abs() <= 65536);
        assert!(s.z.raw.abs() <= 65536);
        assert!(s.dot(s).raw < 65536);
    }
}

#[test]
fn rng_disk_samples_lie_in_the_disk() {
    for seed in 0..50u32 {
        let mut r = DefaultRng::new(seed);
        let s = random_in_unit_disk(&mut r);
        assert_eq!(s.z.raw, 0);
        assert!(s.dot(s).raw < 65536);
    }
}
