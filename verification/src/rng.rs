//! Deterministic pseudo-random scalar source.
//!
//! One path owns one generator; the state is a single 32-bit word advanced
//! by a permuted congruential step, so the whole stream is a pure function
//! of the seed: identical seeds give identical sequences.  The integrator
//! seeds each pixel with `pixel_linear_index XOR frame_seed`, which keeps
//! adjacent pixels decorrelated.

use vstd::prelude::*;
use crate::fixed::{Fx, SCALE};
use crate::vec3::{Vec3, vec_bounded, dot_spec, fx};

verus! {

/// The congruential state step.
pub open spec fn next_state(s: u32) -> u32 {
    (((s as u64) * 747796405 + 2891336453) % 0x1_0000_0000) as u32
}

/// The output permutation applied to a state word.
pub open spec fn output_word(s: u32) -> u32 {
    let t = (s >> ((s >> 28) + 4)) ^ s;
    let w = (((t as u64) * 277803737) % 0x1_0000_0000) as u32;
    (w >> 22) ^ w
}

/// Raw fixed-point value of the unit-interval draw made from state `s`:
/// the top sixteen bits of the output word, so a value in `[0, 1)`.
pub open spec fn unit_draw(s: u32) -> int {
    (output_word(s) >> 16) as int
}

/// A pixel-local pseudo-random number generator.
#[derive(Clone, Copy, PartialEq, Eq, Structural, Debug)]
pub struct DefaultRng {
    pub state: u32,
}

impl DefaultRng {
    /// A generator at the given seed.
    pub fn new(seed: u32) -> (r: DefaultRng)
        ensures
            r.state == seed,
    {
        DefaultRng { state: seed }
    }

    /// Advances the state and returns the permuted previous state.
    pub fn next_u32(&mut self) -> (r: u32)
        ensures
            final (self).state == next_state(old(self).state),
            r == output_word(old(self).state),
    {
        let s = self.state;
        self.state = (((s as u64) * 747796405 + 2891336453) % 0x1_0000_0000) as u32;
        proof {
            assert(s >> 28 <= 15) by (bit_vector);
        }
        let sh: u32 = (s >> 28) + 4;
        let t = (s >> sh) ^ s;
        let w = (((t as u64) * 277803737) % 0x1_0000_0000) as u32;
        (w >> 22) ^ w
    }

    /// A uniform fixed-point draw in `[0, 1)`.
    pub fn next_fx(&mut self) -> (r: Fx)
        ensures
            final (self).state == next_state(old(self).state),
            r.raw == unit_draw(old(self).state),
            0 <= r.raw < SCALE,
    {
        let w = self.next_u32();
        proof {
            assert(w >> 16 < 65536) by (bit_vector);
        }
        Fx { raw: (w >> 16) as i64 }
    }

    /// Two consecutive independent draws, for disk and sphere sampling.
    pub fn next_fx_pair(&mut self) -> (r: (Fx, Fx))
        ensures
            final (self).state == next_state(next_state(old(self).state)),
            r.0.raw == unit_draw(old(self).state),
            r.1.raw == unit_draw(next_state(old(self).state)),
            0 <= r.0.raw < SCALE,
            0 <= r.1.raw < SCALE,
    {
        let a = self.next_fx();
        let b = self.next_fx();
        (a, b)
    }
}

/// One candidate point for sphere sampling: three consecutive draws mapped
/// to `[-1, 1)`, and the state after them.
pub open spec fn cube_sample(s: u32) -> (Vec3, u32) {
    let s1 = next_state(s);
    let s2 = next_state(s1);
    let s3 = next_state(s2);
    let v = Vec3 {
        x: fx(2 * unit_draw(s) - SCALE),
        y: fx(2 * unit_draw(s1) - SCALE),
        z: fx(2 * unit_draw(s2) - SCALE),
    };
    (v, s3)
}

/// Rejection sampling of the unit ball: candidates are drawn from the
/// cube until one has squared length below one.  `fuel` bounds the number
/// of attempts; an exhausted budget falls back to the center point, which
/// also lies in the ball.
pub open spec fn sphere_sample(s: u32, fuel: nat) -> (Vec3, u32)
    decreases fuel,
{
    if fuel == 0 {
        (Vec3 { x: fx(0), y: fx(0), z: fx(0) }, s)
    } else {
        let (v, s3) = cube_sample(s);
        if dot_spec(v, v) < SCALE {
            (v, s3)
        } else {
            sphere_sample(s3, (fuel - 1) as nat)
        }
    }
}

/// Rejection sampling of the unit disk in the xy-plane, in the same way.
pub open spec fn disk_sample(s: u32, fuel: nat) -> (Vec3, u32)
    decreases fuel,
{
    if fuel == 0 {
        (Vec3 { x: fx(0), y: fx(0), z: fx(0) }, s)
    } else {
        let s1 = next_state(s);
        let s2 = next_state(s1);
        let v = Vec3 { x: fx(2 * unit_draw(s) - SCALE), y: fx(2 * unit_draw(s1) - SCALE), z: fx(0) };
        if dot_spec(v, v) < SCALE {
            (v, s2)
        } else {
            disk_sample(s2, (fuel - 1) as nat)
        }
    }
}

/// Number of rejection attempts granted to the samplers.  The chance that
/// so many consecutive candidates all fall outside the ball is
/// negligible, and the fallback is still a point of the ball.
pub const SAMPLE_FUEL: u32 = 64;

fn sphere_sample_rec(rng: &mut DefaultRng, fuel: u32) -> (r: Vec3)
    ensures
        r == sphere_sample(old(rng).state, fuel as nat).0,
        final (rng).state == sphere_sample(old(rng).state, fuel as nat).1,
        vec_bounded(r, SCALE as int),
    decreases fuel,
{
    if fuel == 0 {
        Vec3 { x: Fx { raw: 0 }, y: Fx { raw: 0 }, z: Fx { raw: 0 } }
    } else {
        let rx = rng.next_fx();
        let ry = rng.next_fx();
        let rz = rng.next_fx();
        let v = Vec3 {
            x: Fx { raw: 2 * rx.raw - 65536 },
            y: Fx { raw: 2 * ry.raw - 65536 },
            z: Fx { raw: 2 * rz.raw - 65536 },
        };
        let ls = v.length_squared();
        if ls.raw < 65536 {
            v
        } else {
            sphere_sample_rec(rng, fuel - 1)
        }
    }
}

/// A pseudo-random point of the unit ball.
pub fn random_in_unit_sphere(rng: &mut DefaultRng) -> (r: Vec3)
    ensures
        r == sphere_sample(old(rng).state, SAMPLE_FUEL as nat).0,
        final (rng).state == sphere_sample(old(rng).state, SAMPLE_FUEL as nat).1,
        vec_bounded(r, SCALE as int),
{
    sphere_sample_rec(rng, SAMPLE_FUEL)
}

fn disk_sample_rec(rng: &mut DefaultRng, fuel: u32) -> (r: Vec3)
    ensures
        r == disk_sample(old(rng).state, fuel as nat).0,
        final (rng).state == disk_sample(old(rng).state, fuel as nat).1,
        vec_bounded(r, SCALE as int),
    decreases fuel,
{
    if fuel == 0 {
        Vec3 { x: Fx { raw: 0 }, y: Fx { raw: 0 }, z: Fx { raw: 0 } }
    } else {
        let rx = rng.next_fx();
        let ry = rng.next_fx();
        let v = Vec3 {
            x: Fx { raw: 2 * rx.raw - 65536 },
            y: Fx { raw: 2 * ry.raw - 65536 },
            z: Fx { raw: 0 },
        };
        let ls = v.length_squared();
        if ls.raw < 65536 {
            v
        } else {
            disk_sample_rec(rng, fuel - 1)
        }
    }
}

/// A pseudo-random point of the unit disk in the xy-plane (lens
/// sampling).
pub fn random_in_unit_disk(rng: &mut DefaultRng) -> (r: Vec3)
    ensures
        r == disk_sample(old(rng).state, SAMPLE_FUEL as nat).0,
        final (rng).state == disk_sample(old(rng).state, SAMPLE_FUEL as nat).1,
        vec_bounded(r, SCALE as int),
{
    disk_sample_rec(rng, SAMPLE_FUEL)
}

} // verus!
