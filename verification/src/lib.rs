//! Core of a stochastic path tracer over a small analytic scene of unit
//! spheres: a deterministic pseudo-random number source, fixed-point
//! geometry (ray / unit-sphere intersection), a closed material model
//! (diffuse, metal, dielectric) and the bounded bounce loop that drives
//! them.  All arithmetic is exact Q16.16 fixed point, so every routine has
//! a functional contract and identical inputs give bit-identical results.
//!
//! Device setup, command submission and image encoding are deliberately not
//! part of this crate: the integrator consumes a scene description and a
//! seed, and hands back one radiance sample per call.

use vstd::prelude::*;

pub mod fixed;
pub mod vec3;
pub mod bool32;
pub mod rng;
pub mod ray;
pub mod sphere;
pub mod material;
pub mod scene;
pub mod camera;
pub mod integrator;

verus! {

/// Per-launch parameters handed to the ray-generation entry point by the
/// surrounding renderer: a seed that decorrelates frames.
pub struct PushConstants {
    pub seed: u32,
}

/// Rounds `value` up to the next multiple of `alignment`.
///
/// `alignment` must be a (nonzero) power of two, which is how buffer
/// alignment requirements are reported.
pub fn aligned_size(value: u32, alignment: u32) -> (r: u32)
    requires
        exists|k: u32| k < 32 && alignment == 1u32 << k,
        value + alignment <= u32::MAX,
    ensures
        r % alignment == 0,
        value <= r < value + alignment,
{
    proof {
        let k = choose|k: u32| k < 32 && alignment == 1u32 << k;
        assert(k < 32 ==> 1u32 << k >= 1) by (bit_vector);
    }
    let am1: u32 = alignment - 1;
    let s: u32 = value + am1;
    let r = s & !am1;
    proof {
        let k = choose|k: u32| k < 32 && alignment == 1u32 << k;
        assert((k < 32 && alignment == 1u32 << k && alignment == am1 + 1 && s == value + am1
            && value + alignment <= u32::MAX) ==> ((s & !am1) % alignment == 0 && value <= (s
            & !am1) && (s & !am1) < value + alignment)) by (bit_vector);
    }
    r
}

} // verus!
