//! Rays and the payload a closest-hit query fills in.

use vstd::prelude::*;
use crate::bool32::Bool32;
use crate::vec3::{Vec3, COORD_LIMIT, vec_bounded, dot_spec, negv_spec};

verus! {

/// A half-line: origin and (not necessarily unit) direction.
#[derive(Clone, Copy, PartialEq, Eq, Structural, Debug)]
pub struct Ray {
    pub origin: Vec3,
    pub direction: Vec3,
}

/// Result of one intersection query, consumed by the material dispatch.
/// On a miss, `is_miss` is set and `position` carries the background
/// color instead of geometry data.
#[derive(Clone, Copy, PartialEq, Eq, Structural, Debug)]
pub struct RayPayload {
    pub position: Vec3,
    pub normal: Vec3,
    pub is_miss: Bool32,
    pub material: u32,
    pub front_face: Bool32,
}

/// The payload built from a hit: the normal is flipped onto the side the
/// ray came from, and `front_face` records whether the outward normal
/// already pointed that way.
pub open spec fn payload_spec(
    position: Vec3,
    outward_normal: Vec3,
    ray_direction: Vec3,
    material: u32,
) -> RayPayload {
    let ff = dot_spec(ray_direction, outward_normal) < 0;
    RayPayload {
        position,
        normal: if ff {
            outward_normal
        } else {
            negv_spec(outward_normal)
        },
        is_miss: Bool32(0),
        material,
        front_face: if ff {
            Bool32(1)
        } else {
            Bool32(0)
        },
    }
}

impl RayPayload {
    /// Builds the payload for a hit at `position` with the given outward
    /// normal, incoming ray direction and material index.
    pub fn new(position: Vec3, outward_normal: Vec3, ray_direction: Vec3, material: u32) -> (r:
        RayPayload)
        requires
            vec_bounded(outward_normal, COORD_LIMIT as int),
            vec_bounded(ray_direction, COORD_LIMIT as int),
        ensures
            r == payload_spec(position, outward_normal, ray_direction, material),
    {
        let d = ray_direction.dot(outward_normal);
        let front_face = d.raw < 0;
        let normal = if front_face {
            outward_normal
        } else {
            outward_normal.neg()
        };
        RayPayload {
            position,
            normal,
            is_miss: Bool32::new(false),
            front_face: Bool32::new(front_face),
            material,
        }
    }
}

} // verus!
