//! The nearest-hit query over a table of translated unit spheres.
//!
//! The surrounding renderer owns instance transforms in general; this
//! query covers the instances the integrator traces: unit spheres moved
//! by the translation column of their transform.  Each sphere reports its
//! candidate roots independently and the query keeps the nearest root
//! over all instances, the first instance winning ties, which is the
//! standard nearest-hit collapse of the per-root reports.
//!
//! On a miss the payload carries the background color: a vertical
//! gradient from white to sky blue over the normalized direction.

use vstd::prelude::*;
use crate::bool32::Bool32;
use crate::fixed::{Fx, SCALE, abs_i, tmul, lemma_tmul_bound};
use crate::vec3::{Vec3, COORD_LIMIT, vec_bounded, fx, addv_spec, subv_spec, scale_spec,
    normalize_spec, lerp_spec};
use crate::ray::{Ray, RayPayload, payload_spec};
use crate::sphere::{sphere_roots_spec, sphere_intersection};
use crate::material::POS_LIMIT;

verus! {

/// Largest raw value accepted for the far end of the trace interval
/// (2^33, about 131000 length units).
pub const T_LIMIT: i64 = 0x2_0000_0000;

/// One sphere of the scene: a unit sphere moved to `center`, shaded by
/// the material table entry at `material_index`.
#[derive(Clone, Copy, PartialEq, Eq, Structural, Debug)]
pub struct SphereInstance {
    pub center: Vec3,
    pub material_index: u32,
}

/// Every instance center lies inside the representable region.
pub open spec fn scene_wf(s: Seq<SphereInstance>) -> bool {
    forall|i: int| 0 <= i < s.len() ==> vec_bounded(#[trigger] s[i].center, POS_LIMIT as int)
}

/// The nearest in-range root of one instance: the near candidate where
/// it lies in the interval, else the far one.
pub open spec fn instance_hit_t(inst: SphereInstance, ray: Ray, t_min: Fx, t_max: Fx) -> Option<
    Fx,
> {
    let roots = sphere_roots_spec(subv_spec(ray.origin, inst.center), ray.direction, t_min, t_max);
    if roots.root0 is Some {
        roots.root0
    } else {
        roots.root1
    }
}

/// The nearest hit over the first instances of the scene: the smallest
/// reported root, earlier instances winning ties.
pub open spec fn best_hit(s: Seq<SphereInstance>, ray: Ray, t_min: Fx, t_max: Fx) -> Option<
    (Fx, int),
>
    decreases s.len(),
{
    if s.len() == 0 {
        None
    } else {
        let prev = best_hit(s.drop_last(), ray, t_min, t_max);
        let cur = instance_hit_t(s.last(), ray, t_min, t_max);
        match (prev, cur) {
            (None, None) => None,
            (Some(p), None) => Some(p),
            (None, Some(t)) => Some((t, s.len() - 1)),
            (Some(p), Some(t)) => if t.raw < p.0.raw {
                Some((t, s.len() - 1))
            } else {
                Some(p)
            },
        }
    }
}

/// The background color of a miss: white blended toward sky blue by the
/// height of the normalized direction, `0.5 (y + 1)`.
pub open spec fn background_spec(direction: Vec3) -> Vec3 {
    let unit = normalize_spec(direction);
    let t = fx(tmul(unit.y.raw + SCALE, 32768));
    lerp_spec(
        Vec3 { x: fx(SCALE as int), y: fx(SCALE as int), z: fx(SCALE as int) },
        Vec3 { x: fx(32768), y: fx(45875), z: fx(SCALE as int) },
        t,
    )
}

/// The payload of a miss: the miss flag and the background color in the
/// position slot.
pub open spec fn miss_payload_spec(ray: Ray) -> RayPayload {
    RayPayload {
        position: background_spec(ray.direction),
        normal: Vec3 { x: fx(0), y: fx(0), z: fx(0) },
        is_miss: Bool32(1),
        material: 0,
        front_face: Bool32(0),
    }
}

/// The payload of a hit at parameter `t` on instance `idx`: world
/// position along the ray, outward normal away from the instance center,
/// flipped onto the incoming side.
pub open spec fn hit_payload_spec(s: Seq<SphereInstance>, ray: Ray, t: Fx, idx: int) -> RayPayload {
    let inst = s[idx];
    let pos = addv_spec(ray.origin, scale_spec(ray.direction, t));
    let n = normalize_spec(subv_spec(pos, inst.center));
    payload_spec(pos, n, ray.direction, inst.material_index)
}

/// What the scene query returns: the payload of the nearest hit, or the
/// miss payload where nothing is hit or the hit position falls outside
/// the representable region (a fixed-point range guard; no scene within
/// bounds produces such a hit).
#[verifier::opaque]
pub open spec fn trace_scene_spec(s: Seq<SphereInstance>, ray: Ray, t_min: Fx, t_max: Fx)
    -> RayPayload {
    match best_hit(s, ray, t_min, t_max) {
        None => miss_payload_spec(ray),
        Some(p) => {
            let pos = addv_spec(ray.origin, scale_spec(ray.direction, p.0));
            if vec_bounded(pos, POS_LIMIT as int) {
                hit_payload_spec(s, ray, p.0, p.1)
            } else {
                miss_payload_spec(ray)
            }
        },
    }
}

/// Computes the background color of a missing ray.
pub fn background_color(direction: Vec3) -> (r: Vec3)
    requires
        vec_bounded(direction, COORD_LIMIT as int),
    ensures
        r == background_spec(direction),
        0 <= r.x.raw <= 2 * SCALE as int,
        0 <= r.y.raw <= 2 * SCALE as int,
        0 <= r.z.raw <= 2 * SCALE as int,
{
    let unit = direction.normalize();
    proof {
        lemma_tmul_bound(unit.y.raw + SCALE as int, 32768, 196608int, 32768int);
    }
    let t = Fx { raw: unit.y.raw + SCALE }.mul(Fx { raw: 32768 });
    let white = Vec3 { x: Fx { raw: SCALE }, y: Fx { raw: SCALE }, z: Fx { raw: SCALE } };
    let blue = Vec3 { x: Fx { raw: 32768 }, y: Fx { raw: 45875 }, z: Fx { raw: SCALE } };
    proof {
        lemma_tmul_bound((32768 - 65536) as int, t.raw as int, 32768int, 98304int);
        lemma_tmul_bound((45875 - 65536) as int, t.raw as int, 19661int, 98304int);
        lemma_tmul_bound(0int, t.raw as int, 0int, 98304int);
    }
    let r = white.lerp(blue, t);
    proof {
        assert(abs_i(tmul((32768 - 65536) as int, t.raw as int)) <= 49152);
        assert(abs_i(tmul((45875 - 65536) as int, t.raw as int)) <= 29492);
        assert(tmul(0int, t.raw as int) == 0);
    }
    r
}

/// Runs the nearest-hit query: intersects the ray with every instance,
/// keeps the nearest root in `[t_min, t_max]`, and builds the hit
/// payload, or the miss payload carrying the background color.
pub fn trace_scene(instances: &Vec<SphereInstance>, ray: &Ray, t_min: Fx, t_max: Fx) -> (r:
    RayPayload)
    requires
        scene_wf(instances@),
        vec_bounded(ray.origin, POS_LIMIT as int),
        vec_bounded(ray.direction, crate::material::SCATTER_DIR_LIMIT as int),
        0 <= t_min.raw,
        t_min.raw <= t_max.raw <= T_LIMIT,
    ensures
        r == trace_scene_spec(instances@, *ray, t_min, t_max),
        r.is_miss.0 == 1 || r.is_miss.0 == 0,
        r.is_miss.0 == 1 ==> 0 <= r.position.x.raw <= 2 * SCALE as int && 0 <= r.position.y.raw
            <= 2 * SCALE as int && 0 <= r.position.z.raw <= 2 * SCALE as int,
        r.is_miss.0 == 0 ==> vec_bounded(r.position, POS_LIMIT as int) && vec_bounded(
            r.normal,
            2 * SCALE as int,
        ),
        r.is_miss.0 == 0 ==> exists|i: int|
            0 <= i < instances@.len() && r.material == #[trigger] instances@[i].material_index,
{
    proof {
        reveal(trace_scene_spec);
    }
    let mut best: Option<(Fx, usize)> = None;
    let n = instances.len();
    let mut i: usize = 0;
    while i < n
        invariant
            n == instances@.len(),
            0 <= i <= n,
            scene_wf(instances@),
            vec_bounded(ray.origin, POS_LIMIT as int),
            vec_bounded(ray.direction, crate::material::SCATTER_DIR_LIMIT as int),
            best_hit(instances@.take(i as int), *ray, t_min, t_max) == match best {
                None => None::<(Fx, int)>,
                Some(p) => Some((p.0, p.1 as int)),
            },
            match best {
                None => true,
                Some(p) => 0 <= p.1 < i && t_min.raw <= p.0.raw <= t_max.raw,
            },
        decreases n - i,
    {
        let inst = &instances[i];
        let oc = ray.origin.sub(inst.center);
        let roots = sphere_intersection(oc, ray.direction, t_min, t_max);
        let cur: Option<Fx> = match roots.root0 {
            Some(t) => Some(t),
            None => roots.root1,
        };
        proof {
            assert(instances@.take(i as int + 1).drop_last() =~= instances@.take(i as int));
            assert(instances@.take(i as int + 1).last() == instances@[i as int]);
            assert(cur == instance_hit_t(instances@[i as int], *ray, t_min, t_max));
            assert(match cur {
                Some(t) => t_min.raw <= t.raw <= t_max.raw,
                None => true,
            });
        }
        match cur {
            Some(t) => {
                best = match best {
                    None => Some((t, i)),
                    Some(p) => if t.raw < p.0.raw {
                        Some((t, i))
                    } else {
                        Some(p)
                    },
                };
            },
            None => {},
        }
        i = i + 1;
    }
    proof {
        assert(instances@.take(n as int) =~= instances@);
    }
    match best {
        None => {
            let bg = background_color(ray.direction);
            RayPayload {
                position: bg,
                normal: Vec3 { x: Fx { raw: 0 }, y: Fx { raw: 0 }, z: Fx { raw: 0 } },
                is_miss: Bool32(1),
                material: 0,
                front_face: Bool32(0),
            }
        },
        Some((t, idx)) => {
            proof {
                lemma_tmul_bound(ray.direction.x.raw as int, t.raw as int, 0x1000_0000,
                    0x2_0000_0000);
                lemma_tmul_bound(ray.direction.y.raw as int, t.raw as int, 0x1000_0000,
                    0x2_0000_0000);
                lemma_tmul_bound(ray.direction.z.raw as int, t.raw as int, 0x1000_0000,
                    0x2_0000_0000);
            }
            let pos = ray.origin.add(ray.direction.scale(t));
            let in_range = pos.x.raw >= -POS_LIMIT && pos.x.raw <= POS_LIMIT && pos.y.raw
                >= -POS_LIMIT && pos.y.raw <= POS_LIMIT && pos.z.raw >= -POS_LIMIT && pos.z.raw
                <= POS_LIMIT;
            if in_range {
                let inst = &instances[idx];
                let n0 = pos.sub(inst.center).normalize();
                RayPayload::new(pos, n0, ray.direction, inst.material_index)
            } else {
                let bg = background_color(ray.direction);
                RayPayload {
                    position: bg,
                    normal: Vec3 { x: Fx { raw: 0 }, y: Fx { raw: 0 }, z: Fx { raw: 0 } },
                    is_miss: Bool32(1),
                    material: 0,
                    front_face: Bool32(0),
                }
            }
        },
    }
}

} // verus!
