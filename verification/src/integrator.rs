//! The path integrator: drives the bounded bounce loop for one pixel
//! sample — intersect, scatter, attenuate — until the ray escapes, is
//! absorbed, or the depth bound is reached.
//!
//! Every step is a pure function of the scene, the material table and
//! the generator state, so one sample's radiance is a function of the
//! seed: two runs over the same scene and seed return bit-identical
//! colors.

use vstd::prelude::*;
use crate::fixed::{Fx, SCALE, abs_i, fxdiv, tdiv, lemma_tmul_bound, lemma_tmul_nonneg,
    lemma_tdiv_bound};
use crate::vec3::{Vec3, vec_bounded, fx, mulv_spec};
use crate::ray::Ray;
use crate::rng::{DefaultRng, next_state, unit_draw};
use crate::material::{EnumMaterial, material_wf, color_in_unit, scatter_spec,
    SCATTER_DIR_LIMIT, POS_LIMIT};
use crate::scene::{SphereInstance, scene_wf, trace_scene_spec, trace_scene};
use crate::camera::{Camera, camera_wf, get_ray_spec};

verus! {

/// Bounce budget of one path; reaching it contributes zero radiance.
pub const MAX_DEPTH: u32 = 50;

/// Near end of every trace interval (about `0.001` length units; rays
/// must leave the surface they scattered from).
pub const T_MIN_RAW: i64 = 66;

/// Far end of every trace interval (100000 length units).
pub const T_MAX_RAW: i64 = 6553600000;

/// Every entry of the material table is well formed.
pub open spec fn materials_wf(mats: Seq<EnumMaterial>) -> bool {
    forall|i: int| 0 <= i < mats.len() ==> material_wf(#[trigger] mats[i])
}

/// Every instance's material index selects an entry of the table.
pub open spec fn scene_indexes_ok(s: Seq<SphereInstance>, mats: Seq<EnumMaterial>) -> bool {
    forall|i: int| 0 <= i < s.len() ==> (#[trigger] s[i].material_index as int) < mats.len()
}

/// All components of a running throughput color lie in `[0, 1]`.
pub open spec fn throughput_ok(c: Vec3) -> bool {
    color_in_unit(c)
}

/// One path, traced from the given throughput, ray and generator state
/// with `fuel` bounces left: the final radiance sample and the state
/// after it.  A miss multiplies the throughput into the background; an
/// absorbed path and an exhausted budget contribute zero.
#[verifier::opaque]
pub open spec fn trace_rec(
    scene: Seq<SphereInstance>,
    mats: Seq<EnumMaterial>,
    color: Vec3,
    ray: Ray,
    st: u32,
    fuel: nat,
) -> (Vec3, u32)
    decreases fuel,
{
    if fuel == 0 {
        (Vec3 { x: fx(0), y: fx(0), z: fx(0) }, st)
    } else {
        let p = trace_scene_spec(scene, ray, Fx { raw: T_MIN_RAW }, Fx { raw: T_MAX_RAW });
        if p.is_miss.0 == 1 {
            (mulv_spec(color, p.position), st)
        } else {
            let res = scatter_spec(mats[p.material as int], ray, p, st);
            match res.0 {
                Some(sc) => trace_rec(
                    scene,
                    mats,
                    mulv_spec(color, sc.color),
                    sc.ray,
                    res.1,
                    (fuel - 1) as nat,
                ),
                None => (Vec3 { x: fx(0), y: fx(0), z: fx(0) }, res.1),
            }
        }
    }
}

/// One unfolding of `trace_rec` for a positive bounce budget.
proof fn lemma_trace_rec_unfold(
    scene: Seq<SphereInstance>,
    mats: Seq<EnumMaterial>,
    color: Vec3,
    ray: Ray,
    st: u32,
    fuel: nat,
)
    requires
        fuel > 0,
    ensures
        ({
            let p = trace_scene_spec(scene, ray, Fx { raw: T_MIN_RAW }, Fx { raw: T_MAX_RAW });
            let res = scatter_spec(mats[p.material as int], ray, p, st);
            trace_rec(scene, mats, color, ray, st, fuel) == if p.is_miss.0 == 1 {
                (mulv_spec(color, p.position), st)
            } else {
                match res.0 {
                    Some(sc) => trace_rec(
                        scene,
                        mats,
                        mulv_spec(color, sc.color),
                        sc.ray,
                        res.1,
                        (fuel - 1) as nat,
                    ),
                    None => (Vec3 { x: fx(0), y: fx(0), z: fx(0) }, res.1),
                }
            }
        }),
{
    reveal(trace_rec);
}

/// `trace_rec` at an exhausted budget.
proof fn lemma_trace_rec_zero(
    scene: Seq<SphereInstance>,
    mats: Seq<EnumMaterial>,
    color: Vec3,
    ray: Ray,
    st: u32,
)
    ensures
        trace_rec(scene, mats, color, ray, st, 0) == (Vec3 { x: fx(0), y: fx(0), z: fx(0) }, st),
{
    reveal(trace_rec);
}

/// Multiplies an attenuation into the running throughput; components
/// stay in `[0, 1]`.
fn attenuate(color: Vec3, att: Vec3) -> (r: Vec3)
    requires
        throughput_ok(color),
        color_in_unit(att),
    ensures
        r == mulv_spec(color, att),
        throughput_ok(r),
{
    proof {
        lemma_tmul_bound(color.x.raw as int, att.x.raw as int, 65536int, 65536int);
        lemma_tmul_bound(color.y.raw as int, att.y.raw as int, 65536int, 65536int);
        lemma_tmul_bound(color.z.raw as int, att.z.raw as int, 65536int, 65536int);
        lemma_tmul_nonneg(color.x.raw as int, att.x.raw as int);
        lemma_tmul_nonneg(color.y.raw as int, att.y.raw as int);
        lemma_tmul_nonneg(color.z.raw as int, att.z.raw as int);
    }
    color.mul(att)
}

/// Traces one path to completion: the executable form of `trace_rec` at
/// the full bounce budget, starting from unit throughput.  The result is
/// a pure function of the scene, the table and the generator state, and
/// every component of it is nonnegative.
#[verifier::rlimit(100)]
pub fn trace_path(
    instances: &Vec<SphereInstance>,
    materials: &Vec<EnumMaterial>,
    ray: Ray,
    rng: &mut DefaultRng,
) -> (c: Vec3)
    requires
        scene_wf(instances@),
        materials_wf(materials@),
        scene_indexes_ok(instances@, materials@),
        vec_bounded(ray.origin, POS_LIMIT as int),
        vec_bounded(ray.direction, SCATTER_DIR_LIMIT as int),
    ensures
        ({
            let full = trace_rec(
                instances@,
                materials@,
                Vec3 { x: fx(SCALE as int), y: fx(SCALE as int), z: fx(SCALE as int) },
                ray,
                old(rng).state,
                MAX_DEPTH as nat,
            );
            c == full.0 && final (rng).state == full.1
        }),
        0 <= c.x.raw && 0 <= c.y.raw && 0 <= c.z.raw,
        c.x.raw <= 2 * SCALE as int && c.y.raw <= 2 * SCALE as int && c.z.raw <= 2 * SCALE as int,
{
    let ghost scene = instances@;
    let ghost mats = materials@;
    let ghost s0 = rng.state;
    let white = Vec3 { x: Fx { raw: SCALE }, y: Fx { raw: SCALE }, z: Fx { raw: SCALE } };
    let mut color = white;
    let mut cur = ray;
    let mut depth: u32 = 0;
    while depth < MAX_DEPTH
        invariant
            scene == instances@,
            mats == materials@,
            s0 == old(rng).state,
            white == (Vec3 { x: fx(SCALE as int), y: fx(SCALE as int), z: fx(SCALE as int) }),
            scene_wf(scene),
            materials_wf(mats),
            scene_indexes_ok(scene, mats),
            0 <= depth <= MAX_DEPTH,
            throughput_ok(color),
            vec_bounded(cur.origin, POS_LIMIT as int),
            vec_bounded(cur.direction, SCATTER_DIR_LIMIT as int),
            trace_rec(scene, mats, white, ray, s0, MAX_DEPTH as nat) == trace_rec(
                scene,
                mats,
                color,
                cur,
                rng.state,
                (MAX_DEPTH - depth) as nat,
            ),
        decreases MAX_DEPTH - depth,
    {
        let ghost st_in = rng.state;
        let ghost fuel_in = (MAX_DEPTH - depth) as nat;
        let payload = trace_scene(instances, &cur, Fx { raw: T_MIN_RAW }, Fx { raw: T_MAX_RAW });
        proof {
            assert(payload == trace_scene_spec(scene, cur, Fx { raw: T_MIN_RAW }, Fx {
                raw: T_MAX_RAW,
            }));
        }
        proof {
            lemma_trace_rec_unfold(scene, mats, color, cur, st_in, fuel_in);
        }
        if payload.is_miss.0 == 1 {
            proof {
                assert(trace_rec(scene, mats, color, cur, st_in, fuel_in) == (mulv_spec(
                    color,
                    payload.position,
                ), st_in));
            }
            proof {
                lemma_tmul_bound(color.x.raw as int, payload.position.x.raw as int, 65536int,
                    131072int);
                lemma_tmul_bound(color.y.raw as int, payload.position.y.raw as int, 65536int,
                    131072int);
                lemma_tmul_bound(color.z.raw as int, payload.position.z.raw as int, 65536int,
                    131072int);
                lemma_tmul_nonneg(color.x.raw as int, payload.position.x.raw as int);
                lemma_tmul_nonneg(color.y.raw as int, payload.position.y.raw as int);
                lemma_tmul_nonneg(color.z.raw as int, payload.position.z.raw as int);
            }
            return color.mul(payload.position);
        }
        let midx = payload.material as usize;
        proof {
            assert(midx < mats.len());
        }
        let entry = &materials[midx];
        let scattered = entry.scatter(&cur, &payload, rng);
        proof {
            assert(scattered == scatter_spec(mats[midx as int], cur, payload, st_in).0);
            assert(rng.state == scatter_spec(mats[midx as int], cur, payload, st_in).1);
        }
        match scattered {
            Some(sc) => {
                proof {
                    assert(trace_rec(scene, mats, color, cur, st_in, fuel_in) == trace_rec(
                        scene,
                        mats,
                        mulv_spec(color, sc.color),
                        sc.ray,
                        rng.state,
                        (fuel_in - 1) as nat,
                    ));
                }
                color = attenuate(color, sc.color);
                cur = sc.ray;
                depth = depth + 1;
            },
            None => {
                proof {
                    assert(trace_rec(scene, mats, color, cur, st_in, fuel_in) == (Vec3 {
                        x: fx(0),
                        y: fx(0),
                        z: fx(0),
                    }, rng.state));
                }
                return Vec3 { x: Fx { raw: 0 }, y: Fx { raw: 0 }, z: Fx { raw: 0 } };
            },
        }
    }
    proof {
        lemma_trace_rec_zero(scene, mats, color, cur, rng.state);
    }
    Vec3 { x: Fx { raw: 0 }, y: Fx { raw: 0 }, z: Fx { raw: 0 } }
}

/// The seed of one pixel's generator: the pixel's linear index combined
/// with the frame seed, which decorrelates adjacent pixels.
pub open spec fn pixel_seed_spec(x: u32, y: u32, width: u32, frame_seed: u32) -> u32 {
    (((y * width + x) as u32) ^ frame_seed)
}

/// Computes the generator seed of the pixel at `(x, y)`.
pub fn pixel_seed(x: u32, y: u32, width: u32, frame_seed: u32) -> (r: u32)
    requires
        y * width + x <= u32::MAX,
    ensures
        r == pixel_seed_spec(x, y, width, frame_seed),
{
    (y * width + x) ^ frame_seed
}

/// One sample of the pixel at `(x, y)`: the seed is derived from the
/// pixel index and the frame seed, the image-plane coordinate is
/// jittered by one draw in each axis, and the camera ray is traced
/// through the scene.
pub open spec fn render_pixel_spec(
    scene: Seq<SphereInstance>,
    mats: Seq<EnumMaterial>,
    cam: Camera,
    x: u32,
    y: u32,
    width: u32,
    height: u32,
    frame_seed: u32,
) -> Vec3 {
    let st0 = pixel_seed_spec(x, y, width, frame_seed);
    let st1 = next_state(st0);
    let st2 = next_state(st1);
    let u_c = fx(fxdiv(x * 65536 + unit_draw(st0), (width - 1) * 65536));
    let v_c = fx(fxdiv(y * 65536 + unit_draw(st1), (height - 1) * 65536));
    let rs = get_ray_spec(cam, u_c, v_c, st2);
    trace_rec(
        scene,
        mats,
        Vec3 { x: fx(SCALE as int), y: fx(SCALE as int), z: fx(SCALE as int) },
        rs.0,
        rs.1,
        MAX_DEPTH as nat,
    ).0
}

/// Renders one sample for the pixel at `(x, y)` of a `width` by
/// `height` image.  The result is a pure function of the arguments —
/// identical seeds give bit-identical samples — and every component of
/// it is nonnegative.  The caller accumulates samples into its
/// framebuffer.
pub fn render_pixel(
    instances: &Vec<SphereInstance>,
    materials: &Vec<EnumMaterial>,
    camera: &Camera,
    x: u32,
    y: u32,
    width: u32,
    height: u32,
    frame_seed: u32,
) -> (c: Vec3)
    requires
        scene_wf(instances@),
        materials_wf(materials@),
        scene_indexes_ok(instances@, materials@),
        camera_wf(*camera),
        2 <= width,
        2 <= height,
        x < width,
        y < height,
        y * width + x <= u32::MAX,
    ensures
        c == render_pixel_spec(
            instances@,
            materials@,
            *camera,
            x,
            y,
            width,
            height,
            frame_seed,
        ),
        0 <= c.x.raw && 0 <= c.y.raw && 0 <= c.z.raw,
{
    let seed = pixel_seed(x, y, width, frame_seed);
    let mut rng = DefaultRng::new(seed);
    let jx = rng.next_fx();
    let u_c = pixel_coord(x, jx, width);
    let jy = rng.next_fx();
    let v_c = pixel_coord(y, jy, height);
    let r = camera.get_ray(u_c, v_c, &mut rng);
    trace_path(instances, materials, r, &mut rng)
}

/// Determinism: two samples rendered from the same scene, material
/// table, camera, pixel and seed are bit-identical.  `render_pixel`
/// returns `render_pixel_spec` of its arguments — a pure function — so
/// any two runs over identical inputs agree exactly.
pub proof fn lemma_render_deterministic(
    scene: Seq<SphereInstance>,
    mats: Seq<EnumMaterial>,
    cam: Camera,
    x: u32,
    y: u32,
    width: u32,
    height: u32,
    frame_seed: u32,
    c1: Vec3,
    c2: Vec3,
)
    requires
        c1 == render_pixel_spec(scene, mats, cam, x, y, width, height, frame_seed),
        c2 == render_pixel_spec(scene, mats, cam, x, y, width, height, frame_seed),
    ensures
        c1 == c2,
{
}

/// The normalized image-plane coordinate of index `i` jittered by `j`:
/// `(i + j) / (extent - 1)`.
fn pixel_coord(i: u32, j: Fx, extent: u32) -> (r: Fx)
    requires
        2 <= extent,
        i < extent,
        0 <= j.raw < SCALE,
    ensures
        r.raw == fxdiv(i * 65536 + j.raw, (extent - 1) * 65536),
        0 <= r.raw <= 2 * SCALE as int,
{
    let num = Fx { raw: (i as i64) * 65536 + j.raw };
    let den = Fx { raw: ((extent - 1) as i64) * 65536 };
    proof {
        let n = num.raw as int;
        let d = den.raw as int;
        assert(abs_i(n * 65536) <= 131072 * d) by (nonlinear_arith)
            requires
                0 <= n,
                d == (extent - 1) * 65536,
                n <= (extent - 1) * 65536 + 65536,
                2 <= extent,
        ;
        lemma_tdiv_bound(n * 65536, d, 131072int);
        assert(tdiv(n * 65536, d) == (n * 65536) / d);
        assert((n * 65536) / d >= 0) by (nonlinear_arith)
            requires n >= 0 && d > 0;
    }
    num.div(den)
}

} // verus!
