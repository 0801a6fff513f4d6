//! Intersection of a ray with the unit sphere at the origin.
//!
//! The routine solves `a t^2 + 2 half_b t + c == 0` with
//! `a = |dir|^2`, `half_b = origin . dir`, `c = |origin|^2 - 1` and
//! reports each root that lies in `[t_min, t_max]` independently; the
//! surrounding hit query keeps the nearest candidate.  A direction whose
//! squared length rounds to zero yields no roots, which matches treating
//! the degenerate quadratic as unsolvable.

use vstd::prelude::*;
use crate::fixed::{Fx, SCALE, abs_i, tdiv, sqrt_floor, lemma_sqrt_floor, i128_tdiv, isqrt_u128};
use crate::vec3::{Vec3, COORD_LIMIT, vec_bounded, dot_spec, fx, lemma_dot_bound};

verus! {

/// An instance-to-world transform, column vectors of the linear part and
/// the translation `w`.
#[derive(Clone, Copy, PartialEq, Eq, Structural, Debug)]
pub struct Affine3 {
    pub x: Vec3,
    pub y: Vec3,
    pub z: Vec3,
    pub w: Vec3,
}

impl Affine3 {
    /// The zero transform.
    pub fn zero() -> (r: Affine3)
        ensures
            r.x == (Vec3 { x: fx(0), y: fx(0), z: fx(0) }),
            r.y == (Vec3 { x: fx(0), y: fx(0), z: fx(0) }),
            r.z == (Vec3 { x: fx(0), y: fx(0), z: fx(0) }),
            r.w == (Vec3 { x: fx(0), y: fx(0), z: fx(0) }),
    {
        let o = Vec3 { x: Fx { raw: 0 }, y: Fx { raw: 0 }, z: Fx { raw: 0 } };
        Affine3 { x: o, y: o, z: o, w: o }
    }

    /// The identity transform.
    pub fn identity() -> (r: Affine3)
        ensures
            r.x == (Vec3 { x: fx(SCALE as int), y: fx(0), z: fx(0) }),
            r.y == (Vec3 { x: fx(0), y: fx(SCALE as int), z: fx(0) }),
            r.z == (Vec3 { x: fx(0), y: fx(0), z: fx(SCALE as int) }),
            r.w == (Vec3 { x: fx(0), y: fx(0), z: fx(0) }),
    {
        Affine3 {
            x: Vec3 { x: Fx { raw: SCALE }, y: Fx { raw: 0 }, z: Fx { raw: 0 } },
            y: Vec3 { x: Fx { raw: 0 }, y: Fx { raw: SCALE }, z: Fx { raw: 0 } },
            z: Vec3 { x: Fx { raw: 0 }, y: Fx { raw: 0 }, z: Fx { raw: SCALE } },
            w: Vec3 { x: Fx { raw: 0 }, y: Fx { raw: 0 }, z: Fx { raw: 0 } },
        }
    }
}

impl Default for Affine3 {
    /// The identity transform.
    fn default() -> (r: Affine3)
        ensures
            r.x == (Vec3 { x: fx(SCALE as int), y: fx(0), z: fx(0) }),
            r.y == (Vec3 { x: fx(0), y: fx(SCALE as int), z: fx(0) }),
            r.z == (Vec3 { x: fx(0), y: fx(0), z: fx(SCALE as int) }),
            r.w == (Vec3 { x: fx(0), y: fx(0), z: fx(0) }),
    {
        Affine3::identity()
    }
}

/// The candidate roots of one ray / unit-sphere query, each already
/// filtered against `[t_min, t_max]`; `root0` is the nearer one.
#[derive(Clone, Copy, PartialEq, Eq, Debug)]
pub struct SphereRoots {
    pub root0: Option<Fx>,
    pub root1: Option<Fx>,
}

/// Quadratic coefficient `a`: squared length of the direction.
pub open spec fn quad_a(d: Vec3) -> int {
    dot_spec(d, d)
}

/// Quadratic coefficient `half_b`: origin projected on the direction.
pub open spec fn quad_half_b(o: Vec3, d: Vec3) -> int {
    dot_spec(o, d)
}

/// Quadratic coefficient `c`: squared distance from the center, minus one.
pub open spec fn quad_c(o: Vec3) -> int {
    dot_spec(o, o) - SCALE
}

/// Discriminant `half_b^2 - a c`, carried at doubled scale (2^-32).
pub open spec fn discriminant2(o: Vec3, d: Vec3) -> int {
    quad_half_b(o, d) * quad_half_b(o, d) - quad_a(d) * quad_c(o)
}

/// Raw value of the nearer root `(-half_b - sqrt(disc)) / a`.
pub open spec fn root0_spec(o: Vec3, d: Vec3) -> int {
    tdiv(
        (-quad_half_b(o, d) - sqrt_floor(discriminant2(o, d) as nat)) * (SCALE as int),
        quad_a(d),
    )
}

/// Raw value of the farther root `(-half_b + sqrt(disc)) / a`.
pub open spec fn root1_spec(o: Vec3, d: Vec3) -> int {
    tdiv(
        (-quad_half_b(o, d) + sqrt_floor(discriminant2(o, d) as nat)) * (SCALE as int),
        quad_a(d),
    )
}

/// What the intersection routine reports.
pub open spec fn sphere_roots_spec(o: Vec3, d: Vec3, t_min: Fx, t_max: Fx) -> SphereRoots {
    if quad_a(d) == 0 || discriminant2(o, d) < 0 {
        SphereRoots { root0: None, root1: None }
    } else {
        let r0 = root0_spec(o, d);
        let r1 = root1_spec(o, d);
        SphereRoots {
            root0: if t_min.raw <= r0 && r0 <= t_max.raw {
                Some(fx(r0))
            } else {
                None
            },
            root1: if t_min.raw <= r1 && r1 <= t_max.raw {
                Some(fx(r1))
            } else {
                None
            },
        }
    }
}

/// Reports the roots of the ray / unit-sphere quadratic that lie in
/// `[t_min, t_max]`.
pub fn sphere_intersection(ray_origin: Vec3, ray_direction: Vec3, t_min: Fx, t_max: Fx) -> (r:
    SphereRoots)
    requires
        vec_bounded(ray_origin, COORD_LIMIT as int),
        vec_bounded(ray_direction, COORD_LIMIT as int),
    ensures
        r == sphere_roots_spec(ray_origin, ray_direction, t_min, t_max),
{
    proof {
        lemma_dot_bound(ray_direction, ray_direction, COORD_LIMIT as int);
        lemma_dot_bound(ray_origin, ray_direction, COORD_LIMIT as int);
        lemma_dot_bound(ray_origin, ray_origin, COORD_LIMIT as int);
    }
    let a = ray_direction.length_squared();
    let half_b = ray_origin.dot(ray_direction);
    let oo = ray_origin.length_squared();
    let c = Fx { raw: oo.raw - SCALE };
    if a.raw == 0 {
        return SphereRoots { root0: None, root1: None };
    }
    let hb: i128 = half_b.raw as i128;
    proof {
        let m = 0x4000_0000_0000_0000int;  // 2^62: every coefficient is far below this
        assert(abs_i(hb as int) <= m && abs_i(a.raw as int) <= m && abs_i(c.raw as int) <= m);
        assert(hb as int * (hb as int) <= m * m && -(m * m) <= hb as int * (hb as int))
            by (nonlinear_arith)
            requires abs_i(hb as int) <= m;
        assert((a.raw as int) * (c.raw as int) <= m * m && -(m * m) <= (a.raw as int) * (
        c.raw as int)) by (nonlinear_arith)
            requires abs_i(a.raw as int) <= m && abs_i(c.raw as int) <= m;
    }
    let disc2: i128 = hb * hb - (a.raw as i128) * (c.raw as i128);
    if disc2 < 0 {
        return SphereRoots { root0: None, root1: None };
    }
    let sqd: u128 = isqrt_u128(disc2 as u128);
    proof {
        lemma_sqrt_floor(disc2 as nat);
        assert((sqd as int) <= 0x8000_0000_0000_0000_0000_0000_0000_0000int / 0x1_0000_0000int)
            by (nonlinear_arith)
            requires
                (sqd as int) * (sqd as int) <= disc2 as int,
                disc2 as int <= 0x8000_0000_0000_0000_0000_0000_0000_0000int,
                sqd >= 0,
        ;
    }
    let sq: i128 = sqd as i128;
    let num0: i128 = (-hb - sq) * 65536;
    let r0: i128 = i128_tdiv(num0, a.raw as i128);
    let num1: i128 = (-hb + sq) * 65536;
    let r1: i128 = i128_tdiv(num1, a.raw as i128);
    let root0: Option<Fx> = if r0 >= t_min.raw as i128 && r0 <= t_max.raw as i128 {
        Some(Fx { raw: r0 as i64 })
    } else {
        None
    };
    let root1: Option<Fx> = if r1 >= t_min.raw as i128 && r1 <= t_max.raw as i128 {
        Some(Fx { raw: r1 as i64 })
    } else {
        None
    };
    SphereRoots { root0, root1 }
}

/// A ray fired from distance `d > 1` straight at the center of the unit
/// sphere along an axis meets it exactly at `t = d - 1` and `t = d + 1`:
/// the fixed-point quadratic has no rounding error in this configuration.
pub proof fn lemma_head_on_hit(dist: i64, t_min: Fx, t_max: Fx)
    requires
        SCALE < dist <= COORD_LIMIT,
        t_min.raw <= dist - SCALE,
        dist + SCALE <= t_max.raw,
    ensures
        ({
            let o = Vec3 { x: fx(0), y: fx(0), z: fx(dist as int) };
            let d = Vec3 { x: fx(0), y: fx(0), z: fx(-(SCALE as int)) };
            sphere_roots_spec(o, d, t_min, t_max) == (SphereRoots {
                root0: Some(fx(dist - SCALE)),
                root1: Some(fx(dist + SCALE)),
            })
        }),
{
    let o = Vec3 { x: fx(0), y: fx(0), z: fx(dist as int) };
    let d = Vec3 { x: fx(0), y: fx(0), z: fx(-(SCALE as int)) };
    let di = dist as int;
    assert((-65536int) * (-65536int) == 0x1_0000_0000int) by (nonlinear_arith);
    assert(abs_i((-65536int) * (-65536int)) == 0x1_0000_0000int);
    assert(0x1_0000_0000int / 65536int == 65536int);
    assert(tdiv((-65536int) * (-65536int), 65536int) == 65536int);
    assert(quad_a(d) == tdiv((-65536int) * (-65536int), 65536int));
    assert(quad_a(d) == 65536);
    assert(quad_half_b(o, d) == tdiv(di * (-65536), 65536));
    assert(tdiv(di * (-65536), 65536) == -di) by (nonlinear_arith)
        requires di > 0;
    let q = (di * di) / 65536;
    let rem = (di * di) % 65536;
    assert(di * di >= 0 && di * di == 65536 * q + rem && 0 <= rem < 65536) by (nonlinear_arith)
        requires q == (di * di) / 65536 && rem == (di * di) % 65536 && di > 0;
    assert(quad_c(o) == tdiv(di * di, 65536) - 65536);
    assert(tdiv(di * di, 65536) == q);
    let disc = discriminant2(o, d);
    assert(disc == (-di) * (-di) - 65536 * (q - 65536)) by (nonlinear_arith)
        requires
            disc == quad_half_b(o, d) * quad_half_b(o, d) - quad_a(d) * quad_c(o),
            quad_half_b(o, d) == -di,
            quad_a(d) == 65536,
            quad_c(o) == q - 65536,
    ;
    assert(disc == rem + 0x1_0000_0000) by (nonlinear_arith)
        requires
            disc == (-di) * (-di) - 65536 * (q - 65536),
            di * di == 65536 * q + rem,
    ;
    assert(65536 * 65536 <= disc && disc < (65536 + 1) * (65536 + 1)) by (nonlinear_arith)
        requires disc == rem + 0x1_0000_0000 && 0 <= rem < 65536;
    crate::fixed::lemma_sqrt_floor_unique(disc as nat, 65536);
    assert(root0_spec(o, d) == tdiv((di - 65536) * 65536, 65536));
    assert(tdiv((di - 65536) * 65536, 65536) == di - 65536) by (nonlinear_arith)
        requires di > 65536;
    assert(root1_spec(o, d) == tdiv((di + 65536) * 65536, 65536));
    assert(tdiv((di + 65536) * 65536, 65536) == di + 65536) by (nonlinear_arith)
        requires di > 65536;
}

/// A ray travelling along an axis whose perpendicular offset from the
/// center exceeds one never meets the unit sphere: the discriminant is
/// negative and no root is reported, whatever `[t_min, t_max]` is.
pub proof fn lemma_offset_miss(off: i64, dist: i64, t_min: Fx, t_max: Fx)
    requires
        SCALE < off <= COORD_LIMIT,
        -COORD_LIMIT <= dist <= COORD_LIMIT,
    ensures
        ({
            let o = Vec3 { x: fx(off as int), y: fx(0), z: fx(dist as int) };
            let d = Vec3 { x: fx(0), y: fx(0), z: fx(-(SCALE as int)) };
            sphere_roots_spec(o, d, t_min, t_max) == (SphereRoots { root0: None, root1: None })
        }),
{
    let o = Vec3 { x: fx(off as int), y: fx(0), z: fx(dist as int) };
    let d = Vec3 { x: fx(0), y: fx(0), z: fx(-(SCALE as int)) };
    let fi = off as int;
    let di = dist as int;
    assert((-65536int) * (-65536int) == 0x1_0000_0000int) by (nonlinear_arith);
    assert(abs_i((-65536int) * (-65536int)) == 0x1_0000_0000int);
    assert(0x1_0000_0000int / 65536int == 65536int);
    assert(tdiv((-65536int) * (-65536int), 65536int) == 65536int);
    assert(quad_a(d) == tdiv((-65536int) * (-65536int), 65536int));
    assert(quad_a(d) == 65536);
    assert(quad_half_b(o, d) == tdiv(di * (-65536), 65536));
    assert(tdiv(di * (-65536), 65536) == -di) by (nonlinear_arith);
    let qf = (fi * fi) / 65536;
    let qd = (di * di) / 65536;
    assert(fi * fi >= 0 && 65536 * qf >= fi * fi - 65535) by (nonlinear_arith)
        requires qf == (fi * fi) / 65536;
    assert(di * di >= 0 && 65536 * qd >= di * di - 65535) by (nonlinear_arith)
        requires qd == (di * di) / 65536;
    assert(quad_c(o) == tdiv(fi * fi, 65536) + tdiv(di * di, 65536) - 65536);
    assert(tdiv(fi * fi, 65536) == qf && tdiv(di * di, 65536) == qd);
    let disc = discriminant2(o, d);
    assert(disc <= 0x1_0000_0000 + 131070 - fi * fi) by (nonlinear_arith)
        requires
            disc == (-di) * (-di) - 65536 * (qf + qd - 65536),
            65536 * qf >= fi * fi - 65535,
            65536 * qd >= di * di - 65535,
    ;
    assert(fi * fi >= 0x1_0000_0000 + 131073) by (nonlinear_arith)
        requires fi >= 65537;
    assert(disc < 0);
}

} // verus!

