//! The camera: maps a normalized image-plane coordinate and a lens draw
//! to a world-space ray, with optional depth of field.
//!
//! The viewport extents derive from the vertical field of view through a
//! truncated sine/cosine series; like every routine here, the series is a
//! fixed formula over the fixed-point operations, so camera construction
//! is a pure function of its parameters.

use vstd::prelude::*;
use crate::fixed::{Fx, SCALE, abs_i, tdiv, tmul, fxdiv, lemma_tmul_bound, lemma_tdiv_bound,
    lemma_tmul_nonneg};
use crate::vec3::{Vec3, vec_bounded, fx, addv_spec, subv_spec, scale_spec, cross_spec,
    normalize_spec, lemma_sq_nonneg};
use crate::ray::Ray;
use crate::rng::{DefaultRng, SAMPLE_FUEL, disk_sample, random_in_unit_disk};
use crate::material::{SCATTER_DIR_LIMIT, POS_LIMIT};

verus! {

/// Truncated series for the sine of `x` radians:
/// `x - x^3/6 + x^5/120 - x^7/5040`.
pub open spec fn sin_series(x: int) -> int {
    let x2 = tmul(x, x);
    let x3 = tmul(x2, x);
    let x5 = tmul(x3, x2);
    let x7 = tmul(x5, x2);
    x - tdiv(x3, 6) + tdiv(x5, 120) - tdiv(x7, 5040)
}

/// Truncated series for the cosine of `x` radians:
/// `1 - x^2/2 + x^4/24 - x^6/720`.
pub open spec fn cos_series(x: int) -> int {
    let x2 = tmul(x, x);
    let x4 = tmul(x2, x2);
    let x6 = tmul(x4, x2);
    SCALE - tdiv(x2, 2) + tdiv(x4, 24) - tdiv(x6, 720)
}

/// The tangent of half the field of view: the quotient of the two series
/// at `vfov / 2`.
pub open spec fn tan_half_spec(vfov: Fx) -> int {
    let x = tdiv(vfov.raw as int, 2);
    fxdiv(sin_series(x), cos_series(x))
}

fn sin_series_fx(x: Fx) -> (r: Fx)
    requires
        0 <= x.raw <= SCALE,
    ensures
        r.raw == sin_series(x.raw as int),
        abs_i(r.raw as int) <= 67000,
{
    proof {
        lemma_sq_nonneg(x.raw as int);
        lemma_tmul_bound(x.raw as int, x.raw as int, 65536int, 65536int);
    }
    let x2 = x.mul(x);
    proof {
        lemma_tmul_nonneg(x2.raw as int, x.raw as int);
        lemma_tmul_bound(x2.raw as int, x.raw as int, 65536int, 65536int);
    }
    let x3 = x2.mul(x);
    proof {
        lemma_tmul_nonneg(x3.raw as int, x2.raw as int);
        lemma_tmul_bound(x3.raw as int, x2.raw as int, 65536int, 65536int);
    }
    let x5 = x3.mul(x2);
    proof {
        lemma_tmul_nonneg(x5.raw as int, x2.raw as int);
        lemma_tmul_bound(x5.raw as int, x2.raw as int, 65536int, 65536int);
    }
    let x7 = x5.mul(x2);
    let t3 = x3.div_int(6);
    let t5 = x5.div_int(120);
    let t7 = x7.div_int(5040);
    proof {
        assert(t3.raw == tdiv(x3.raw as int, 6) && tdiv(x3.raw as int, 6) == (x3.raw as int) / 6);
        assert(t5.raw == tdiv(x5.raw as int, 120) && tdiv(x5.raw as int, 120) == (x5.raw as int)
            / 120);
        assert(t7.raw == tdiv(x7.raw as int, 5040) && tdiv(x7.raw as int, 5040) == (
        x7.raw as int) / 5040);
        assert((x3.raw as int) / 6 <= 10923 && (x5.raw as int) / 120 <= 546 && (x7.raw as int)
            / 5040 <= 13 && (x3.raw as int) / 6 >= 0 && (x5.raw as int) / 120 >= 0 && (
        x7.raw as int) / 5040 >= 0);
    }
    Fx { raw: x.raw - t3.raw + t5.raw - t7.raw }
}

fn cos_series_fx(x: Fx) -> (r: Fx)
    requires
        0 <= x.raw <= SCALE,
    ensures
        r.raw == cos_series(x.raw as int),
        32677 <= r.raw <= 68267,
{
    proof {
        lemma_sq_nonneg(x.raw as int);
        lemma_tmul_bound(x.raw as int, x.raw as int, 65536int, 65536int);
    }
    let x2 = x.mul(x);
    proof {
        lemma_tmul_nonneg(x2.raw as int, x2.raw as int);
        lemma_tmul_bound(x2.raw as int, x2.raw as int, 65536int, 65536int);
    }
    let x4 = x2.mul(x2);
    proof {
        lemma_tmul_nonneg(x4.raw as int, x2.raw as int);
        lemma_tmul_bound(x4.raw as int, x2.raw as int, 65536int, 65536int);
    }
    let x6 = x4.mul(x2);
    let t2 = x2.div_int(2);
    let t4 = x4.div_int(24);
    let t6 = x6.div_int(720);
    proof {
        assert(t2.raw == tdiv(x2.raw as int, 2) && tdiv(x2.raw as int, 2) == (x2.raw as int) / 2);
        assert(t4.raw == tdiv(x4.raw as int, 24) && tdiv(x4.raw as int, 24) == (x4.raw as int)
            / 24);
        assert(t6.raw == tdiv(x6.raw as int, 720) && tdiv(x6.raw as int, 720) == (x6.raw as int)
            / 720);
        assert((x2.raw as int) / 2 <= 32768 && (x4.raw as int) / 24 <= 2731 && (x6.raw as int)
            / 720 <= 91 && (x2.raw as int) / 2 >= 0 && (x4.raw as int) / 24 >= 0 && (
        x6.raw as int) / 720 >= 0);
    }
    Fx { raw: SCALE - t2.raw + t4.raw - t6.raw }
}

/// Computes `tan(vfov / 2)` for a field of view of at most two radians.
pub fn tan_half(vfov: Fx) -> (r: Fx)
    requires
        0 <= vfov.raw <= 2 * SCALE as int,
    ensures
        r.raw == tan_half_spec(vfov),
        abs_i(r.raw as int) <= 135000,
{
    let x = vfov.div_int(2);
    proof {
        assert(tdiv(vfov.raw as int, 2) == (vfov.raw as int) / 2);
        assert(0 <= (vfov.raw as int) / 2 <= 65536);
    }
    let s = sin_series_fx(x);
    let c = cos_series_fx(x);
    proof {
        assert(abs_i((s.raw as int) * 65536) <= 135000 * (c.raw as int)) by (nonlinear_arith)
            requires abs_i(s.raw as int) <= 67000 && c.raw as int >= 32677;
        lemma_tdiv_bound((s.raw as int) * 65536, c.raw as int, 135000int);
    }
    s.div(c)
}

/// The immutable camera configuration: eye position, the lower-left
/// corner of the focus plane, the viewport extents, the orthonormal
/// basis, and the lens radius.
#[derive(Clone, Copy, PartialEq, Eq, Structural, Debug)]
pub struct Camera {
    pub origin: Vec3,
    pub lower_left_corner: Vec3,
    pub horizontal: Vec3,
    pub vertical: Vec3,
    pub u: Vec3,
    pub v: Vec3,
    pub w: Vec3,
    pub lens_radius: Fx,
}

/// The derived camera values lie in the ranges the ray builder needs:
/// positions within 1024 units, viewport extents within 256 units, basis
/// vectors within 8 units, lens radius within one unit.
pub open spec fn camera_wf(c: Camera) -> bool {
    &&& vec_bounded(c.origin, 0x400_0000)
    &&& vec_bounded(c.lower_left_corner, 0x400_0000)
    &&& vec_bounded(c.horizontal, 0x100_0000)
    &&& vec_bounded(c.vertical, 0x100_0000)
    &&& vec_bounded(c.u, 0x8_0000)
    &&& vec_bounded(c.v, 0x8_0000)
    &&& 0 <= c.lens_radius.raw <= SCALE
}

/// The camera derived from its configuration parameters.
pub open spec fn camera_spec(
    lookfrom: Vec3,
    lookat: Vec3,
    vup: Vec3,
    vfov: Fx,
    aspect_ratio: Fx,
    aperture: Fx,
    focus_dist: Fx,
) -> Camera {
    let h = tan_half_spec(vfov);
    let viewport_height = 2 * h;
    let viewport_width = tmul(aspect_ratio.raw as int, viewport_height);
    let w = normalize_spec(subv_spec(lookfrom, lookat));
    let u = normalize_spec(cross_spec(vup, w));
    let v = cross_spec(w, u);
    let horizontal = scale_spec(u, fx(tmul(viewport_width, focus_dist.raw as int)));
    let vertical = scale_spec(v, fx(tmul(viewport_height, focus_dist.raw as int)));
    let lower_left = subv_spec(
        subv_spec(
            subv_spec(lookfrom, scale_spec(horizontal, fx(32768))),
            scale_spec(vertical, fx(32768)),
        ),
        scale_spec(w, focus_dist),
    );
    Camera {
        origin: lookfrom,
        lower_left_corner: lower_left,
        horizontal,
        vertical,
        u,
        v,
        w,
        lens_radius: fx(tdiv(aperture.raw as int, 2)),
    }
}

/// The ray for image-plane coordinates `(s_c, t_c)` and the lens draw
/// taken from state `st`, with the state after it.
pub open spec fn get_ray_spec(c: Camera, s_c: Fx, t_c: Fx, st: u32) -> (Ray, u32) {
    let (d, st1) = disk_sample(st, SAMPLE_FUEL as nat);
    let rd = scale_spec(d, c.lens_radius);
    let offset = addv_spec(scale_spec(c.u, rd.x), scale_spec(c.v, rd.y));
    let origin = addv_spec(c.origin, offset);
    let dir = subv_spec(
        subv_spec(
            addv_spec(
                addv_spec(c.lower_left_corner, scale_spec(c.horizontal, s_c)),
                scale_spec(c.vertical, t_c),
            ),
            c.origin,
        ),
        offset,
    );
    (Ray { origin, direction: dir }, st1)
}

impl Camera {
    /// Builds the camera for the given eye position, target, up vector,
    /// vertical field of view (radians), aspect ratio, aperture and
    /// focus distance.
    pub fn new(
        lookfrom: Vec3,
        lookat: Vec3,
        vup: Vec3,
        vfov: Fx,
        aspect_ratio: Fx,
        aperture: Fx,
        focus_dist: Fx,
    ) -> (r: Camera)
        requires
            vec_bounded(lookfrom, POS_LIMIT as int),
            vec_bounded(lookat, POS_LIMIT as int),
            vec_bounded(vup, POS_LIMIT as int),
            0 <= vfov.raw <= 2 * SCALE as int,
            0 <= aspect_ratio.raw <= 16 * SCALE as int,
            0 <= aperture.raw <= 2 * SCALE as int,
            0 <= focus_dist.raw <= 0x400_0000,
        ensures
            r == camera_spec(lookfrom, lookat, vup, vfov, aspect_ratio, aperture, focus_dist),
    {
        let h = tan_half(vfov);
        let viewport_height = Fx { raw: 2 * h.raw };
        proof {
            lemma_tmul_bound(aspect_ratio.raw as int, viewport_height.raw as int, 1048576int,
                270000int);
        }
        let viewport_width = aspect_ratio.mul(viewport_height);
        let w = lookfrom.sub(lookat).normalize();
        proof {
            lemma_tmul_bound(vup.y.raw as int, w.z.raw as int, 0x4000_0000, 131072int);
            lemma_tmul_bound(vup.z.raw as int, w.y.raw as int, 0x4000_0000, 131072int);
            lemma_tmul_bound(vup.z.raw as int, w.x.raw as int, 0x4000_0000, 131072int);
            lemma_tmul_bound(vup.x.raw as int, w.z.raw as int, 0x4000_0000, 131072int);
            lemma_tmul_bound(vup.x.raw as int, w.y.raw as int, 0x4000_0000, 131072int);
            lemma_tmul_bound(vup.y.raw as int, w.x.raw as int, 0x4000_0000, 131072int);
        }
        let u = vup.cross(w).normalize();
        let v = w.cross(u);
        proof {
            assert(abs_i(viewport_width.raw as int) <= 4320000);
            lemma_tmul_bound(viewport_width.raw as int, focus_dist.raw as int, 4320000int,
                0x400_0000);
            lemma_tmul_bound(viewport_height.raw as int, focus_dist.raw as int, 270000int,
                0x400_0000);
        }
        let hs = viewport_width.mul(focus_dist);
        let vs = viewport_height.mul(focus_dist);
        proof {
            assert(abs_i(hs.raw as int) <= 4423680000int);
            assert(abs_i(vs.raw as int) <= 276480000int);
            assert(vec_bounded(v, 0x80_0000)) by {
                lemma_tmul_bound(w.y.raw as int, u.z.raw as int, 131072int, 131072int);
                lemma_tmul_bound(w.z.raw as int, u.y.raw as int, 131072int, 131072int);
                lemma_tmul_bound(w.z.raw as int, u.x.raw as int, 131072int, 131072int);
                lemma_tmul_bound(w.x.raw as int, u.z.raw as int, 131072int, 131072int);
                lemma_tmul_bound(w.x.raw as int, u.y.raw as int, 131072int, 131072int);
                lemma_tmul_bound(w.y.raw as int, u.x.raw as int, 131072int, 131072int);
            }
            lemma_tmul_bound(u.x.raw as int, hs.raw as int, 131072int, 4423680000int);
            lemma_tmul_bound(u.y.raw as int, hs.raw as int, 131072int, 4423680000int);
            lemma_tmul_bound(u.z.raw as int, hs.raw as int, 131072int, 4423680000int);
            lemma_tmul_bound(v.x.raw as int, vs.raw as int, 0x80_0000, 276480000int);
            lemma_tmul_bound(v.y.raw as int, vs.raw as int, 0x80_0000, 276480000int);
            lemma_tmul_bound(v.z.raw as int, vs.raw as int, 0x80_0000, 276480000int);
        }
        let horizontal = u.scale(hs);
        let vertical = v.scale(vs);
        proof {
            let hb = 8847360000int;
            assert(vec_bounded(horizontal, hb));
            lemma_tmul_bound(horizontal.x.raw as int, 32768, hb, 32768int);
            lemma_tmul_bound(horizontal.y.raw as int, 32768, hb, 32768int);
            lemma_tmul_bound(horizontal.z.raw as int, 32768, hb, 32768int);
            let vb = 35389440000int;
            assert(vec_bounded(vertical, vb));
            lemma_tmul_bound(vertical.x.raw as int, 32768, vb, 32768int);
            lemma_tmul_bound(vertical.y.raw as int, 32768, vb, 32768int);
            lemma_tmul_bound(vertical.z.raw as int, 32768, vb, 32768int);
            lemma_tmul_bound(w.x.raw as int, focus_dist.raw as int, 131072int, 0x400_0000);
            lemma_tmul_bound(w.y.raw as int, focus_dist.raw as int, 131072int, 0x400_0000);
            lemma_tmul_bound(w.z.raw as int, focus_dist.raw as int, 131072int, 0x400_0000);
        }
        let half = Fx { raw: 32768 };
        let lower_left = lookfrom.sub(horizontal.scale(half)).sub(vertical.scale(half)).sub(
            w.scale(focus_dist),
        );
        Camera {
            origin: lookfrom,
            lower_left_corner: lower_left,
            horizontal,
            vertical,
            u,
            v,
            w,
            lens_radius: aperture.div_int(2),
        }
    }

    /// True exactly where the derived values lie in the ranges the ray
    /// builder accepts; a renderer checks this once per camera.
    pub fn is_valid(&self) -> (r: bool)
        ensures
            r == camera_wf(*self),
    {
        self.origin.check_bounded(0x400_0000) && self.lower_left_corner.check_bounded(0x400_0000)
            && self.horizontal.check_bounded(0x100_0000) && self.vertical.check_bounded(0x100_0000)
            && self.u.check_bounded(0x8_0000) && self.v.check_bounded(0x8_0000)
            && self.lens_radius.raw >= 0 && self.lens_radius.raw <= SCALE
    }

    /// Builds the primary ray for normalized image coordinates
    /// `(s_c, t_c)`, jittering the origin within the lens disk.
    #[verifier::rlimit(60)]
    pub fn get_ray(&self, s_c: Fx, t_c: Fx, rng: &mut DefaultRng) -> (r: Ray)
        requires
            camera_wf(*self),
            0 <= s_c.raw <= 2 * SCALE as int,
            0 <= t_c.raw <= 2 * SCALE as int,
        ensures
            r == get_ray_spec(*self, s_c, t_c, old(rng).state).0,
            final (rng).state == get_ray_spec(*self, s_c, t_c, old(rng).state).1,
            vec_bounded(r.origin, POS_LIMIT as int),
            vec_bounded(r.direction, SCATTER_DIR_LIMIT as int),
    {
        let d = random_in_unit_disk(rng);
        proof {
            lemma_tmul_bound(d.x.raw as int, self.lens_radius.raw as int, 65536int, 65536int);
            lemma_tmul_bound(d.y.raw as int, self.lens_radius.raw as int, 65536int, 65536int);
            lemma_tmul_bound(d.z.raw as int, self.lens_radius.raw as int, 65536int, 65536int);
        }
        let rd = d.scale(self.lens_radius);
        proof {
            lemma_tmul_bound(self.u.x.raw as int, rd.x.raw as int, 0x8_0000, 65536int);
            lemma_tmul_bound(self.u.y.raw as int, rd.x.raw as int, 0x8_0000, 65536int);
            lemma_tmul_bound(self.u.z.raw as int, rd.x.raw as int, 0x8_0000, 65536int);
            lemma_tmul_bound(self.v.x.raw as int, rd.y.raw as int, 0x8_0000, 65536int);
            lemma_tmul_bound(self.v.y.raw as int, rd.y.raw as int, 0x8_0000, 65536int);
            lemma_tmul_bound(self.v.z.raw as int, rd.y.raw as int, 0x8_0000, 65536int);
        }
        let offset = self.u.scale(rd.x).add(self.v.scale(rd.y));
        let origin = self.origin.add(offset);
        proof {
            lemma_tmul_bound(self.horizontal.x.raw as int, s_c.raw as int, 0x100_0000, 131072int);
            lemma_tmul_bound(self.horizontal.y.raw as int, s_c.raw as int, 0x100_0000, 131072int);
            lemma_tmul_bound(self.horizontal.z.raw as int, s_c.raw as int, 0x100_0000, 131072int);
            lemma_tmul_bound(self.vertical.x.raw as int, t_c.raw as int, 0x100_0000, 131072int);
            lemma_tmul_bound(self.vertical.y.raw as int, t_c.raw as int, 0x100_0000, 131072int);
            lemma_tmul_bound(self.vertical.z.raw as int, t_c.raw as int, 0x100_0000, 131072int);
        }
        let dir = self.lower_left_corner.add(self.horizontal.scale(s_c)).add(
            self.vertical.scale(t_c),
        ).sub(self.origin).sub(offset);
        Ray { origin, direction: dir }
    }
}

} // verus!
