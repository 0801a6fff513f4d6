//! The closed material model: Lambertian diffuse, metal with roughness,
//! and dielectric with Schlick reflectance, dispatched over a tagged
//! table entry.

use vstd::prelude::*;
use crate::bool32::Bool32;
use crate::fixed::{Fx, SCALE, abs_i, tdiv, tmul, fxdiv, fxsqrt, sqrt_floor, lemma_tmul_bound,
    lemma_tdiv_bound};
use crate::vec3::{Vec3, vec_bounded, fx, dot_spec, addv_spec, subv_spec, negv_spec,
    scale_spec, normalize_spec, lemma_dot_bound, lemma_sq_nonneg};
use crate::ray::{Ray, RayPayload};
use crate::rng::{DefaultRng, SAMPLE_FUEL, sphere_sample, next_state, unit_draw,
    random_in_unit_sphere};

verus! {

/// Largest raw component magnitude of a scattered direction
/// (2^28; the dielectric chain stays well below this).
pub const SCATTER_DIR_LIMIT: i64 = 0x1000_0000;

/// Largest raw component magnitude accepted for hit positions
/// (2^30, about 16000 length units).
pub const POS_LIMIT: i64 = 0x4000_0000;

/// What a scatter event produces: a color attenuation and the outgoing
/// ray.
#[derive(Clone, Copy, PartialEq, Eq, Structural, Debug)]
pub struct Scatter {
    pub color: Vec3,
    pub ray: Ray,
}

/// Mirror-reflection of `v` about the normal `n`: `v - 2 (v.n) n`.
pub open spec fn reflect_spec(v: Vec3, n: Vec3) -> Vec3 {
    subv_spec(v, scale_spec(n, fx(2 * dot_spec(v, n))))
}

/// Reflects `v` about `n`.  Both are expected to be near unit length
/// (components within two units), as the scatter routines provide.
pub fn reflect(v: Vec3, n: Vec3) -> (r: Vec3)
    requires
        vec_bounded(v, 2 * SCALE as int),
        vec_bounded(n, 2 * SCALE as int),
    ensures
        r == reflect_spec(v, n),
        vec_bounded(r, 0x40_0000),
{
    proof {
        lemma_dot_bound(v, n, 131072int);
        assert(abs_i(dot_spec(v, n)) <= 786432);
    }
    let d = v.dot(n);
    let two_d = Fx { raw: 2 * d.raw };
    proof {
        lemma_tmul_bound(n.x.raw as int, two_d.raw as int, 131072int, 1572864int);
        lemma_tmul_bound(n.y.raw as int, two_d.raw as int, 131072int, 1572864int);
        lemma_tmul_bound(n.z.raw as int, two_d.raw as int, 131072int, 1572864int);
    }
    let s = n.scale(two_d);
    v.sub(s)
}

/// Snell refraction of the unit direction `uv` at the normal `n` with
/// refraction ratio `ratio`, written in vector form: the perpendicular
/// part is `ratio (uv + cos n)`, the parallel part closes the length.
pub open spec fn refract_spec(uv: Vec3, n: Vec3, ratio: Fx) -> Vec3 {
    let c0 = dot_spec(negv_spec(uv), n);
    let cos = if c0 <= SCALE {
        c0
    } else {
        SCALE as int
    };
    let perp = scale_spec(addv_spec(uv, scale_spec(n, fx(cos))), ratio);
    let k = SCALE - dot_spec(perp, perp);
    let par = scale_spec(n, fx(-fxsqrt(abs_i(k))));
    addv_spec(perp, par)
}

/// Refracts `uv` at `n`.  The refraction ratio is a positive index ratio
/// of at most sixteen.
pub fn refract(uv: Vec3, n: Vec3, etai_over_etat: Fx) -> (r: Vec3)
    requires
        vec_bounded(uv, 2 * SCALE as int),
        vec_bounded(n, 2 * SCALE as int),
        0 <= etai_over_etat.raw <= 16 * SCALE as int,
    ensures
        r == refract_spec(uv, n, etai_over_etat),
        vec_bounded(r, SCATTER_DIR_LIMIT as int),
{
    let mu = uv.neg();
    proof {
        assert(dot_spec(mu, n) == dot_spec(negv_spec(uv), n));
        lemma_dot_bound(mu, n, 131072int);
    }
    let c0 = mu.dot(n);
    let cos = c0.min(Fx { raw: SCALE });
    proof {
        assert(abs_i(dot_spec(mu, n)) <= 786432);
        lemma_tmul_bound(n.x.raw as int, cos.raw as int, 131072int, 786432int);
        lemma_tmul_bound(n.y.raw as int, cos.raw as int, 131072int, 786432int);
        lemma_tmul_bound(n.z.raw as int, cos.raw as int, 131072int, 786432int);
    }
    let cn = n.scale(cos);
    let inner = uv.add(cn);
    proof {
        lemma_tmul_bound(inner.x.raw as int, etai_over_etat.raw as int, 1703936int, 1048576int);
        lemma_tmul_bound(inner.y.raw as int, etai_over_etat.raw as int, 1703936int, 1048576int);
        lemma_tmul_bound(inner.z.raw as int, etai_over_etat.raw as int, 1703936int, 1048576int);
    }
    let perp = inner.scale(etai_over_etat);
    proof {
        lemma_dot_bound(perp, perp, 27262976int);
    }
    let k = Fx { raw: SCALE - perp.length_squared().raw };
    let ka = if k.raw >= 0 {
        k
    } else {
        Fx { raw: -k.raw }
    };
    proof {
        assert(abs_i(dot_spec(perp, perp)) <= 34024194048);
        assert(abs_i(ka.raw as int) <= 34024259584);
    }
    let sq = ka.sqrt();
    proof {
        crate::fixed::lemma_sqrt_floor((ka.raw * 65536) as nat);
        assert((sq.raw as int) * (sq.raw as int) <= (ka.raw as int) * 65536);
        assert(sq.raw <= 67108864) by (nonlinear_arith)
            requires
                (sq.raw as int) * (sq.raw as int) <= (ka.raw as int) * 65536,
                ka.raw as int <= 34024259584,
                sq.raw >= 0,
        ;
        lemma_tmul_bound(n.x.raw as int, -(sq.raw as int), 131072int, 67108864int);
        lemma_tmul_bound(n.y.raw as int, -(sq.raw as int), 131072int, 67108864int);
        lemma_tmul_bound(n.z.raw as int, -(sq.raw as int), 131072int, 67108864int);
    }
    let par = n.scale(Fx { raw: -sq.raw });
    perp.add(par)
}

/// Schlick's approximation of Fresnel reflectance: the raw value of
/// `r0 + (1 - r0) (1 - cos)^5` with `r0 = ((1 - idx) / (1 + idx))^2`,
/// with the fifth power associated as `((x^2)^2) x`.
pub open spec fn reflectance_spec(cosine: Fx, ref_idx: Fx) -> int {
    let r0 = fxdiv(SCALE - ref_idx.raw, SCALE + ref_idx.raw);
    let r0sq = tmul(r0, r0);
    let x = SCALE - cosine.raw;
    let x2 = tmul(x, x);
    let x4 = tmul(x2, x2);
    let x5 = tmul(x4, x);
    r0sq + tmul(SCALE - r0sq, x5)
}

/// Schlick reflectance used by the dielectric to choose between
/// reflection and refraction.
pub fn reflectance(cosine: Fx, ref_idx: Fx) -> (r: Fx)
    requires
        0 <= ref_idx.raw <= 16 * SCALE as int,
        -16 * SCALE as int <= cosine.raw <= SCALE,
    ensures
        r.raw == reflectance_spec(cosine, ref_idx),
        r.raw >= 0,
{
    let denom = Fx { raw: SCALE + ref_idx.raw };
    let num = Fx { raw: SCALE - ref_idx.raw };
    proof {
        assert(abs_i(num.raw as int) <= denom.raw);
        assert(abs_i((num.raw as int) * 65536) <= 65536 * (denom.raw as int)) by (nonlinear_arith)
            requires abs_i(num.raw as int) <= denom.raw as int && denom.raw as int > 0;
        lemma_tdiv_bound((num.raw as int) * 65536, denom.raw as int, 65536);
    }
    let r0 = num.div(denom);
    proof {
        lemma_sq_nonneg(r0.raw as int);
        lemma_tmul_bound(r0.raw as int, r0.raw as int, 65536int, 65536int);
    }
    let r0sq = r0.mul(r0);
    let x = Fx { raw: SCALE - cosine.raw };
    proof {
        lemma_sq_nonneg(x.raw as int);
        lemma_tmul_bound(x.raw as int, x.raw as int, 1114112int, 1114112int);
    }
    let x2 = x.mul(x);
    proof {
        lemma_sq_nonneg(x2.raw as int);
        assert(abs_i(x2.raw as int) <= 19000000);
        lemma_tmul_bound(x2.raw as int, x2.raw as int, 19000000int, 19000000int);
    }
    let x4 = x2.mul(x2);
    proof {
        assert(abs_i(x4.raw as int) <= 6000000000);
        lemma_tmul_bound(x4.raw as int, x.raw as int, 6000000000int, 1114112int);
        crate::fixed::lemma_tmul_nonneg(x4.raw as int, x.raw as int);
    }
    let x5 = x4.mul(x);
    proof {
        assert(abs_i(x5.raw as int) <= 103000000000);
        lemma_tmul_bound((SCALE - r0sq.raw) as int, x5.raw as int, 65536int, 103000000000int);
        crate::fixed::lemma_tmul_nonneg((SCALE - r0sq.raw) as int, x5.raw as int);
    }
    let tail = Fx { raw: SCALE - r0sq.raw }.mul(x5);
    Fx { raw: r0sq.raw + tail.raw }
}

/// One entry of the material table: a four-scalar payload interpreted
/// according to the discriminant `t`: albedo and fuzz for `t < 2`
/// (Lambertian and metal), refractive index in the first slot for the
/// dielectric (`t >= 2`).
#[derive(Clone, Copy, PartialEq, Eq, Structural, Debug)]
pub struct EnumMaterial {
    pub v0: Vec3,
    pub v0w: Fx,
    pub t: u32,
}

/// Payload validity: albedo components and fuzz are fractions in
/// `[0, 1]`; a refractive index lies in `[1, 16]`.
pub open spec fn material_wf(m: EnumMaterial) -> bool {
    if m.t >= 2 {
        SCALE <= m.v0.x.raw <= 16 * (SCALE as int)
    } else {
        &&& 0 <= m.v0.x.raw <= SCALE
        &&& 0 <= m.v0.y.raw <= SCALE
        &&& 0 <= m.v0.z.raw <= SCALE
        &&& 0 <= m.v0w.raw <= SCALE
    }
}

/// All components of an attenuation color are fractions in `[0, 1]`.
pub open spec fn color_in_unit(c: Vec3) -> bool {
    &&& 0 <= c.x.raw <= SCALE
    &&& 0 <= c.y.raw <= SCALE
    &&& 0 <= c.z.raw <= SCALE
}

/// The diffuse bounce: the outgoing direction is the surface normal plus
/// a random unit vector, falling back to the normal itself when the sum
/// cancels to zero; the attenuation is the albedo, and the path always
/// continues.
pub open spec fn lambertian_scatter_spec(m: EnumMaterial, hit: RayPayload, s: u32) -> (
    Scatter,
    u32,
) {
    let (sv, s1) = sphere_sample(s, SAMPLE_FUEL as nat);
    let u = normalize_spec(sv);
    let d0 = addv_spec(hit.normal, u);
    let dir = if d0.x.raw == 0 && d0.y.raw == 0 && d0.z.raw == 0 {
        hit.normal
    } else {
        d0
    };
    (Scatter { color: m.v0, ray: Ray { origin: hit.position, direction: dir } }, s1)
}

/// The perturbed mirror direction of the metal: the reflection of the
/// normalized incoming direction, fuzzed by a random in-sphere point
/// scaled by the roughness.
pub open spec fn metal_dir_spec(m: EnumMaterial, ray: Ray, hit: RayPayload, s: u32) -> Vec3 {
    let refl = reflect_spec(normalize_spec(ray.direction), hit.normal);
    let (sv, s1) = sphere_sample(s, SAMPLE_FUEL as nat);
    addv_spec(refl, scale_spec(sv, m.v0w))
}

/// The metal bounce: scatters with the albedo as attenuation where the
/// perturbed reflection still points away from the surface, absorbs
/// otherwise.
pub open spec fn metal_scatter_spec(m: EnumMaterial, ray: Ray, hit: RayPayload, s: u32) -> (
    Option<Scatter>,
    u32,
) {
    let dir = metal_dir_spec(m, ray, hit, s);
    let s1 = sphere_sample(s, SAMPLE_FUEL as nat).1;
    if dot_spec(dir, hit.normal) > 0 {
        (Some(Scatter { color: m.v0, ray: Ray { origin: hit.position, direction: dir } }), s1)
    } else {
        (None, s1)
    }
}

/// The dielectric bounce: chooses reflection where Snell's law has no
/// solution or a random draw falls below the Schlick reflectance, and
/// refraction otherwise; the attenuation is white and the path always
/// continues.  A negative squared sine (possible only for degenerate,
/// non-unit normals) is clamped to zero before the square root.
pub open spec fn dielectric_scatter_spec(m: EnumMaterial, ray: Ray, hit: RayPayload, s: u32) -> (
    Scatter,
    u32,
) {
    let ratio = if hit.front_face.0 == 1 {
        fx(fxdiv(SCALE as int, m.v0.x.raw as int))
    } else {
        m.v0.x
    };
    let unit = normalize_spec(ray.direction);
    let c0 = dot_spec(negv_spec(unit), hit.normal);
    let cos = if c0 <= SCALE {
        c0
    } else {
        SCALE as int
    };
    let sin2 = SCALE - tmul(cos, cos);
    let sin = fxsqrt(
        if sin2 >= 0 {
            sin2
        } else {
            0
        },
    );
    let cannot_refract = tmul(ratio.raw as int, sin) > SCALE;
    let schlick = reflectance_spec(fx(cos), ratio);
    let draw = unit_draw(s);
    let s1 = next_state(s);
    let dir = if cannot_refract || schlick > draw {
        reflect_spec(unit, hit.normal)
    } else {
        refract_spec(unit, hit.normal, ratio)
    };
    (
        Scatter {
            color: Vec3 { x: fx(SCALE as int), y: fx(SCALE as int), z: fx(SCALE as int) },
            ray: Ray { origin: hit.position, direction: dir },
        },
        s1,
    )
}

/// The polymorphic scatter operation: the discriminant selects which of
/// the three behaviors runs.
#[verifier::opaque]
pub open spec fn scatter_spec(m: EnumMaterial, ray: Ray, hit: RayPayload, s: u32) -> (
    Option<Scatter>,
    u32,
) {
    if m.t == 0 {
        let (sc, s1) = lambertian_scatter_spec(m, hit, s);
        (Some(sc), s1)
    } else if m.t == 1 {
        metal_scatter_spec(m, ray, hit, s)
    } else {
        let (sc, s1) = dielectric_scatter_spec(m, ray, hit, s);
        (Some(sc), s1)
    }
}

impl EnumMaterial {
    /// A diffuse entry with the given albedo.
    pub fn new_lambertian(albedo: Vec3) -> (r: EnumMaterial)
        requires
            color_in_unit(albedo),
        ensures
            r == (EnumMaterial { v0: albedo, v0w: Fx { raw: 0 }, t: 0 }),
            material_wf(r),
    {
        EnumMaterial { v0: albedo, v0w: Fx { raw: 0 }, t: 0 }
    }

    /// A metal entry with the given albedo and roughness.
    pub fn new_metal(albedo: Vec3, fuzz: Fx) -> (r: EnumMaterial)
        requires
            color_in_unit(albedo),
            0 <= fuzz.raw <= SCALE,
        ensures
            r == (EnumMaterial { v0: albedo, v0w: fuzz, t: 1 }),
            material_wf(r),
    {
        EnumMaterial { v0: albedo, v0w: fuzz, t: 1 }
    }

    /// A dielectric entry with the given refractive index.
    pub fn new_dielectric(ir: Fx) -> (r: EnumMaterial)
        requires
            SCALE <= ir.raw <= 16 * (SCALE as int),
        ensures
            r == (EnumMaterial {
                v0: Vec3 { x: ir, y: Fx { raw: 0 }, z: Fx { raw: 0 } },
                v0w: Fx { raw: 0 },
                t: 2,
            }),
            material_wf(r),
    {
        EnumMaterial { v0: Vec3 { x: ir, y: Fx { raw: 0 }, z: Fx { raw: 0 } }, v0w: Fx { raw: 0 }, t: 2 }
    }

    /// The albedo payload of a Lambertian or metal entry.
    pub fn albedo(&self) -> (r: Vec3)
        ensures
            r == self.v0,
    {
        self.v0
    }

    /// The roughness payload of a metal entry.
    pub fn fuzz(&self) -> (r: Fx)
        ensures
            r == self.v0w,
    {
        self.v0w
    }

    /// The refractive-index payload of a dielectric entry.
    pub fn ir(&self) -> (r: Fx)
        ensures
            r == self.v0.x,
    {
        self.v0.x
    }

    /// Produces the scatter result of this material for one hit, or
    /// absorption.  A Lambertian or dielectric entry always scatters; a
    /// metal entry absorbs exactly where the perturbed reflection does
    /// not point away from the surface.  Every attenuation component is
    /// a fraction in `[0, 1]`.
    pub fn scatter(&self, ray: &Ray, hit_record: &RayPayload, rng: &mut DefaultRng) -> (r: Option<
        Scatter,
    >)
        requires
            material_wf(*self),
            vec_bounded(hit_record.normal, 2 * (SCALE as int)),
            vec_bounded(hit_record.position, POS_LIMIT as int),
            vec_bounded(ray.direction, SCATTER_DIR_LIMIT as int),
        ensures
            r == scatter_spec(*self, *ray, *hit_record, old(rng).state).0,
            final (rng).state == scatter_spec(*self, *ray, *hit_record, old(rng).state).1,
            self.t == 0 ==> (r is Some),
            self.t >= 2 ==> (r is Some),
            self.t == 1 ==> ((r is Some) <==> dot_spec(
                metal_dir_spec(*self, *ray, *hit_record, old(rng).state),
                hit_record.normal,
            ) > 0),
            (r matches Some(sc) ==> color_in_unit(sc.color)),
            (r matches Some(sc) ==> sc.ray.origin == hit_record.position && vec_bounded(
                sc.ray.direction,
                SCATTER_DIR_LIMIT as int,
            )),
    {
        proof {
            reveal(scatter_spec);
        }
        match self.t {
            0 => {
                let sv = random_in_unit_sphere(rng);
                let u = sv.normalize();
                let d0 = hit_record.normal.add(u);
                let dir = if d0.near_zero() {
                    hit_record.normal
                } else {
                    d0
                };
                Some(
                    Scatter {
                        color: self.v0,
                        ray: Ray { origin: hit_record.position, direction: dir },
                    },
                )
            },
            1 => {
                let unit = ray.direction.normalize();
                let reflected = reflect(unit, hit_record.normal);
                let sv = random_in_unit_sphere(rng);
                proof {
                    lemma_tmul_bound(sv.x.raw as int, self.v0w.raw as int, 65536int, 65536int);
                    lemma_tmul_bound(sv.y.raw as int, self.v0w.raw as int, 65536int, 65536int);
                    lemma_tmul_bound(sv.z.raw as int, self.v0w.raw as int, 65536int, 65536int);
                }
                let fz = sv.scale(self.v0w);
                let dir = reflected.add(fz);
                let dn = dir.dot(hit_record.normal);
                if dn.raw > 0 {
                    Some(
                        Scatter {
                            color: self.v0,
                            ray: Ray { origin: hit_record.position, direction: dir },
                        },
                    )
                } else {
                    None
                }
            },
            _ => {
                let ir = self.v0.x;
                proof {
                    assert(abs_i((SCALE as int) * 65536) <= 65536 * (ir.raw as int));
                    lemma_tdiv_bound((SCALE as int) * 65536, ir.raw as int, 65536int);
                    assert(tdiv((SCALE as int) * 65536, ir.raw as int) >= 0) by (nonlinear_arith)
                        requires ir.raw >= 65536;
                }
                let ratio = if hit_record.front_face.as_bool() {
                    Fx { raw: SCALE }.div(ir)
                } else {
                    ir
                };
                let unit = ray.direction.normalize();
                let mu = unit.neg();
                proof {
                    assert(dot_spec(mu, hit_record.normal) == dot_spec(
                        negv_spec(unit),
                        hit_record.normal,
                    ));
                    lemma_dot_bound(mu, hit_record.normal, 131072int);
                    assert(abs_i(dot_spec(mu, hit_record.normal)) <= 786432);
                }
                let c0 = mu.dot(hit_record.normal);
                let cos = c0.min(Fx { raw: SCALE });
                proof {
                    lemma_sq_nonneg(cos.raw as int);
                    lemma_tmul_bound(cos.raw as int, cos.raw as int, 786432int, 786432int);
                }
                let cos2 = cos.mul(cos);
                let sin2 = Fx { raw: SCALE - cos2.raw };
                let sin2c = if sin2.raw >= 0 {
                    sin2
                } else {
                    Fx { raw: 0 }
                };
                let sin = sin2c.sqrt();
                proof {
                    crate::fixed::lemma_sqrt_floor((sin2c.raw * 65536) as nat);
                    assert(sin.raw <= 65536) by (nonlinear_arith)
                        requires
                            (sin.raw as int) * (sin.raw as int) <= (sin2c.raw as int) * 65536,
                            sin2c.raw as int <= 65536,
                            sin.raw >= 0,
                    ;
                    lemma_tmul_bound(ratio.raw as int, sin.raw as int, 1048576int, 65536int);
                }
                let rs = ratio.mul(sin);
                let cannot_refract = rs.raw > SCALE;
                let schlick = reflectance(cos, ratio);
                let draw = rng.next_fx();
                let choose_reflect = Bool32::new(cannot_refract).or(
                    Bool32::new(schlick.raw > draw.raw),
                ).as_bool();
                let dir = if choose_reflect {
                    reflect(unit, hit_record.normal)
                } else {
                    refract(unit, hit_record.normal, ratio)
                };
                Some(
                    Scatter {
                        color: Vec3 {
                            x: Fx { raw: SCALE },
                            y: Fx { raw: SCALE },
                            z: Fx { raw: SCALE },
                        },
                        ray: Ray { origin: hit_record.position, direction: dir },
                    },
                )
            },
        }
    }
}

/// A dielectric with refractive index one hands a normal-incidence ray
/// straight through: for an exactly unit normal `n` hit head on
/// (incoming direction `-n`, front face), the refraction ratio is one,
/// Snell's law reduces to the identity, and the scattered direction is
/// the incoming direction, exactly.
pub proof fn lemma_dielectric_identity(m: EnumMaterial, ray: Ray, hit: RayPayload, s: u32)
    requires
        m.t >= 2,
        m.v0.x.raw == SCALE,
        hit.front_face.0 == 1,
        dot_spec(hit.normal, hit.normal) == SCALE,
        vec_bounded(hit.normal, 2 * SCALE as int),
        ray.direction == negv_spec(hit.normal),
    ensures
        ({
            let res = scatter_spec(m, ray, hit, s);
            res.0 matches Some(sc) && sc.ray.direction == ray.direction
        }),
{
    reveal(scatter_spec);
    let n = hit.normal;
    let d = ray.direction;
    assert(d.x.raw == -n.x.raw && d.y.raw == -n.y.raw && d.z.raw == -n.z.raw);
    assert(dot_spec(d, d) == SCALE) by {
        assert((d.x.raw as int) * (d.x.raw as int) == (n.x.raw as int) * (n.x.raw as int))
            by (nonlinear_arith)
            requires d.x.raw as int == -(n.x.raw as int);
        assert((d.y.raw as int) * (d.y.raw as int) == (n.y.raw as int) * (n.y.raw as int))
            by (nonlinear_arith)
            requires d.y.raw as int == -(n.y.raw as int);
        assert((d.z.raw as int) * (d.z.raw as int) == (n.z.raw as int) * (n.z.raw as int))
            by (nonlinear_arith)
            requires d.z.raw as int == -(n.z.raw as int);
    }
    crate::vec3::lemma_normalize_unit(d);
    let unit = normalize_spec(d);
    assert(unit == d);
    assert(negv_spec(unit) == n);
    // the refraction ratio is exactly one
    assert((SCALE as int) * 65536 == 0x1_0000_0000int) by (nonlinear_arith);
    assert(abs_i((SCALE as int) * 65536) == 0x1_0000_0000int);
    assert(0x1_0000_0000int / 65536int == 65536int);
    assert(fxdiv(SCALE as int, m.v0.x.raw as int) == 65536);
    // head-on cosine is exactly one, so the sine term vanishes
    assert(dot_spec(negv_spec(unit), n) == SCALE);
    crate::fixed::lemma_tmul_one(65536int);
    assert(tmul(65536int, 65536int) == 65536);
    assert(sqrt_floor(0) == 0);
    // the Schlick reflectance at ratio one and cosine one is zero
    assert(reflectance_spec(fx(65536), fx(65536)) == 0) by {
        assert(fxdiv(SCALE - 65536, SCALE + 65536int) == 0) by {
            assert((0int) * 65536 == 0) by (nonlinear_arith);
            assert(abs_i(0int) / abs_i(SCALE + 65536int) == 0);
        }
        assert(tmul(0int, 0int) == 0) by {
            assert(0int * 0 == 0) by (nonlinear_arith);
        }
        assert(tmul(65536int - 0, 0int) == 0) by {
            assert(65536int * 0 == 0) by (nonlinear_arith);
        }
    }
    // no draw falls below zero, so the refraction branch is taken
    assert(unit_draw(s) >= 0);
    assert(tmul(65536int, 0int) == 0) by {
        assert(65536int * 0 == 0) by (nonlinear_arith);
    }
    // refraction at ratio one reproduces the incoming direction
    assert(refract_spec(unit, n, fx(65536)) == d) by {
        crate::fixed::lemma_tmul_one(n.x.raw as int);
        crate::fixed::lemma_tmul_one(n.y.raw as int);
        crate::fixed::lemma_tmul_one(n.z.raw as int);
        let cn = scale_spec(n, fx(65536));
        assert(cn == n);
        let inner = addv_spec(unit, cn);
        assert(inner == (Vec3 { x: fx(0), y: fx(0), z: fx(0) }));
        crate::fixed::lemma_tmul_one(0int);
        assert(tmul(0int, 65536int) == 0);
        let perp = scale_spec(inner, fx(65536));
        assert(perp == (Vec3 { x: fx(0), y: fx(0), z: fx(0) }));
        assert(dot_spec(perp, perp) == 0);
        assert((65536int) * 65536 == 0x1_0000_0000int) by (nonlinear_arith);
        assert((65536 + 1int) * (65536 + 1int) > 0x1_0000_0000int) by (nonlinear_arith);
        crate::fixed::lemma_sqrt_floor_unique(0x1_0000_0000 as nat, 65536 as nat);
        assert(fxsqrt(abs_i(SCALE - 0)) == 65536);
        crate::fixed::lemma_tmul_neg_one(n.x.raw as int);
        crate::fixed::lemma_tmul_neg_one(n.y.raw as int);
        crate::fixed::lemma_tmul_neg_one(n.z.raw as int);
        let par = scale_spec(n, fx(-65536));
        assert(par == d);
        assert(addv_spec(perp, par) == d);
    }
}

} // verus!
