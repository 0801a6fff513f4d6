//! Three-component fixed-point vectors: points, directions and colors.
//!
//! Every operation has a functional contract over the raw representations,
//! so vector expressions are pure functions of their operands.  Operands
//! are required to stay inside a generous coordinate range
//! (`COORD_LIMIT`, about four million units) so that no intermediate
//! product can overflow the 64-bit representation.

use vstd::prelude::*;
use crate::fixed::{Fx, SCALE, abs_i, tdiv, tmul, fxdiv, fxsqrt, fx_fits, sqrt_floor,
    lemma_sqrt_floor, lemma_tmul_bound, lemma_tdiv_bound};

verus! {

/// Largest raw component magnitude the vector routines accept
/// (2^38, about 4.2 million length units).
pub const COORD_LIMIT: i64 = 0x40_0000_0000;

/// A vector or color with Q16.16 components.
#[derive(Clone, Copy, PartialEq, Eq, Structural, Debug)]
pub struct Vec3 {
    pub x: Fx,
    pub y: Fx,
    pub z: Fx,
}

/// Shorthand: the fixed-point value with the given raw representation.
pub open spec fn fx(raw: int) -> Fx {
    Fx { raw: raw as i64 }
}

/// All three components have magnitude at most `m`.
pub open spec fn vec_bounded(v: Vec3, m: int) -> bool {
    &&& abs_i(v.x.raw as int) <= m
    &&& abs_i(v.y.raw as int) <= m
    &&& abs_i(v.z.raw as int) <= m
}

/// Raw value of the dot product.
pub open spec fn dot_spec(a: Vec3, b: Vec3) -> int {
    tmul(a.x.raw as int, b.x.raw as int) + tmul(a.y.raw as int, b.y.raw as int) + tmul(
        a.z.raw as int,
        b.z.raw as int,
    )
}

/// Componentwise sum.
pub open spec fn addv_spec(a: Vec3, b: Vec3) -> Vec3 {
    Vec3 { x: fx(a.x.raw + b.x.raw), y: fx(a.y.raw + b.y.raw), z: fx(a.z.raw + b.z.raw) }
}

/// Componentwise difference.
pub open spec fn subv_spec(a: Vec3, b: Vec3) -> Vec3 {
    Vec3 { x: fx(a.x.raw - b.x.raw), y: fx(a.y.raw - b.y.raw), z: fx(a.z.raw - b.z.raw) }
}

/// Componentwise negation.
pub open spec fn negv_spec(a: Vec3) -> Vec3 {
    Vec3 { x: fx(-(a.x.raw as int)), y: fx(-(a.y.raw as int)), z: fx(-(a.z.raw as int)) }
}

/// Every component scaled by `s`.
pub open spec fn scale_spec(a: Vec3, s: Fx) -> Vec3 {
    Vec3 {
        x: fx(tmul(a.x.raw as int, s.raw as int)),
        y: fx(tmul(a.y.raw as int, s.raw as int)),
        z: fx(tmul(a.z.raw as int, s.raw as int)),
    }
}

/// Componentwise product (used for color attenuation).
pub open spec fn mulv_spec(a: Vec3, b: Vec3) -> Vec3 {
    Vec3 {
        x: fx(tmul(a.x.raw as int, b.x.raw as int)),
        y: fx(tmul(a.y.raw as int, b.y.raw as int)),
        z: fx(tmul(a.z.raw as int, b.z.raw as int)),
    }
}

/// Cross product.
pub open spec fn cross_spec(a: Vec3, b: Vec3) -> Vec3 {
    Vec3 {
        x: fx(tmul(a.y.raw as int, b.z.raw as int) - tmul(a.z.raw as int, b.y.raw as int)),
        y: fx(tmul(a.z.raw as int, b.x.raw as int) - tmul(a.x.raw as int, b.z.raw as int)),
        z: fx(tmul(a.x.raw as int, b.y.raw as int) - tmul(a.y.raw as int, b.x.raw as int)),
    }
}

/// The unit vector along `v`, or `v` itself where the squared length
/// rounds to zero (the caller treats such vectors as degenerate).
pub open spec fn normalize_spec(v: Vec3) -> Vec3 {
    let ls = dot_spec(v, v);
    if ls == 0 {
        v
    } else {
        let len = sqrt_floor((ls * (SCALE as int)) as nat) as int;
        Vec3 {
            x: fx(fxdiv(v.x.raw as int, len)),
            y: fx(fxdiv(v.y.raw as int, len)),
            z: fx(fxdiv(v.z.raw as int, len)),
        }
    }
}

/// Linear interpolation `a + (b - a) * t`, componentwise.
pub open spec fn lerp_spec(a: Vec3, b: Vec3, t: Fx) -> Vec3 {
    addv_spec(a, scale_spec(subv_spec(b, a), t))
}

/// A fixed-point square is nonnegative.
pub proof fn lemma_sq_nonneg(a: int)
    ensures
        tmul(a, a) >= 0,
        tmul(a, a) * (SCALE as int) <= a * a,
        tmul(a, a) * (SCALE as int) >= a * a - 65535,
{
    assert(a * a >= 0) by (nonlinear_arith);
    let p = a * a;
    assert(tdiv(p, 65536) == p / 65536);
    assert(p / 65536 >= 0 && (p / 65536) * 65536 <= p && (p / 65536) * 65536 >= p - 65535)
        by (nonlinear_arith)
        requires p >= 0;
}

/// The dot product of two bounded vectors is bounded: each term is at most
/// `m * m / SCALE`, so the sum is at most `3 * m * m / SCALE`.
pub proof fn lemma_dot_bound(a: Vec3, b: Vec3, m: int)
    requires
        vec_bounded(a, m),
        vec_bounded(b, m),
        0 <= m,
    ensures
        abs_i(dot_spec(a, b)) * (SCALE as int) <= 3 * m * m,
{
    lemma_tmul_bound(a.x.raw as int, b.x.raw as int, m, m);
    lemma_tmul_bound(a.y.raw as int, b.y.raw as int, m, m);
    lemma_tmul_bound(a.z.raw as int, b.z.raw as int, m, m);
    let t1 = tmul(a.x.raw as int, b.x.raw as int);
    let t2 = tmul(a.y.raw as int, b.y.raw as int);
    let t3 = tmul(a.z.raw as int, b.z.raw as int);
    assert(abs_i(t1 + t2 + t3) * 65536 <= 3 * m * m) by (nonlinear_arith)
        requires
            abs_i(t1) * 65536 <= m * m,
            abs_i(t2) * 65536 <= m * m,
            abs_i(t3) * 65536 <= m * m,
            abs_i(t1 + t2 + t3) <= abs_i(t1) + abs_i(t2) + abs_i(t3),
    ;
}

/// A vector whose squared length is exactly one normalizes to itself.
pub proof fn lemma_normalize_unit(v: Vec3)
    requires
        dot_spec(v, v) == SCALE,
    ensures
        normalize_spec(v) == v,
{
    assert(65536 * 65536int == 0x1_0000_0000int) by (nonlinear_arith);
    assert((65536 + 1) * (65536 + 1int) > 0x1_0000_0000int) by (nonlinear_arith);
    crate::fixed::lemma_sqrt_floor_unique(0x1_0000_0000 as nat, 65536 as nat);
    assert(sqrt_floor(((SCALE as int) * (SCALE as int)) as nat) == 65536) by {
        assert((SCALE as int) * (SCALE as int) == 0x1_0000_0000int) by (nonlinear_arith);
    }
    crate::fixed::lemma_fxdiv_one(v.x.raw as int);
    crate::fixed::lemma_fxdiv_one(v.y.raw as int);
    crate::fixed::lemma_fxdiv_one(v.z.raw as int);
}

impl Vec3 {
    /// The vector with the given components.
    pub fn new(x: Fx, y: Fx, z: Fx) -> (r: Vec3)
        ensures
            r == (Vec3 { x, y, z }),
    {
        Vec3 { x, y, z }
    }

    /// The zero vector.
    pub fn zero() -> (r: Vec3)
        ensures
            r == (Vec3 { x: Fx { raw: 0 }, y: Fx { raw: 0 }, z: Fx { raw: 0 } }),
    {
        Vec3 { x: Fx { raw: 0 }, y: Fx { raw: 0 }, z: Fx { raw: 0 } }
    }

    /// Sum.
    pub fn add(self, o: Vec3) -> (r: Vec3)
        requires
            fx_fits(self.x.raw + o.x.raw),
            fx_fits(self.y.raw + o.y.raw),
            fx_fits(self.z.raw + o.z.raw),
        ensures
            r == addv_spec(self, o),
    {
        Vec3 {
            x: Fx { raw: self.x.raw + o.x.raw },
            y: Fx { raw: self.y.raw + o.y.raw },
            z: Fx { raw: self.z.raw + o.z.raw },
        }
    }

    /// Difference.
    pub fn sub(self, o: Vec3) -> (r: Vec3)
        requires
            fx_fits(self.x.raw - o.x.raw),
            fx_fits(self.y.raw - o.y.raw),
            fx_fits(self.z.raw - o.z.raw),
        ensures
            r == subv_spec(self, o),
    {
        Vec3 {
            x: Fx { raw: self.x.raw - o.x.raw },
            y: Fx { raw: self.y.raw - o.y.raw },
            z: Fx { raw: self.z.raw - o.z.raw },
        }
    }

    /// Negation.
    pub fn neg(self) -> (r: Vec3)
        requires
            self.x.raw > i64::MIN,
            self.y.raw > i64::MIN,
            self.z.raw > i64::MIN,
        ensures
            r == negv_spec(self),
    {
        Vec3 {
            x: Fx { raw: -self.x.raw },
            y: Fx { raw: -self.y.raw },
            z: Fx { raw: -self.z.raw },
        }
    }

    /// Every component scaled by `s`.
    pub fn scale(self, s: Fx) -> (r: Vec3)
        requires
            vec_bounded(self, COORD_LIMIT as int),
            abs_i(s.raw as int) <= COORD_LIMIT as int,
        ensures
            r == scale_spec(self, s),
    {
        proof {
            lemma_tmul_bound(self.x.raw as int, s.raw as int, COORD_LIMIT as int,
                COORD_LIMIT as int);
            lemma_tmul_bound(self.y.raw as int, s.raw as int, COORD_LIMIT as int,
                COORD_LIMIT as int);
            lemma_tmul_bound(self.z.raw as int, s.raw as int, COORD_LIMIT as int,
                COORD_LIMIT as int);
        }
        Vec3 { x: self.x.mul(s), y: self.y.mul(s), z: self.z.mul(s) }
    }

    /// Componentwise product.
    pub fn mul(self, o: Vec3) -> (r: Vec3)
        requires
            vec_bounded(self, COORD_LIMIT as int),
            vec_bounded(o, COORD_LIMIT as int),
        ensures
            r == mulv_spec(self, o),
    {
        proof {
            lemma_tmul_bound(self.x.raw as int, o.x.raw as int, COORD_LIMIT as int,
                COORD_LIMIT as int);
            lemma_tmul_bound(self.y.raw as int, o.y.raw as int, COORD_LIMIT as int,
                COORD_LIMIT as int);
            lemma_tmul_bound(self.z.raw as int, o.z.raw as int, COORD_LIMIT as int,
                COORD_LIMIT as int);
        }
        Vec3 { x: self.x.mul(o.x), y: self.y.mul(o.y), z: self.z.mul(o.z) }
    }

    /// Dot product.
    pub fn dot(self, o: Vec3) -> (r: Fx)
        requires
            vec_bounded(self, COORD_LIMIT as int),
            vec_bounded(o, COORD_LIMIT as int),
        ensures
            r.raw == dot_spec(self, o),
    {
        proof {
            lemma_tmul_bound(self.x.raw as int, o.x.raw as int, COORD_LIMIT as int,
                COORD_LIMIT as int);
            lemma_tmul_bound(self.y.raw as int, o.y.raw as int, COORD_LIMIT as int,
                COORD_LIMIT as int);
            lemma_tmul_bound(self.z.raw as int, o.z.raw as int, COORD_LIMIT as int,
                COORD_LIMIT as int);
        }
        let mx = self.x.mul(o.x);
        let my = self.y.mul(o.y);
        let mz = self.z.mul(o.z);
        Fx { raw: mx.raw + my.raw + mz.raw }
    }

    /// Cross product.
    pub fn cross(self, o: Vec3) -> (r: Vec3)
        requires
            vec_bounded(self, COORD_LIMIT as int),
            vec_bounded(o, COORD_LIMIT as int),
        ensures
            r == cross_spec(self, o),
    {
        proof {
            lemma_tmul_bound(self.y.raw as int, o.z.raw as int, COORD_LIMIT as int,
                COORD_LIMIT as int);
            lemma_tmul_bound(self.z.raw as int, o.y.raw as int, COORD_LIMIT as int,
                COORD_LIMIT as int);
            lemma_tmul_bound(self.z.raw as int, o.x.raw as int, COORD_LIMIT as int,
                COORD_LIMIT as int);
            lemma_tmul_bound(self.x.raw as int, o.z.raw as int, COORD_LIMIT as int,
                COORD_LIMIT as int);
            lemma_tmul_bound(self.x.raw as int, o.y.raw as int, COORD_LIMIT as int,
                COORD_LIMIT as int);
            lemma_tmul_bound(self.y.raw as int, o.x.raw as int, COORD_LIMIT as int,
                COORD_LIMIT as int);
        }
        Vec3 {
            x: Fx { raw: self.y.mul(o.z).raw - self.z.mul(o.y).raw },
            y: Fx { raw: self.z.mul(o.x).raw - self.x.mul(o.z).raw },
            z: Fx { raw: self.x.mul(o.y).raw - self.y.mul(o.x).raw },
        }
    }

    /// Squared length.
    pub fn length_squared(self) -> (r: Fx)
        requires
            vec_bounded(self, COORD_LIMIT as int),
        ensures
            r.raw == dot_spec(self, self),
            r.raw >= 0,
    {
        proof {
            lemma_sq_nonneg(self.x.raw as int);
            lemma_sq_nonneg(self.y.raw as int);
            lemma_sq_nonneg(self.z.raw as int);
        }
        self.dot(self)
    }

    /// Length, rounded down to the representation.
    pub fn length(self) -> (r: Fx)
        requires
            vec_bounded(self, COORD_LIMIT as int),
        ensures
            r.raw == fxsqrt(dot_spec(self, self)),
            r.raw >= 0,
    {
        self.length_squared().sqrt()
    }

    /// All components are exactly zero.  With sixteen fractional bits any
    /// nonzero component is at least `2^-16`, which already exceeds the
    /// epsilon of the degenerate-direction guard, so "near zero" collapses
    /// to "zero".
    pub fn near_zero(self) -> (r: bool)
        ensures
            r == (self.x.raw == 0 && self.y.raw == 0 && self.z.raw == 0),
    {
        self.x.raw == 0 && self.y.raw == 0 && self.z.raw == 0
    }

    /// The unit vector along `self`.  The result's components never exceed
    /// two length units, whatever the input.
    pub fn normalize(self) -> (r: Vec3)
        requires
            vec_bounded(self, COORD_LIMIT as int),
        ensures
            r == normalize_spec(self),
            vec_bounded(r, 2 * SCALE as int),
    {
        let ls = self.length_squared();
        if ls.raw == 0 {
            proof {
                lemma_sq_nonneg(self.x.raw as int);
                lemma_sq_nonneg(self.y.raw as int);
                lemma_sq_nonneg(self.z.raw as int);
                assert(abs_i(self.x.raw as int) <= 2 * SCALE as int) by (nonlinear_arith)
                    requires
                        tmul(self.x.raw as int, self.x.raw as int) == 0,
                        tmul(self.x.raw as int, self.x.raw as int) * 65536 >= (self.x.raw as int)
                            * (self.x.raw as int) - 65535,
                ;
                assert(abs_i(self.y.raw as int) <= 2 * SCALE as int) by (nonlinear_arith)
                    requires
                        tmul(self.y.raw as int, self.y.raw as int) == 0,
                        tmul(self.y.raw as int, self.y.raw as int) * 65536 >= (self.y.raw as int)
                            * (self.y.raw as int) - 65535,
                ;
                assert(abs_i(self.z.raw as int) <= 2 * SCALE as int) by (nonlinear_arith)
                    requires
                        tmul(self.z.raw as int, self.z.raw as int) == 0,
                        tmul(self.z.raw as int, self.z.raw as int) * 65536 >= (self.z.raw as int)
                            * (self.z.raw as int) - 65535,
                ;
            }
            self
        } else {
            let len = ls.sqrt();
            proof {
                let lsr = ls.raw as int;
                let n = (lsr * 65536) as nat;
                lemma_sqrt_floor(n);
                let l = len.raw as int;
                assert(l >= 256) by (nonlinear_arith)
                    requires
                        (l + 1) * (l + 1) > n,
                        n >= 65536,
                        l >= 0,
                ;
                lemma_norm_component(self.x.raw as int, self.y.raw as int, self.z.raw as int, l);
                lemma_norm_component(self.y.raw as int, self.x.raw as int, self.z.raw as int, l);
                lemma_norm_component(self.z.raw as int, self.x.raw as int, self.y.raw as int, l);
            }
            Vec3 { x: self.x.div(len), y: self.y.div(len), z: self.z.div(len) }
        }
    }

    /// True exactly where every component's magnitude is at most `m`.
    pub fn check_bounded(self, m: i64) -> (r: bool)
        requires
            m >= 0,
        ensures
            r == vec_bounded(self, m as int),
    {
        self.x.raw >= -m && self.x.raw <= m && self.y.raw >= -m && self.y.raw <= m && self.z.raw
            >= -m && self.z.raw <= m
    }

    /// Linear interpolation toward `o` by `t`.
    pub fn lerp(self, o: Vec3, t: Fx) -> (r: Vec3)
        requires
            vec_bounded(self, (COORD_LIMIT / 2) as int),
            vec_bounded(o, (COORD_LIMIT / 2) as int),
            abs_i(t.raw as int) <= COORD_LIMIT as int,
        ensures
            r == lerp_spec(self, o, t),
    {
        let d = o.sub(self);
        proof {
            lemma_tmul_bound(d.x.raw as int, t.raw as int, COORD_LIMIT as int, COORD_LIMIT as int);
            lemma_tmul_bound(d.y.raw as int, t.raw as int, COORD_LIMIT as int, COORD_LIMIT as int);
            lemma_tmul_bound(d.z.raw as int, t.raw as int, COORD_LIMIT as int, COORD_LIMIT as int);
        }
        self.add(d.scale(t))
    }
}

/// Core estimate behind the bound on normalized components: a component
/// whose square contributes to the squared length cannot exceed twice the
/// rounded-down length, so dividing it by the length stays below two.
proof fn lemma_norm_component(x: int, y: int, z: int, l: int)
    requires
        l >= 256,
        (l + 1) * (l + 1) > (tmul(x, x) + tmul(y, y) + tmul(z, z)) * 65536,
        tmul(x, x) + tmul(y, y) + tmul(z, z) >= 1,
    ensures
        abs_i(fxdiv(x, l)) <= 2 * (SCALE as int),
        fx_fits(fxdiv(x, l)),
{
    lemma_sq_nonneg(x);
    lemma_sq_nonneg(y);
    lemma_sq_nonneg(z);
    assert((l + 1) * (l + 1) > x * x - 65535) by (nonlinear_arith)
        requires
            (l + 1) * (l + 1) > (tmul(x, x) + tmul(y, y) + tmul(z, z)) * 65536,
            tmul(y, y) >= 0,
            tmul(z, z) >= 0,
            tmul(x, x) * 65536 >= x * x - 65535,
    ;
    assert(abs_i(x) <= 2 * l) by (nonlinear_arith)
        requires
            l >= 256,
            (l + 1) * (l + 1) > x * x - 65535,
    ;
    assert(abs_i(x * 65536) <= (2 * 65536) * l) by (nonlinear_arith)
        requires
            abs_i(x) <= 2 * l,
            l >= 256,
    ;
    lemma_tdiv_bound(x * 65536, l, (2 * 65536) as int);
}

} // verus!
