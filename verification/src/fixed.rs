//! Q16.16 fixed-point scalars.
//!
//! A real number `v` is represented by the integer `raw == v * 65536`,
//! rounded toward zero.  Multiplication, division and square root are
//! specified exactly, as truncating integer operations, so everything that
//! is built on them is a pure function of its arguments.

use vstd::prelude::*;

verus! {

/// Scale of the representation: `raw` counts units of `1 / SCALE`.
pub const SCALE: i64 = 65536;

/// Magnitude of a mathematical integer.
pub open spec fn abs_i(a: int) -> int {
    if a >= 0 {
        a
    } else {
        -a
    }
}

/// Division rounding toward zero (the rounding of the hardware `/` on
/// signed integers), defined for `b != 0`.
pub open spec fn tdiv(a: int, b: int) -> int {
    if (a >= 0) == (b >= 0) {
        abs_i(a) / abs_i(b)
    } else {
        -(abs_i(a) / abs_i(b))
    }
}

/// Product of two raw fixed-point values, scaled back down: the raw value
/// of the fixed-point product.
pub open spec fn tmul(a: int, b: int) -> int {
    tdiv(a * b, SCALE as int)
}

/// Raw value of the fixed-point quotient `a / b`.
pub open spec fn fxdiv(a: int, b: int) -> int {
    tdiv(a * (SCALE as int), b)
}

/// Floor of the square root of a natural number.
pub open spec fn sqrt_floor(n: nat) -> nat
    decreases n,
{
    if n == 0 {
        0
    } else {
        let r = 2 * sqrt_floor((n / 4) as nat);
        if (r + 1) * (r + 1) <= n {
            r + 1
        } else {
            r
        }
    }
}

/// Raw value of the fixed-point square root of the raw value `a >= 0`:
/// `floor(sqrt(v) * SCALE)` for the represented value `v`.
pub open spec fn fxsqrt(a: int) -> int {
    sqrt_floor((a * (SCALE as int)) as nat) as int
}

/// The raw value fits the 64-bit representation.
pub open spec fn fx_fits(v: int) -> bool {
    i64::MIN <= v <= i64::MAX
}

/// `sqrt_floor` is what its name says.
pub proof fn lemma_sqrt_floor(n: nat)
    ensures
        sqrt_floor(n) * sqrt_floor(n) <= n,
        n < (sqrt_floor(n) + 1) * (sqrt_floor(n) + 1),
    decreases n,
{
    if n == 0 {
        assert(sqrt_floor(n) == 0);
        assert(sqrt_floor(n) * sqrt_floor(n) <= n) by (nonlinear_arith)
            requires sqrt_floor(n) == 0 && n == 0;
        assert(n < (sqrt_floor(n) + 1) * (sqrt_floor(n) + 1)) by (nonlinear_arith)
            requires sqrt_floor(n) == 0 && n == 0;
    } else {
        let m = (n / 4) as nat;
        lemma_sqrt_floor(m);
        let s = sqrt_floor(m);
        let r = 2 * s;
        assert(4 * m <= n && n < 4 * m + 4) by (nonlinear_arith)
            requires m == n / 4 && n > 0;
        assert(r * r <= n) by (nonlinear_arith)
            requires s * s <= m && 4 * m <= n && r == 2 * s;
        assert(n < (r + 2) * (r + 2)) by (nonlinear_arith)
            requires m < (s + 1) * (s + 1) && n < 4 * m + 4 && r == 2 * s;
        if (r + 1) * (r + 1) <= n {
            assert(sqrt_floor(n) == r + 1);
            assert(sqrt_floor(n) * sqrt_floor(n) <= n) by (nonlinear_arith)
                requires sqrt_floor(n) == r + 1 && (r + 1) * (r + 1) <= n;
            assert(n < (sqrt_floor(n) + 1) * (sqrt_floor(n) + 1)) by (nonlinear_arith)
                requires sqrt_floor(n) == r + 1 && n < (r + 2) * (r + 2);
        } else {
            assert(sqrt_floor(n) == r);
            assert(sqrt_floor(n) * sqrt_floor(n) <= n) by (nonlinear_arith)
                requires sqrt_floor(n) == r && r * r <= n;
            assert(n < (sqrt_floor(n) + 1) * (sqrt_floor(n) + 1)) by (nonlinear_arith)
                requires sqrt_floor(n) == r && !((r + 1) * (r + 1) <= n);
        }
    }
}

/// Any integer whose square brackets `n` the way `sqrt_floor(n)` does is
/// `sqrt_floor(n)`.
pub proof fn lemma_sqrt_floor_unique(n: nat, r: nat)
    requires
        r * r <= n,
        n < (r + 1) * (r + 1),
    ensures
        r == sqrt_floor(n),
{
    lemma_sqrt_floor(n);
    let s = sqrt_floor(n);
    assert(r == s) by (nonlinear_arith)
        requires
            r * r <= n && n < (r + 1) * (r + 1) && s * s <= n && n < (s + 1) * (s + 1);
}

/// A Q16.16 fixed-point number; the represented value is `raw / 65536`.
#[derive(Clone, Copy, PartialEq, Eq, Structural, Debug)]
pub struct Fx {
    pub raw: i64,
}

/// Truncating division of 128-bit integers, via unsigned magnitudes.
pub(crate) fn i128_tdiv(p: i128, d: i128) -> (q: i128)
    requires
        d != 0,
        p != i128::MIN,
        d != i128::MIN,
    ensures
        q == tdiv(p as int, d as int),
{
    let pm: u128 = if p >= 0 {
        p as u128
    } else {
        (-p) as u128
    };
    let dm: u128 = if d >= 0 {
        d as u128
    } else {
        (-d) as u128
    };
    let qm: u128 = pm / dm;
    assert(qm <= pm);
    let qi: i128 = qm as i128;
    if (p >= 0) == (d >= 0) {
        qi
    } else {
        -qi
    }
}

/// Floor of the square root, by bisection.
pub(crate) fn isqrt_u128(n: u128) -> (r: u128)
    ensures
        r == sqrt_floor(n as nat),
{
    let mut lo: u128 = 0;
    let mut hi: u128 = 0x1_0000_0000_0000_0000;
    proof {
        assert((0x1_0000_0000_0000_0000 as int) * 0x1_0000_0000_0000_0000 > n as int)
            by (nonlinear_arith)
            requires n <= u128::MAX;
    }
    while lo + 1 < hi
        invariant
            lo < hi <= 0x1_0000_0000_0000_0000,
            lo * lo <= n,
            (n as int) < (hi as int) * (hi as int),
        decreases hi - lo,
    {
        let mid = lo + (hi - lo) / 2;
        proof {
            assert((mid as int) * (mid as int) < 0x1_0000_0000_0000_0000_0000_0000_0000_0000)
                by (nonlinear_arith)
                requires mid < 0x1_0000_0000_0000_0000;
        }
        if mid * mid <= n {
            lo = mid;
        } else {
            hi = mid;
        }
    }
    proof {
        lemma_sqrt_floor_unique(n as nat, lo as nat);
    }
    lo
}

impl Fx {
    /// The value zero.
    pub fn zero() -> (r: Fx)
        ensures
            r.raw == 0,
    {
        Fx { raw: 0 }
    }

    /// The value one.
    pub fn one() -> (r: Fx)
        ensures
            r.raw == SCALE,
    {
        Fx { raw: SCALE }
    }

    /// A value given directly by its raw representation.
    pub fn from_raw(raw: i64) -> (r: Fx)
        ensures
            r.raw == raw,
    {
        Fx { raw }
    }

    /// The fixed-point image of a small integer.
    pub fn from_int(v: i32) -> (r: Fx)
        ensures
            r.raw == v * SCALE,
    {
        Fx { raw: (v as i64) * SCALE }
    }

    /// Sum.
    pub fn add(self, o: Fx) -> (r: Fx)
        requires
            fx_fits(self.raw + o.raw),
        ensures
            r.raw == self.raw + o.raw,
    {
        Fx { raw: self.raw + o.raw }
    }

    /// Difference.
    pub fn sub(self, o: Fx) -> (r: Fx)
        requires
            fx_fits(self.raw - o.raw),
        ensures
            r.raw == self.raw - o.raw,
    {
        Fx { raw: self.raw - o.raw }
    }

    /// Negation.
    pub fn neg(self) -> (r: Fx)
        requires
            self.raw > i64::MIN,
        ensures
            r.raw == -self.raw,
    {
        Fx { raw: -self.raw }
    }

    /// Magnitude.
    pub fn abs(self) -> (r: Fx)
        requires
            self.raw > i64::MIN,
        ensures
            r.raw == abs_i(self.raw as int),
    {
        if self.raw >= 0 {
            self
        } else {
            Fx { raw: -self.raw }
        }
    }

    /// The smaller of two values.
    pub fn min(self, o: Fx) -> (r: Fx)
        ensures
            r.raw == if self.raw <= o.raw {
                self.raw
            } else {
                o.raw
            },
    {
        if self.raw <= o.raw {
            self
        } else {
            o
        }
    }

    /// Truncating fixed-point product.
    pub fn mul(self, o: Fx) -> (r: Fx)
        requires
            fx_fits(tmul(self.raw as int, o.raw as int)),
        ensures
            r.raw == tmul(self.raw as int, o.raw as int),
    {
        proof {
            let a = self.raw as int;
            let b = o.raw as int;
            assert(-0x4000_0000_0000_0000_0000_0000_0000_0000 <= a * b
                <= 0x4000_0000_0000_0000_0000_0000_0000_0000) by (nonlinear_arith)
                requires
                    -0x8000_0000_0000_0000 <= a <= 0x7fff_ffff_ffff_ffff,
                    -0x8000_0000_0000_0000 <= b <= 0x7fff_ffff_ffff_ffff,
            ;
        }
        let p: i128 = (self.raw as i128) * (o.raw as i128);
        let q: i128 = i128_tdiv(p, 65536);
        Fx { raw: q as i64 }
    }

    /// Truncating fixed-point quotient.
    pub fn div(self, o: Fx) -> (r: Fx)
        requires
            o.raw != 0,
            fx_fits(fxdiv(self.raw as int, o.raw as int)),
        ensures
            r.raw == fxdiv(self.raw as int, o.raw as int),
    {
        let p: i128 = (self.raw as i128) * 65536;
        let q: i128 = i128_tdiv(p, o.raw as i128);
        Fx { raw: q as i64 }
    }

    /// Division by a small positive integer (not a fixed-point value),
    /// rounding toward zero.
    pub fn div_int(self, k: i64) -> (r: Fx)
        requires
            k > 0,
        ensures
            r.raw == tdiv(self.raw as int, k as int),
            abs_i(r.raw as int) <= abs_i(self.raw as int),
    {
        proof {
            assert(abs_i(self.raw as int) <= abs_i(self.raw as int) * (k as int))
                by (nonlinear_arith)
                requires k >= 1 && abs_i(self.raw as int) >= 0;
            lemma_tdiv_bound(self.raw as int, k as int, abs_i(self.raw as int));
        }
        let q = i128_tdiv(self.raw as i128, k as i128);
        Fx { raw: q as i64 }
    }

    /// Fixed-point square root of a nonnegative value, rounded down.
    pub fn sqrt(self) -> (r: Fx)
        requires
            self.raw >= 0,
        ensures
            r.raw == fxsqrt(self.raw as int),
            r.raw >= 0,
    {
        let n: u128 = (self.raw as u128) * 65536;
        let s: u128 = isqrt_u128(n);
        proof {
            lemma_sqrt_floor(n as nat);
            assert((s as int) <= 0xff_ffff_ffff) by (nonlinear_arith)
                requires
                    (s as int) * (s as int) <= n as int && n <= 0x8000_0000_0000_0000_0000 && s
                        >= 0;
        }
        Fx { raw: s as i64 }
    }
}

/// Truncating toward zero never grows the magnitude of the exact quotient.
pub proof fn lemma_tdiv_bound(a: int, b: int, m: int)
    requires
        b > 0,
        abs_i(a) <= m * b,
        m >= 0,
    ensures
        abs_i(tdiv(a, b)) <= m,
{
    assert(abs_i(a) / b <= m) by (nonlinear_arith)
        requires b > 0 && abs_i(a) <= m * b && m >= 0 && abs_i(a) >= 0;
}

/// A fixed-point product of nonnegative values is nonnegative and never
/// exceeds the exact scaled product.
pub proof fn lemma_tmul_nonneg(a: int, b: int)
    requires
        a >= 0,
        b >= 0,
    ensures
        tmul(a, b) >= 0,
        tmul(a, b) * (SCALE as int) <= a * b,
{
    assert(a * b >= 0) by (nonlinear_arith)
        requires a >= 0 && b >= 0;
    let p = a * b;
    assert(tdiv(p, 65536) == p / 65536);
    assert(p / 65536 >= 0 && (p / 65536) * 65536 <= p) by (nonlinear_arith)
        requires p >= 0;
}

/// Multiplying by one is exact.
pub proof fn lemma_tmul_one(a: int)
    ensures
        tmul(a, 65536) == a,
{
    if a >= 0 {
        assert(a * 65536 >= 0 && abs_i(a * 65536) == a * 65536) by (nonlinear_arith)
            requires a >= 0;
        assert((a * 65536) / 65536 == a) by (nonlinear_arith)
            requires a >= 0;
    } else {
        assert(a * 65536 < 0 && abs_i(a * 65536) == (-a) * 65536) by (nonlinear_arith)
            requires a < 0;
        assert(((-a) * 65536) / 65536 == -a) by (nonlinear_arith)
            requires a < 0;
    }
}

/// Multiplying by minus one is exact negation.
pub proof fn lemma_tmul_neg_one(a: int)
    ensures
        tmul(a, -65536) == -a,
{
    if a >= 0 {
        assert(a * (-65536) <= 0 && abs_i(a * (-65536)) == a * 65536) by (nonlinear_arith)
            requires a >= 0;
        assert((a * 65536) / 65536 == a) by (nonlinear_arith)
            requires a >= 0;
        if a == 0 {
            assert(tmul(0, -65536) == tdiv(0 * (-65536), 65536));
            assert(0 * (-65536) == 0) by (nonlinear_arith);
        }
    } else {
        assert(a * (-65536) > 0 && abs_i(a * (-65536)) == (-a) * 65536) by (nonlinear_arith)
            requires a < 0;
        assert(((-a) * 65536) / 65536 == -a) by (nonlinear_arith)
            requires a < 0;
    }
}

/// Dividing by one is exact.
pub proof fn lemma_fxdiv_one(a: int)
    ensures
        fxdiv(a, 65536) == a,
{
    lemma_tmul_one(a);
}

/// Bound on a fixed-point product from bounds on its factors.
pub proof fn lemma_tmul_bound(a: int, b: int, ma: int, mb: int)
    requires
        abs_i(a) <= ma,
        abs_i(b) <= mb,
        0 <= ma,
        0 <= mb,
    ensures
        abs_i(tmul(a, b)) * (SCALE as int) <= ma * mb,
        abs_i(tmul(a, b)) <= ma * mb,
{
    assert(abs_i(a * b) <= ma * mb) by (nonlinear_arith)
        requires abs_i(a) <= ma && abs_i(b) <= mb && 0 <= ma && 0 <= mb;
    assert(abs_i(tdiv(a * b, 65536)) * 65536 <= abs_i(a * b)) by (nonlinear_arith)
        requires abs_i(a * b) >= 0;
    assert(abs_i(tmul(a, b)) * (SCALE as int) <= ma * mb);
    assert(abs_i(tmul(a, b)) <= abs_i(tmul(a, b)) * 65536) by (nonlinear_arith)
        requires abs_i(tmul(a, b)) >= 0;
}

} // verus!
