//! Exact fixed-point scalars.
//!
//! Every quantity in this crate is a real number carried as a signed count of
//! micro-units: the value `v` is stored as the integer `v * 1_000_000`,
//! truncated toward zero. All arithmetic on these scalars is exact integer
//! arithmetic, so every operation here carries a full functional contract.
//!
//! Equality between scalars is never exact comparison: two scalars are
//! considered equal when they differ by less than `EPS` micro-units
//! (the tolerance 0.00001). The `ApproxEq` trait carries that policy.

use vstd::prelude::*;

verus! {

/// Micro-units per whole unit: the stored integer is the value times `SCALE`.
pub const SCALE: i64 = 1_000_000;

/// Tolerance of approximate equality, in micro-units: 10 micro-units is 0.00001.
pub const EPS: i64 = 10;

/// A real number held exactly as a count of micro-units.
#[derive(Clone, Copy, Debug, PartialEq, Eq, Structural)]
pub struct Fixed {
    pub units: i64,
}

/// Whether the mathematical integer `n` fits the machine word that holds a scalar.
pub open spec fn fits_i64(n: int) -> bool {
    i64::MIN <= n <= i64::MAX
}

/// Quotient of `n` by `d`, truncated toward zero, as machine division rounds.
pub open spec fn div_trunc(n: int, d: int) -> int
    recommends
        d != 0,
{
    if n >= 0 {
        if d > 0 {
            n / d
        } else {
            -(n / -d)
        }
    } else {
        if d > 0 {
            -((-n) / d)
        } else {
            (-n) / (-d)
        }
    }
}

/// Product of two scalars in micro-units: the exact product, rescaled.
pub open spec fn mul_units(a: int, b: int) -> int {
    div_trunc(a * b, SCALE as int)
}

/// Quotient of two scalars in micro-units: the dividend is raised back to scale.
pub open spec fn div_units(a: int, b: int) -> int
    recommends
        b != 0,
{
    div_trunc(a * (SCALE as int), b)
}

/// The equality policy on scalar values: within `EPS` micro-units of each other.
pub open spec fn approx(a: int, b: int) -> bool {
    -(EPS as int) < a - b && a - b < EPS as int
}

/// Tolerance-based equality, the only notion of equality the crate's values use.
pub trait ApproxEq: Sized {
    /// What it means for two values of the type to be approximately equal.
    spec fn approx_spec(self, other: Self) -> bool;

    /// Decides approximate equality, exactly as `approx_spec` states it.
    fn xeq(self, other: Self) -> (r: bool)
        ensures
            r == self.approx_spec(other),
    ;
}

impl ApproxEq for Fixed {
    open spec fn approx_spec(self, other: Self) -> bool {
        approx(self.units as int, other.units as int)
    }

    fn xeq(self, other: Self) -> (r: bool) {
        let d: i128 = (self.units as i128) - (other.units as i128);
        -(EPS as i128) < d && d < EPS as i128
    }
}

/// The approximate-equality policy is reflexive and symmetric, and it tells
/// values apart once they differ by at least twice the tolerance: a value is
/// never approximately equal to itself shifted by `2 * EPS`.
pub proof fn lemma_approx_policy(a: int, b: int)
    ensures
        approx(a, a),
        approx(a, b) == approx(b, a),
        !approx(a, a + 2 * EPS),
{
}

impl Fixed {
    /// The scalar holding exactly `units` micro-units.
    pub fn from_units(units: i64) -> (r: Fixed)
        ensures
            r.units == units,
    {
        Fixed { units }
    }

    /// The scalar zero.
    pub fn zero() -> (r: Fixed)
        ensures
            r.units == 0,
    {
        Fixed { units: 0 }
    }

    /// The scalar one, a whole `SCALE` of micro-units.
    pub fn one() -> (r: Fixed)
        ensures
            r.units == SCALE,
    {
        Fixed { units: SCALE }
    }

    /// Exact sum.
    pub fn add(self, other: Fixed) -> (r: Fixed)
        requires
            fits_i64(self.units + other.units),
        ensures
            r.units == self.units + other.units,
    {
        Fixed { units: self.units + other.units }
    }

    /// Exact difference.
    pub fn sub(self, other: Fixed) -> (r: Fixed)
        requires
            fits_i64(self.units - other.units),
        ensures
            r.units == self.units - other.units,
    {
        Fixed { units: self.units - other.units }
    }

    /// Exact negation.
    pub fn neg(self) -> (r: Fixed)
        requires
            self.units != i64::MIN,
        ensures
            r.units == -self.units,
    {
        Fixed { units: -self.units }
    }

    /// Product, truncated toward zero to micro-unit precision.
    pub fn mul(self, other: Fixed) -> (r: Fixed)
        requires
            fits_i64(mul_units(self.units as int, other.units as int)),
        ensures
            r.units == mul_units(self.units as int, other.units as int),
    {
        proof {
            lemma_i64_product_fits(self.units as int, other.units as int);
        }
        let p: i128 = (self.units as i128) * (other.units as i128);
        let q: i128 = p / (SCALE as i128);
        Fixed { units: q as i64 }
    }

    /// Quotient, truncated toward zero to micro-unit precision.
    /// The caller keeps the divisor away from zero. The machine divides
    /// magnitudes, so the quotient truncates toward zero for either sign.
    pub fn div(self, other: Fixed) -> (r: Fixed)
        requires
            other.units != 0,
            fits_i64(div_units(self.units as int, other.units as int)),
        ensures
            r.units == div_units(self.units as int, other.units as int),
    {
        let negative: bool = (self.units < 0) != (other.units < 0);
        let ma: u128 = abs_u128(self.units);
        proof {
            assert(ma * (SCALE as u128) <= 0x8000_0000_0000_0000u128 * 1_000_000) by (nonlinear_arith)
                requires
                    ma <= 0x8000_0000_0000_0000,
                    SCALE == 1_000_000,
            ;
        }
        let na: u128 = ma * (SCALE as u128);
        let nb: u128 = abs_u128(other.units);
        let q: u128 = na / nb;
        proof {
            assert(q <= na) by (nonlinear_arith)
                requires
                    nb >= 1,
                    q == na / nb,
            ;
        }
        let signed: i128 = if negative {
            -(q as i128)
        } else {
            q as i128
        };
        proof {
            let a = self.units as int;
            let b = other.units as int;
            let s = SCALE as int;
            assert(na == abs_int(a * s) && ((a * s >= 0) == (a >= 0))) by (nonlinear_arith)
                requires
                    na == abs_int(a) * s,
                    s > 0,
            ;
            assert(signed == div_trunc(a * s, b));
        }
        Fixed { units: signed as i64 }
    }
}

/// Scaling is the same whichever side the scalar stands on.
pub proof fn lemma_mul_units_commutative(a: int, b: int)
    ensures
        mul_units(a, b) == mul_units(b, a),
{
    assert(a * b == b * a) by (nonlinear_arith);
}

/// The integer square root: the largest `r` with `r * r <= n`.
pub open spec fn isqrt(n: nat) -> nat
    decreases n,
{
    if n == 0 {
        0
    } else {
        let p = isqrt((n - 1) as nat);
        if (p + 1) * (p + 1) <= n {
            p + 1
        } else {
            p
        }
    }
}

/// `isqrt(n)` is the unique integer whose square brackets `n`.
pub proof fn lemma_isqrt_bounds(n: nat)
    ensures
        isqrt(n) * isqrt(n) <= n,
        n < (isqrt(n) + 1) * (isqrt(n) + 1),
    decreases n,
{
    if n == 0 {
        assert(isqrt(0) == 0);
        assert(n < (isqrt(n) + 1) * (isqrt(n) + 1)) by (nonlinear_arith)
            requires
                n == 0,
                isqrt(n) == 0,
        ;
    } else {
        lemma_isqrt_bounds((n - 1) as nat);
        let p = isqrt((n - 1) as nat);
        if (p + 1) * (p + 1) <= n {
            assert(isqrt(n) == p + 1);
            assert(n - 1 < (p + 1) * (p + 1));
            assert((p + 2) * (p + 2) > (p + 1) * (p + 1)) by (nonlinear_arith)
                requires
                    p >= 0,
            ;
            assert(n < (p + 2) * (p + 2));
            assert(n < (isqrt(n) + 1) * (isqrt(n) + 1));
        } else {
            assert(isqrt(n) == p);
            assert(p * p <= n - 1);
            assert(n < (isqrt(n) + 1) * (isqrt(n) + 1));
        }
    }
}

/// Any integer whose square brackets `n` is `isqrt(n)`.
pub proof fn lemma_isqrt_unique(n: nat, r: nat)
    requires
        r * r <= n,
        n < (r + 1) * (r + 1),
    ensures
        r == isqrt(n),
{
    lemma_isqrt_bounds(n);
    let s = isqrt(n);
    if r < s {
        assert(s * s >= (r + 1) * (r + 1)) by (nonlinear_arith)
            requires
                s >= r + 1,
                r >= 0,
        ;
    }
    if s < r {
        assert(r * r >= (s + 1) * (s + 1)) by (nonlinear_arith)
            requires
                r >= s + 1,
                s >= 0,
        ;
    }
}

/// Computes the integer square root by bisection.
pub fn isqrt_u128(n: u128) -> (r: u64)
    ensures
        r as nat == isqrt(n as nat),
{
    let mut lo: u128 = 0;
    let mut hi: u128 = 0x1_0000_0000_0000_0000;
    proof {
        assert((hi as int) * (hi as int) > n);
    }
    while hi - lo > 1
        invariant
            lo < hi <= 0x1_0000_0000_0000_0000,
            (lo as int) * (lo as int) <= n,
            n < (hi as int) * (hi as int),
        decreases hi - lo,
    {
        let mid: u128 = lo + (hi - lo) / 2;
        proof {
            assert(mid * mid <= 0xffff_ffff_ffff_ffffu128 * 0xffff_ffff_ffff_ffffu128)
                by (nonlinear_arith)
                requires
                    mid <= 0xffff_ffff_ffff_ffff,
            ;
        }
        if mid * mid <= n {
            lo = mid;
        } else {
            hi = mid;
        }
    }
    proof {
        lemma_isqrt_unique(n as nat, lo as nat);
    }
    lo as u64
}

/// The magnitude of `n`, as a mathematical integer.
pub open spec fn abs_int(n: int) -> int {
    if n >= 0 {
        n
    } else {
        -n
    }
}

/// The magnitude of a scalar's unit count, widened so every value has one.
pub fn abs_u128(n: i64) -> (r: u128)
    ensures
        r == abs_int(n as int),
        r <= 0x8000_0000_0000_0000,
{
    if n >= 0 {
        n as u128
    } else {
        (-(n as i128)) as u128
    }
}

/// A product of two word-sized integers fits the double-width word.
pub proof fn lemma_i64_product_fits(a: int, b: int)
    requires
        i64::MIN <= a <= i64::MAX,
        i64::MIN <= b <= i64::MAX,
    ensures
        i128::MIN < a * b <= 0x8000_0000_0000_0000 * 0x8000_0000_0000_0000,
        a * b < i128::MAX,
{
    assert(-0x8000_0000_0000_0000 * 0x8000_0000_0000_0000 <= a * b <= 0x8000_0000_0000_0000
        * 0x8000_0000_0000_0000) by (nonlinear_arith)
        requires
            -0x8000_0000_0000_0000 <= a <= 0x7fff_ffff_ffff_ffff,
            -0x8000_0000_0000_0000 <= b <= 0x7fff_ffff_ffff_ffff,
    ;
}

} // verus!
