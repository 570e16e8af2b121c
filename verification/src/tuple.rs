//! Four-component homogeneous tuples.
//!
//! A tuple with `w = 0` is a free vector, one with `w = 1` (that is,
//! `SCALE` micro-units) is a point. All four components take part in the
//! arithmetic uniformly; only the cross product insists on vectors.

use vstd::prelude::*;

use crate::fixed::ApproxEq;
use crate::fixed::Fixed;
use crate::fixed::SCALE;
use crate::fixed::abs_int;
use crate::fixed::approx;
use crate::fixed::div_trunc;
use crate::fixed::div_units;
use crate::fixed::fits_i64;
use crate::fixed::isqrt;
use crate::fixed::isqrt_u128;
use crate::fixed::lemma_i64_product_fits;
use crate::fixed::lemma_isqrt_bounds;
use crate::fixed::lemma_isqrt_unique;
use crate::fixed::mul_units;

verus! {

/// A point or vector in homogeneous coordinates.
#[derive(Clone, Copy, Debug)]
pub struct Tuple {
    pub x: Fixed,
    pub y: Fixed,
    pub z: Fixed,
    pub w: Fixed,
}

/// The cross product was asked of an operand that is not a vector.
#[derive(Clone, Copy, Debug, PartialEq, Eq, Structural)]
pub struct InvalidOperation;

/// The sum of the squares of all four components, in micro-units squared.
pub open spec fn sum_sq(t: Tuple) -> int {
    (t.x.units as int) * (t.x.units as int) + (t.y.units as int) * (t.y.units as int) + (
    t.z.units as int) * (t.z.units as int) + (t.w.units as int) * (t.w.units as int)
}

/// The first component of the cross product of `a` and `b`.
pub open spec fn cross_x(a: Tuple, b: Tuple) -> int {
    div_trunc(
        (a.y.units as int) * (b.z.units as int) - (a.z.units as int) * (b.y.units as int),
        SCALE as int,
    )
}

/// The second component of the cross product of `a` and `b`.
pub open spec fn cross_y(a: Tuple, b: Tuple) -> int {
    div_trunc(
        (a.z.units as int) * (b.x.units as int) - (a.x.units as int) * (b.z.units as int),
        SCALE as int,
    )
}

/// The third component of the cross product of `a` and `b`.
pub open spec fn cross_z(a: Tuple, b: Tuple) -> int {
    div_trunc(
        (a.x.units as int) * (b.y.units as int) - (a.y.units as int) * (b.x.units as int),
        SCALE as int,
    )
}

/// Whether both operands of a cross product count as vectors.
pub open spec fn both_vectors(a: Tuple, b: Tuple) -> bool {
    approx(a.w.units as int, 0) && approx(b.w.units as int, 0)
}

impl ApproxEq for Tuple {
    open spec fn approx_spec(self, other: Self) -> bool {
        self.x.approx_spec(other.x) && self.y.approx_spec(other.y) && self.z.approx_spec(other.z)
            && self.w.approx_spec(other.w)
    }

    fn xeq(self, other: Self) -> (r: bool) {
        self.x.xeq(other.x) && self.y.xeq(other.y) && self.z.xeq(other.z) && self.w.xeq(other.w)
    }
}

impl Tuple {
    /// Direct construction: any four scalars are accepted.
    pub fn new(x: Fixed, y: Fixed, z: Fixed, w: Fixed) -> (r: Tuple)
        ensures
            r.x == x && r.y == y && r.z == z && r.w == w,
    {
        Tuple { x, y, z, w }
    }

    /// A free vector: `w` is zero.
    pub fn vec(x: Fixed, y: Fixed, z: Fixed) -> (r: Tuple)
        ensures
            r.x == x && r.y == y && r.z == z,
            r.w.units == 0,
    {
        Tuple { x, y, z, w: Fixed::zero() }
    }

    /// A point: `w` is one.
    pub fn pnt(x: Fixed, y: Fixed, z: Fixed) -> (r: Tuple)
        ensures
            r.x == x && r.y == y && r.z == z,
            r.w.units == SCALE,
    {
        Tuple { x, y, z, w: Fixed::one() }
    }

    /// Component-wise sum.
    pub fn add(self, other: Tuple) -> (r: Tuple)
        requires
            fits_i64(self.x.units + other.x.units),
            fits_i64(self.y.units + other.y.units),
            fits_i64(self.z.units + other.z.units),
            fits_i64(self.w.units + other.w.units),
        ensures
            r.x.units == self.x.units + other.x.units,
            r.y.units == self.y.units + other.y.units,
            r.z.units == self.z.units + other.z.units,
            r.w.units == self.w.units + other.w.units,
    {
        Tuple {
            x: self.x.add(other.x),
            y: self.y.add(other.y),
            z: self.z.add(other.z),
            w: self.w.add(other.w),
        }
    }

    /// Component-wise difference.
    pub fn sub(self, other: Tuple) -> (r: Tuple)
        requires
            fits_i64(self.x.units - other.x.units),
            fits_i64(self.y.units - other.y.units),
            fits_i64(self.z.units - other.z.units),
            fits_i64(self.w.units - other.w.units),
        ensures
            r.x.units == self.x.units - other.x.units,
            r.y.units == self.y.units - other.y.units,
            r.z.units == self.z.units - other.z.units,
            r.w.units == self.w.units - other.w.units,
    {
        Tuple {
            x: self.x.sub(other.x),
            y: self.y.sub(other.y),
            z: self.z.sub(other.z),
            w: self.w.sub(other.w),
        }
    }

    /// Component-wise negation.
    pub fn neg(self) -> (r: Tuple)
        requires
            self.x.units != i64::MIN,
            self.y.units != i64::MIN,
            self.z.units != i64::MIN,
            self.w.units != i64::MIN,
        ensures
            r.x.units == -self.x.units,
            r.y.units == -self.y.units,
            r.z.units == -self.z.units,
            r.w.units == -self.w.units,
    {
        Tuple { x: self.x.neg(), y: self.y.neg(), z: self.z.neg(), w: self.w.neg() }
    }

    /// Multiplication by a scalar, the same whichever side the scalar stands on.
    pub fn scale(self, s: Fixed) -> (r: Tuple)
        requires
            fits_i64(mul_units(self.x.units as int, s.units as int)),
            fits_i64(mul_units(self.y.units as int, s.units as int)),
            fits_i64(mul_units(self.z.units as int, s.units as int)),
            fits_i64(mul_units(self.w.units as int, s.units as int)),
        ensures
            r.x.units == mul_units(self.x.units as int, s.units as int),
            r.y.units == mul_units(self.y.units as int, s.units as int),
            r.z.units == mul_units(self.z.units as int, s.units as int),
            r.w.units == mul_units(self.w.units as int, s.units as int),
    {
        Tuple { x: self.x.mul(s), y: self.y.mul(s), z: self.z.mul(s), w: self.w.mul(s) }
    }

    /// Division by a scalar. The caller keeps the scalar away from zero.
    pub fn div(self, s: Fixed) -> (r: Tuple)
        requires
            s.units != 0,
            fits_i64(div_units(self.x.units as int, s.units as int)),
            fits_i64(div_units(self.y.units as int, s.units as int)),
            fits_i64(div_units(self.z.units as int, s.units as int)),
            fits_i64(div_units(self.w.units as int, s.units as int)),
        ensures
            r.x.units == div_units(self.x.units as int, s.units as int),
            r.y.units == div_units(self.y.units as int, s.units as int),
            r.z.units == div_units(self.z.units as int, s.units as int),
            r.w.units == div_units(self.w.units as int, s.units as int),
    {
        Tuple { x: self.x.div(s), y: self.y.div(s), z: self.z.div(s), w: self.w.div(s) }
    }

    /// The Euclidean norm over all four components, truncated to micro-units.
    pub fn norm(&self) -> (r: Fixed)
        requires
            sum_sq(*self) <= u128::MAX,
            isqrt(sum_sq(*self) as nat) <= i64::MAX,
        ensures
            r.units >= 0,
            r.units as nat == isqrt(sum_sq(*self) as nat),
    {
        let sx = square_u128(self.x);
        let sy = square_u128(self.y);
        let sz = square_u128(self.z);
        let sw = square_u128(self.w);
        let total: u128 = sx + sy + sz + sw;
        let m: u64 = isqrt_u128(total);
        Fixed { units: m as i64 }
    }

    /// Scales the tuple to approximately unit length: each component is divided
    /// by the norm. The caller keeps the zero tuple out.
    pub fn normalize(&self) -> (r: Tuple)
        requires
            sum_sq(*self) > 0,
            sum_sq(*self) <= u128::MAX,
            isqrt(sum_sq(*self) as nat) <= i64::MAX,
        ensures
            r.x.units == div_units(self.x.units as int, isqrt(sum_sq(*self) as nat) as int),
            r.y.units == div_units(self.y.units as int, isqrt(sum_sq(*self) as nat) as int),
            r.z.units == div_units(self.z.units as int, isqrt(sum_sq(*self) as nat) as int),
            r.w.units == div_units(self.w.units as int, isqrt(sum_sq(*self) as nat) as int),
    {
        let m = self.norm();
        proof {
            assert(prod(self.x, self.x) >= 0 && prod(self.y, self.y) >= 0 && prod(self.z, self.z)
                >= 0 && prod(self.w, self.w) >= 0) by (nonlinear_arith);
            lemma_isqrt_bounds(sum_sq(*self) as nat);
            lemma_norm_dominates_component(*self, self.x);
            lemma_norm_dominates_component(*self, self.y);
            lemma_norm_dominates_component(*self, self.z);
            lemma_norm_dominates_component(*self, self.w);
        }
        self.div(m)
    }

    /// The dot product: the pairwise component products are summed exactly,
    /// then brought back to micro-unit scale.
    pub fn dot(&self, other: &Tuple) -> (r: Fixed)
        requires
            fits_i128(prod(self.x, other.x) + prod(self.y, other.y)),
            fits_i128(prod(self.x, other.x) + prod(self.y, other.y) + prod(self.z, other.z)),
            fits_i128(dot_raw(*self, *other)),
            fits_i64(div_trunc(dot_raw(*self, *other), SCALE as int)),
        ensures
            r.units == div_trunc(dot_raw(*self, *other), SCALE as int),
    {
        proof {
            lemma_i64_product_fits(self.x.units as int, other.x.units as int);
            lemma_i64_product_fits(self.y.units as int, other.y.units as int);
            lemma_i64_product_fits(self.z.units as int, other.z.units as int);
            lemma_i64_product_fits(self.w.units as int, other.w.units as int);
        }
        let px: i128 = (self.x.units as i128) * (other.x.units as i128);
        let py: i128 = (self.y.units as i128) * (other.y.units as i128);
        let pz: i128 = (self.z.units as i128) * (other.z.units as i128);
        let pw: i128 = (self.w.units as i128) * (other.w.units as i128);
        let total: i128 = px + py + pz + pw;
        let q: i128 = total / (SCALE as i128);
        Fixed { units: q as i64 }
    }

    /// The three-dimensional cross product, defined only for vectors: an
    /// operand whose `w` is not approximately zero is an invalid operation,
    /// and the call reports it rather than treat the operand as a vector.
    /// The result is always a vector.
    pub fn cross(&self, other: &Tuple) -> (r: Result<Tuple, InvalidOperation>)
        requires
            both_vectors(*self, *other) ==> {
                &&& fits_i128(prod(self.y, other.z) - prod(self.z, other.y))
                &&& fits_i128(prod(self.z, other.x) - prod(self.x, other.z))
                &&& fits_i128(prod(self.x, other.y) - prod(self.y, other.x))
                &&& fits_i64(cross_x(*self, *other))
                &&& fits_i64(cross_y(*self, *other))
                &&& fits_i64(cross_z(*self, *other))
            },
        ensures
            r is Err <==> !both_vectors(*self, *other),
            r matches Ok(t) ==> {
                &&& t.x.units == cross_x(*self, *other)
                &&& t.y.units == cross_y(*self, *other)
                &&& t.z.units == cross_z(*self, *other)
                &&& t.w.units == 0
            },
    {
        if !self.w.xeq(Fixed::zero()) || !other.w.xeq(Fixed::zero()) {
            return Err(InvalidOperation);
        }
        proof {
            lemma_i64_product_fits(self.y.units as int, other.z.units as int);
            lemma_i64_product_fits(self.z.units as int, other.y.units as int);
            lemma_i64_product_fits(self.z.units as int, other.x.units as int);
            lemma_i64_product_fits(self.x.units as int, other.z.units as int);
            lemma_i64_product_fits(self.x.units as int, other.y.units as int);
            lemma_i64_product_fits(self.y.units as int, other.x.units as int);
        }
        let dx: i128 = (self.y.units as i128) * (other.z.units as i128) - (self.z.units as i128)
            * (other.y.units as i128);
        let dy: i128 = (self.z.units as i128) * (other.x.units as i128) - (self.x.units as i128)
            * (other.z.units as i128);
        let dz: i128 = (self.x.units as i128) * (other.y.units as i128) - (self.y.units as i128)
            * (other.x.units as i128);
        Ok(
            Tuple {
                x: Fixed { units: (dx / (SCALE as i128)) as i64 },
                y: Fixed { units: (dy / (SCALE as i128)) as i64 },
                z: Fixed { units: (dz / (SCALE as i128)) as i64 },
                w: Fixed { units: 0 },
            },
        )
    }
}

/// Whether the mathematical integer `n` fits the double-width machine word.
pub open spec fn fits_i128(n: int) -> bool {
    i128::MIN <= n <= i128::MAX
}

/// The exact product of two components, in micro-units squared.
pub open spec fn prod(a: Fixed, b: Fixed) -> int {
    (a.units as int) * (b.units as int)
}

/// The exact sum of the four pairwise component products.
pub open spec fn dot_raw(a: Tuple, b: Tuple) -> int {
    prod(a.x, b.x) + prod(a.y, b.y) + prod(a.z, b.z) + prod(a.w, b.w)
}

/// The square of one component, widened so it always fits.
fn square_u128(f: Fixed) -> (r: u128)
    ensures
        r == (f.units as int) * (f.units as int),
{
    let m: u128 = crate::fixed::abs_u128(f.units);
    proof {
        assert(m * m == (f.units as int) * (f.units as int) && m * m
            <= 0x8000_0000_0000_0000u128 * 0x8000_0000_0000_0000u128) by (nonlinear_arith)
            requires
                m == abs_int(f.units as int),
                m <= 0x8000_0000_0000_0000,
        ;
    }
    m * m
}

/// The norm is at least the magnitude of every single component, so dividing
/// a component by the norm stays within one whole unit.
proof fn lemma_norm_dominates_component(t: Tuple, c: Fixed)
    requires
        sum_sq(t) > 0,
        prod(c, c) <= sum_sq(t),
    ensures
        isqrt(sum_sq(t) as nat) >= 1,
        isqrt(sum_sq(t) as nat) >= abs_int(c.units as int),
        fits_i64(div_units(c.units as int, isqrt(sum_sq(t) as nat) as int)),
{
    let n = sum_sq(t) as nat;
    let m = isqrt(n);
    lemma_isqrt_bounds(n);
    let a = abs_int(c.units as int);
    assert(a * a == prod(c, c)) by (nonlinear_arith)
        requires
            a == abs_int(c.units as int),
    ;
    assert(a * a < (a + 1) * (a + 1)) by (nonlinear_arith)
        requires
            a >= 0,
    ;
    lemma_isqrt_unique((a * a) as nat, a as nat);
    lemma_isqrt_monotone((a * a) as nat, n);
    assert(m >= 1);
    lemma_div_magnitude_bounded(c.units as int, m as int);
}

/// `isqrt` never decreases as its argument grows.
proof fn lemma_isqrt_monotone(a: nat, b: nat)
    requires
        a <= b,
    ensures
        isqrt(a) <= isqrt(b),
{
    lemma_isqrt_bounds(a);
    lemma_isqrt_bounds(b);
    if isqrt(b) < isqrt(a) {
        assert((isqrt(b) + 1) * (isqrt(b) + 1) <= isqrt(a) * isqrt(a)) by (nonlinear_arith)
            requires
                isqrt(b) + 1 <= isqrt(a),
        ;
    }
}

/// Dividing a component by a norm that dominates it keeps the quotient
/// within one whole unit on either side.
proof fn lemma_div_magnitude_bounded(c: int, m: int)
    requires
        m >= 1,
        m >= abs_int(c),
        fits_i64(c),
    ensures
        -(SCALE as int) <= div_units(c, m) <= SCALE as int,
{
    let s = SCALE as int;
    let a = abs_int(c);
    assert(a * s <= m * s) by (nonlinear_arith)
        requires
            a <= m,
            s >= 0,
    ;
    vstd::arithmetic::div_mod::lemma_div_is_ordered(a * s, m * s, m);
    vstd::arithmetic::div_mod::lemma_div_multiples_vanish(s, m);
    assert((a * s) / m <= s);
    vstd::arithmetic::div_mod::lemma_div_pos_is_pos(a * s, m);
    assert(a * s >= 0) by (nonlinear_arith)
        requires
            a >= 0,
            s >= 0,
    ;
    if c >= 0 {
        assert(div_units(c, m) == (a * s) / m);
    } else {
        assert(div_units(c, m) == -((a * s) / m));
    }
}

/// The cross product is anticommutative: swapping the operands negates every
/// component of the result, exactly.
pub proof fn lemma_cross_anticommutative(u: Tuple, v: Tuple)
    ensures
        cross_x(u, v) == -cross_x(v, u),
        cross_y(u, v) == -cross_y(v, u),
        cross_z(u, v) == -cross_z(v, u),
{
    lemma_swap_negates(u.y.units as int, v.z.units as int, u.z.units as int, v.y.units as int);
    lemma_swap_negates(u.z.units as int, v.x.units as int, u.x.units as int, v.z.units as int);
    lemma_swap_negates(u.x.units as int, v.y.units as int, u.y.units as int, v.x.units as int);
}

/// The determinant `a*b - c*d` flips sign when the pairs swap roles, and so
/// does its truncated quotient by the scale.
proof fn lemma_swap_negates(a: int, b: int, c: int, d: int)
    ensures
        div_trunc(a * b - c * d, SCALE as int) == -div_trunc(d * c - b * a, SCALE as int),
{
    assert(a * b - c * d == -(d * c - b * a)) by (nonlinear_arith);
    lemma_div_trunc_neg(d * c - b * a, SCALE as int);
}

/// Truncating division carries negation of the dividend straight through.
proof fn lemma_div_trunc_neg(n: int, d: int)
    requires
        d > 0,
    ensures
        div_trunc(-n, d) == -div_trunc(n, d),
{
    vstd::arithmetic::div_mod::lemma_div_of0(d);
}

} // verus!
