//! RGB color values.
//!
//! A color's channels are unconstrained scalars: they may leave `[0, 1]` or
//! go negative, and nothing clamps them until the color is rendered as text.

use vstd::prelude::*;

use crate::fixed::ApproxEq;
use crate::fixed::Fixed;
use crate::fixed::SCALE;
use crate::fixed::div_trunc;
use crate::fixed::div_units;
use crate::fixed::fits_i64;
use crate::fixed::mul_units;
use crate::text::dec_seq;

verus! {

/// A color with red, green and blue channels.
#[derive(Clone, Copy, Debug)]
pub struct Color {
    pub red: Fixed,
    pub green: Fixed,
    pub blue: Fixed,
}

/// A channel rendered for text: scaled by 255, truncated toward zero,
/// then clamped into `0 ..= 255`.
pub open spec fn channel(units: int) -> int {
    let v = div_trunc(units * 255, SCALE as int);
    if v > 255 {
        255
    } else if v < 0 {
        0
    } else {
        v
    }
}

/// The text of a color: its three clamped channels, separated by single spaces.
pub open spec fn color_text(c: Color) -> Seq<char> {
    dec_seq(channel(c.red.units as int) as nat) + seq![' '] + dec_seq(
        channel(c.green.units as int) as nat,
    ) + seq![' '] + dec_seq(channel(c.blue.units as int) as nat)
}

impl ApproxEq for Color {
    open spec fn approx_spec(self, other: Self) -> bool {
        self.red.approx_spec(other.red) && self.green.approx_spec(other.green)
            && self.blue.approx_spec(other.blue)
    }

    fn xeq(self, other: Self) -> (r: bool) {
        self.red.xeq(other.red) && self.green.xeq(other.green) && self.blue.xeq(other.blue)
    }
}

impl Color {
    /// Direct construction: any three scalars are accepted.
    pub fn new(red: Fixed, green: Fixed, blue: Fixed) -> (r: Color)
        ensures
            r.red == red && r.green == green && r.blue == blue,
    {
        Color { red, green, blue }
    }

    /// Black, the color every canvas cell starts as.
    pub fn black() -> (r: Color)
        ensures
            r.red.units == 0 && r.green.units == 0 && r.blue.units == 0,
    {
        Color { red: Fixed::zero(), green: Fixed::zero(), blue: Fixed::zero() }
    }

    /// Channel-wise sum.
    pub fn add(self, other: Color) -> (r: Color)
        requires
            fits_i64(self.red.units + other.red.units),
            fits_i64(self.green.units + other.green.units),
            fits_i64(self.blue.units + other.blue.units),
        ensures
            r.red.units == self.red.units + other.red.units,
            r.green.units == self.green.units + other.green.units,
            r.blue.units == self.blue.units + other.blue.units,
    {
        Color {
            red: self.red.add(other.red),
            green: self.green.add(other.green),
            blue: self.blue.add(other.blue),
        }
    }

    /// Channel-wise difference.
    pub fn sub(self, other: Color) -> (r: Color)
        requires
            fits_i64(self.red.units - other.red.units),
            fits_i64(self.green.units - other.green.units),
            fits_i64(self.blue.units - other.blue.units),
        ensures
            r.red.units == self.red.units - other.red.units,
            r.green.units == self.green.units - other.green.units,
            r.blue.units == self.blue.units - other.blue.units,
    {
        Color {
            red: self.red.sub(other.red),
            green: self.green.sub(other.green),
            blue: self.blue.sub(other.blue),
        }
    }

    /// Channel-wise negation.
    pub fn neg(self) -> (r: Color)
        requires
            self.red.units != i64::MIN,
            self.green.units != i64::MIN,
            self.blue.units != i64::MIN,
        ensures
            r.red.units == -self.red.units,
            r.green.units == -self.green.units,
            r.blue.units == -self.blue.units,
    {
        Color { red: self.red.neg(), green: self.green.neg(), blue: self.blue.neg() }
    }

    /// Multiplication by a scalar: every channel is scaled alike.
    pub fn scale(self, s: Fixed) -> (r: Color)
        requires
            fits_i64(mul_units(self.red.units as int, s.units as int)),
            fits_i64(mul_units(self.green.units as int, s.units as int)),
            fits_i64(mul_units(self.blue.units as int, s.units as int)),
        ensures
            r.red.units == mul_units(self.red.units as int, s.units as int),
            r.green.units == mul_units(self.green.units as int, s.units as int),
            r.blue.units == mul_units(self.blue.units as int, s.units as int),
    {
        Color { red: self.red.mul(s), green: self.green.mul(s), blue: self.blue.mul(s) }
    }

    /// Division by a scalar. The caller keeps the scalar away from zero.
    pub fn div(self, s: Fixed) -> (r: Color)
        requires
            s.units != 0,
            fits_i64(div_units(self.red.units as int, s.units as int)),
            fits_i64(div_units(self.green.units as int, s.units as int)),
            fits_i64(div_units(self.blue.units as int, s.units as int)),
        ensures
            r.red.units == div_units(self.red.units as int, s.units as int),
            r.green.units == div_units(self.green.units as int, s.units as int),
            r.blue.units == div_units(self.blue.units as int, s.units as int),
    {
        Color { red: self.red.div(s), green: self.green.div(s), blue: self.blue.div(s) }
    }

    /// The Hadamard product: channels multiply pairwise, red with red, green
    /// with green, blue with blue. Distinct from scaling by a scalar.
    pub fn hadamard(self, other: Color) -> (r: Color)
        requires
            fits_i64(mul_units(self.red.units as int, other.red.units as int)),
            fits_i64(mul_units(self.green.units as int, other.green.units as int)),
            fits_i64(mul_units(self.blue.units as int, other.blue.units as int)),
        ensures
            r.red.units == mul_units(self.red.units as int, other.red.units as int),
            r.green.units == mul_units(self.green.units as int, other.green.units as int),
            r.blue.units == mul_units(self.blue.units as int, other.blue.units as int),
    {
        Color {
            red: self.red.mul(other.red),
            green: self.green.mul(other.green),
            blue: self.blue.mul(other.blue),
        }
    }

    /// Renders the color as its three clamped channels: out-of-range channels
    /// never fail, they clamp to `0` or `255`.
    pub fn to_text(&self) -> (r: String)
        ensures
            r@ == color_text(*self),
    {
        let mut s = String::new();
        crate::text::push_decimal(&mut s, quantize(self.red));
        s.append(" ");
        crate::text::push_decimal(&mut s, quantize(self.green));
        s.append(" ");
        crate::text::push_decimal(&mut s, quantize(self.blue));
        proof {
            reveal_strlit(" ");
            assert(s@ =~= color_text(*self));
        }
        s
    }
}

/// A color's text is five to eleven characters, none of them a newline.
pub proof fn lemma_color_text_plain(c: Color)
    ensures
        5 <= color_text(c).len() <= 11,
        forall|k: int| 0 <= k < color_text(c).len() ==> #[trigger] color_text(c)[k] != '\n',
{
    let cr = channel(c.red.units as int) as nat;
    let cg = channel(c.green.units as int) as nat;
    let cb = channel(c.blue.units as int) as nat;
    crate::text::lemma_dec_len_small(cr);
    crate::text::lemma_dec_len_small(cg);
    crate::text::lemma_dec_len_small(cb);
    crate::text::lemma_dec_seq_plain(cr);
    crate::text::lemma_dec_seq_plain(cg);
    crate::text::lemma_dec_seq_plain(cb);
}

/// The clamped text value of one channel.
pub fn quantize(c: Fixed) -> (r: u64)
    ensures
        r == channel(c.units as int),
        r <= 255,
{
    let p: i128 = (c.units as i128) * 255;
    let v: i128 = p / (SCALE as i128);
    if v > 255 {
        255
    } else if v < 0 {
        0
    } else {
        v as u64
    }
}

} // verus!
