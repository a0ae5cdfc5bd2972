//! Colors in linear light, and their eight-bit serialized form.

use vstd::prelude::*;

verus! {

use vstd::string::StringExecFns;

use crate::fx::{fxsqrt, Fx, DIVIN, MULIN, ONE_RAW, SCALE};
use crate::math::vec3::{is_mul_elem, is_scale, is_vadd, vec_in, Vec3};

/// The largest gamma value that still quantizes below 256: just under one.
pub const CLAMP_RAW: i128 = 920678;

/// An RGB triple in linear light space.
#[derive(Clone, Copy, Debug, PartialEq, Eq, Structural)]
pub struct Color(pub Vec3);

/// Gamma encoding: the square root of the channel, negatives lifted to zero.
pub open spec fn gamma_raw(c: int) -> int {
    fxsqrt(if c >= 0 { c } else { 0 })
}

/// The eight-bit value of one linear channel: gamma-encode, clamp just
/// below one, scale by 256 and round down.
pub open spec fn channel_byte(c: int) -> int {
    let g = gamma_raw(c);
    let clamped = if g > CLAMP_RAW {
        CLAMP_RAW as int
    } else {
        g
    };
    clamped * 256 / (SCALE as int)
}

/// The decimal digits of a byte value, as characters.
pub open spec fn dec_chars(n: int) -> Seq<char> {
    if n < 10 {
        seq![digit_char(n)]
    } else if n < 100 {
        seq![digit_char(n / 10), digit_char(n % 10)]
    } else {
        seq![digit_char(n / 100), digit_char((n / 10) % 10), digit_char(n % 10)]
    }
}

/// The character for one decimal digit.
pub open spec fn digit_char(d: int) -> char {
    if d == 0 {
        '0'
    } else if d == 1 {
        '1'
    } else if d == 2 {
        '2'
    } else if d == 3 {
        '3'
    } else if d == 4 {
        '4'
    } else if d == 5 {
        '5'
    } else if d == 6 {
        '6'
    } else if d == 7 {
        '7'
    } else if d == 8 {
        '8'
    } else {
        '9'
    }
}

/// The serialized form of one pixel: three bytes, space-separated.
pub open spec fn spec_pixel_chars(c: Color) -> Seq<char> {
    dec_chars(channel_byte(c.0.x.0 as int)) + seq![' '] + dec_chars(channel_byte(c.0.y.0 as int))
        + seq![' '] + dec_chars(channel_byte(c.0.z.0 as int))
}

impl Color {
    pub fn new(r: Fx, g: Fx, b: Fx) -> (c: Color)
        ensures
            c.0 == (Vec3 { x: r, y: g, z: b }),
    {
        Color(Vec3 { x: r, y: g, z: b })
    }

    pub fn black() -> (c: Color)
        ensures
            c.0.x.0 == 0 && c.0.y.0 == 0 && c.0.z.0 == 0,
    {
        Color(Vec3::zero())
    }

    pub fn white() -> (c: Color)
        ensures
            c.0.x.0 == SCALE && c.0.y.0 == SCALE && c.0.z.0 == SCALE,
    {
        Color(Vec3 { x: Fx(ONE_RAW), y: Fx(ONE_RAW), z: Fx(ONE_RAW) })
    }

    pub fn from_vec3(v: Vec3) -> (c: Color)
        ensures
            c.0 == v,
    {
        Color(v)
    }

    /// Component-wise sum.
    pub fn add(self, o: Color) -> (c: Color)
        requires
            -DIVIN <= self.0.x.0 + o.0.x.0 <= DIVIN,
            -DIVIN <= self.0.y.0 + o.0.y.0 <= DIVIN,
            -DIVIN <= self.0.z.0 + o.0.z.0 <= DIVIN,
        ensures
            is_vadd(c.0, self.0, o.0),
    {
        Color(self.0.add(o.0))
    }

    /// Component-wise (filter) product.
    pub fn mul(self, o: Color) -> (c: Color)
        requires
            vec_in(self.0, MULIN as int),
            vec_in(o.0, MULIN as int),
        ensures
            is_mul_elem(c.0, self.0, o.0),
    {
        Color(self.0.mul_elem(o.0))
    }

    /// Scale every channel.
    pub fn scale(self, k: Fx) -> (c: Color)
        requires
            -MULIN <= k.0 <= MULIN,
            vec_in(self.0, MULIN as int),
        ensures
            is_scale(c.0, k, self.0),
    {
        Color(self.0.scale(k))
    }

    pub fn red(&self) -> (r: u8)
        requires
            -DIVIN <= self.0.x.0 <= DIVIN,
        ensures
            r as int == channel_byte(self.0.x.0 as int),
    {
        quantize(self.0.x)
    }

    pub fn green(&self) -> (r: u8)
        requires
            -DIVIN <= self.0.y.0 <= DIVIN,
        ensures
            r as int == channel_byte(self.0.y.0 as int),
    {
        quantize(self.0.y)
    }

    pub fn blue(&self) -> (r: u8)
        requires
            -DIVIN <= self.0.z.0 <= DIVIN,
        ensures
            r as int == channel_byte(self.0.z.0 as int),
    {
        quantize(self.0.z)
    }

    /// The pixel's line in a plain-text raster: "r g b".
    pub fn pixel_text(&self) -> (s: String)
        requires
            vec_in(self.0, DIVIN as int),
        ensures
            s@ == spec_pixel_chars(*self),
    {
        let mut s = byte_text(quantize(self.0.x));
        s.append(" ");
        let g = byte_text(quantize(self.0.y));
        s.append(g.as_str());
        s.append(" ");
        let b = byte_text(quantize(self.0.z));
        s.append(b.as_str());
        proof {
            reveal_strlit(" ");
        }
        s
    }
}

/// Gamma-encode one channel and round it to its eight-bit form.
fn quantize(c: Fx) -> (r: u8)
    requires
        -DIVIN <= c.0 <= DIVIN,
    ensures
        r as int == channel_byte(c.0 as int),
        r <= 255,
{
    let lifted = if c.0 >= 0 {
        c
    } else {
        Fx(0)
    };
    let g = lifted.sqrt();
    let clamped: i128 = if g.0 > CLAMP_RAW {
        CLAMP_RAW
    } else {
        g.0
    };
    proof {
        crate::fx::lemma_isqrt_bounds(lifted.0 * (SCALE as int));
        vstd::arithmetic::div_mod::lemma_div_pos_is_pos((clamped as int) * 256, SCALE as int);
        vstd::arithmetic::div_mod::lemma_div_is_ordered(
            (clamped as int) * 256,
            235693568int,
            SCALE as int,
        );
    }
    ((clamped * 256).checked_div(SCALE).unwrap()) as u8
}

/// The decimal text of one byte.
fn byte_text(n: u8) -> (s: String)
    ensures
        s@ == dec_chars(n as int),
{
    let mut s = String::new();
    if n >= 100 {
        let d1 = digit_str(n / 100);
        let d2 = digit_str((n / 10) % 10);
        let d3 = digit_str(n % 10);
        s.append(d1);
        s.append(d2);
        s.append(d3);
    } else if n >= 10 {
        let d2 = digit_str(n / 10);
        let d3 = digit_str(n % 10);
        s.append(d2);
        s.append(d3);
    } else {
        let d3 = digit_str(n);
        s.append(d3);
    }
    s
}

/// The text of one decimal digit.
pub(crate) fn digit_str(d: u8) -> (s: &'static str)
    requires
        d <= 9,
    ensures
        s@ == seq![digit_char(d as int)],
{
    proof {
        reveal_strlit("0");
        reveal_strlit("1");
        reveal_strlit("2");
        reveal_strlit("3");
        reveal_strlit("4");
        reveal_strlit("5");
        reveal_strlit("6");
        reveal_strlit("7");
        reveal_strlit("8");
        reveal_strlit("9");
    }
    match d {
        0 => "0",
        1 => "1",
        2 => "2",
        3 => "3",
        4 => "4",
        5 => "5",
        6 => "6",
        7 => "7",
        8 => "8",
        _ => "9",
    }
}

} // verus!
