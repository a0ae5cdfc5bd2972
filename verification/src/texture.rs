//! Textures: mappings from surface coordinates and position to color.

use vstd::prelude::*;

pub mod perlin;

pub use perlin::Perlin;

verus! {

use crate::color::Color;
use crate::fx::{fxdiv, fxmul, Fx, ONE_RAW, PMAX, SCALE};
use crate::math::point3::{point_in, Point3};
use crate::math::vec3::{vec_in, Vec3};
use crate::texture::perlin::{perlin_wf, spec_noise};

/// Largest raw channel magnitude a stored texture color may carry.
pub const TEXMAX: i128 = 1073741824;

/// Largest image side length accepted.
pub const IMG_SIDE_MAX: usize = 32768;

/// Local 2D surface coordinates of a hit.
#[derive(Clone, Copy, Debug, PartialEq, Eq, Structural)]
pub struct TextureCoords {
    pub u: Fx,
    pub v: Fx,
}

/// Both surface coordinates lie within twice the unit.
pub open spec fn tc_wf(c: TextureCoords) -> bool {
    -2 * SCALE <= c.u.0 <= 2 * SCALE && -2 * SCALE <= c.v.0 <= 2 * SCALE
}

/// A color field over the surface: constant, alternating in space, sampled
/// from a bitmap, or procedural noise.
pub enum Texture {
    SolidColor(SolidColor),
    CheckerTexture(CheckerTexture),
    Image(Image),
    Noise(Noise),
}

/// The same color everywhere.
pub struct SolidColor {
    pub albedo: Color,
}

/// Two textures alternating in a three-dimensional checker pattern.
pub struct CheckerTexture {
    pub inv_scale: Fx,
    pub even: Box<Texture>,
    pub odd: Box<Texture>,
}

/// A decoded bitmap in linear light, row-major, row zero at the top.
pub struct Image {
    pub width: usize,
    pub height: usize,
    pub pixels: Vec<Color>,
}

/// Perlin-based gray noise with a frequency scale.
pub struct Noise {
    pub perlin: Perlin,
    pub scale: Fx,
}

/// Structural soundness of a texture tree: bounded stored colors and
/// scales, full tables, and sound children.
pub open spec fn tex_wf(t: Texture) -> bool
    decreases t,
{
    match t {
        Texture::SolidColor(s) => vec_in(s.albedo.0, TEXMAX as int),
        Texture::CheckerTexture(c) => {
            &&& -(SCALE as int) * SCALE <= c.inv_scale.0 <= (SCALE as int) * SCALE
            &&& tex_wf(*c.even)
            &&& tex_wf(*c.odd)
        },
        Texture::Image(im) => {
            &&& 1 <= im.width <= IMG_SIDE_MAX
            &&& 1 <= im.height <= IMG_SIDE_MAX
            &&& im.pixels@.len() == im.width * im.height
            &&& forall|i: int|
                0 <= i < im.pixels@.len() ==> vec_in(#[trigger] im.pixels@[i].0, TEXMAX as int)
        },
        Texture::Noise(n) => perlin_wf(n.perlin) && 0 <= n.scale.0 <= SCALE as int * 1024,
    }
}

/// Contents equality of textures is reflexive.
pub proof fn lemma_tex_equiv_refl(t: Texture)
    ensures
        tex_equiv(t, t),
    decreases t,
{
    match t {
        Texture::CheckerTexture(c) => {
            lemma_tex_equiv_refl(*c.even);
            lemma_tex_equiv_refl(*c.odd);
        },
        Texture::Noise(n) => crate::texture::perlin::lemma_perlin_equiv_refl(n.perlin),
        _ => {},
    }
}

/// The lattice cell index of one coordinate under the checker's inverse
/// scale: the floor of their product.
pub open spec fn checker_cell(inv_scale: int, c: int) -> int {
    fxmul(inv_scale, c) / (SCALE as int)
}

/// Whether the checker cell holding `p` is an even cell.
pub open spec fn checker_even(inv_scale: int, p: Point3) -> bool {
    (checker_cell(inv_scale, p.0.x.0 as int) + checker_cell(inv_scale, p.0.y.0 as int)
        + checker_cell(inv_scale, p.0.z.0 as int)) % 2 == 0
}

/// One image axis lookup: clamp the coordinate to `[0, 1]`, scale by the
/// side length, round down, and keep the last pixel for coordinate one.
pub open spec fn image_index(c: int, side: int) -> int {
    let clamped = if c < 0 {
        0
    } else if c > SCALE as int {
        SCALE as int
    } else {
        c
    };
    let i = fxmul(clamped, side * SCALE) / (SCALE as int);
    if i >= side {
        side - 1
    } else {
        i
    }
}

/// The value of the gray noise channel at `p`: the noise brought from
/// `[-1, 1]` to `[0, 1]` and clamped there.
pub open spec fn noise_gray(n: Noise, p: Point3) -> int {
    let scaled = Point3(
        Vec3 {
            x: Fx(fxmul(n.scale.0 as int, p.0.x.0 as int) as i128),
            y: Fx(fxmul(n.scale.0 as int, p.0.y.0 as int) as i128),
            z: Fx(fxmul(n.scale.0 as int, p.0.z.0 as int) as i128),
        },
    );
    let raw = fxmul(SCALE as int + spec_noise(n.perlin, scaled), 460800);
    if raw < 0 {
        0
    } else if raw > SCALE as int {
        SCALE as int
    } else {
        raw
    }
}

/// The color a texture yields for given surface coordinates and position.
pub open spec fn spec_texture_value(t: Texture, c: TextureCoords, p: Point3) -> Color
    decreases t,
{
    match t {
        Texture::SolidColor(s) => s.albedo,
        Texture::CheckerTexture(ch) => if checker_even(ch.inv_scale.0 as int, p) {
            spec_texture_value(*ch.even, c, p)
        } else {
            spec_texture_value(*ch.odd, c, p)
        },
        Texture::Image(im) => {
            let i = image_index(c.u.0 as int, im.width as int);
            let j = image_index(SCALE as int - c.v.0 as int, im.height as int);
            im.pixels@[j * im.width + i]
        },
        Texture::Noise(n) => {
            let g = noise_gray(n, p);
            Color(Vec3 { x: Fx(g as i128), y: Fx(g as i128), z: Fx(g as i128) })
        },
    }
}

/// Law: one checker cell along the x axis flips the parity, so the two
/// configured textures alternate, whenever the cell size is an exact
/// reciprocal of the stored inverse scale.
pub proof fn lemma_checker_alternates(ch: CheckerTexture, c: TextureCoords, sx: Fx)
    requires
        fxmul(ch.inv_scale.0 as int, sx.0 as int) == SCALE as int,
    ensures
        checker_even(ch.inv_scale.0 as int, Point3(Vec3 { x: Fx(0), y: Fx(0), z: Fx(0) })),
        !checker_even(ch.inv_scale.0 as int, Point3(Vec3 { x: sx, y: Fx(0), z: Fx(0) })),
        spec_texture_value(
            Texture::CheckerTexture(ch),
            c,
            Point3(Vec3 { x: Fx(0), y: Fx(0), z: Fx(0) }),
        ) == spec_texture_value(*ch.even, c, Point3(Vec3 { x: Fx(0), y: Fx(0), z: Fx(0) })),
        spec_texture_value(Texture::CheckerTexture(ch), c, Point3(Vec3 { x: sx, y: Fx(0), z: Fx(0) }))
            == spec_texture_value(*ch.odd, c, Point3(Vec3 { x: sx, y: Fx(0), z: Fx(0) })),
{
    let inv = ch.inv_scale.0 as int;
    assert(inv * 0 == 0) by (nonlinear_arith);
    assert(checker_cell(inv, 0) == 0) by {
        assert(crate::fx::tdiv(0, SCALE as int) == 0);
    }
    vstd::arithmetic::div_mod::lemma_div_multiples_vanish(1, SCALE as int);
    assert(checker_cell(inv, sx.0 as int) == 1);
    assert((0int + 0 + 0) % 2 == 0);
    assert((1int + 0 + 0) % 2 == 1);
}

impl SolidColor {
    pub fn new(albedo: Color) -> (r: SolidColor)
        ensures
            r.albedo == albedo,
    {
        SolidColor { albedo }
    }
}

impl CheckerTexture {
    /// Alternate `c1` and `c2` in cells `scale` across.
    pub fn new(scale: Fx, c1: Texture, c2: Texture) -> (r: CheckerTexture)
        requires
            1 <= scale.0,
            tex_wf(c1),
            tex_wf(c2),
        ensures
            tex_wf(Texture::CheckerTexture(r)),
            r.inv_scale.0 == fxdiv(ONE_RAW as int, scale.0 as int),
            *r.even == c1,
            *r.odd == c2,
    {
        proof {
            crate::fx::lemma_tdiv_abs_le((ONE_RAW as int) * SCALE, scale.0 as int);
        }
        CheckerTexture {
            inv_scale: Fx(ONE_RAW).div(scale),
            even: Box::new(c1),
            odd: Box::new(c2),
        }
    }
}

impl Image {
    /// A bitmap from decoded pixel rows in linear light.
    pub fn new(width: usize, height: usize, pixels: Vec<Color>) -> (r: Image)
        requires
            1 <= width <= IMG_SIDE_MAX,
            1 <= height <= IMG_SIDE_MAX,
            pixels@.len() == width * height,
            forall|i: int| 0 <= i < pixels@.len() ==> vec_in(#[trigger] pixels@[i].0, TEXMAX as int),
        ensures
            tex_wf(Texture::Image(r)),
            r.width == width,
            r.height == height,
            r.pixels == pixels,
    {
        Image { width, height, pixels }
    }
}

impl Noise {
    /// Perlin noise with lattice cells `1 / scale` across.
    pub fn new(scale: Fx, rng: &mut crate::rng::RandomSource) -> (r: Noise)
        requires
            0 <= scale.0 <= SCALE as int * 1024,
        ensures
            tex_wf(Texture::Noise(r)),
            r.scale == scale,
    {
        Noise { perlin: Perlin::new(rng), scale }
    }
}

impl Texture {
    /// A texture showing one color everywhere.
    pub fn solid(albedo: Color) -> (r: Texture)
        requires
            vec_in(albedo.0, TEXMAX as int),
        ensures
            tex_wf(r),
            r == Texture::SolidColor(SolidColor { albedo }),
    {
        Texture::SolidColor(SolidColor { albedo })
    }

    /// A fresh texture equal to this one in contents.
    pub fn duplicate(&self) -> (r: Texture)
        ensures
            tex_equiv(r, *self),
            tex_wf(*self) ==> tex_wf(r),
        decreases *self,
    {
        match self {
            Texture::SolidColor(s) => Texture::SolidColor(SolidColor { albedo: s.albedo }),
            Texture::CheckerTexture(c) => Texture::CheckerTexture(
                CheckerTexture {
                    inv_scale: c.inv_scale,
                    even: Box::new(c.even.duplicate()),
                    odd: Box::new(c.odd.duplicate()),
                },
            ),
            Texture::Image(im) => Texture::Image(
                Image { width: im.width, height: im.height, pixels: copy_vec(&im.pixels) },
            ),
            Texture::Noise(n) => Texture::Noise(
                Noise { perlin: n.perlin.duplicate(), scale: n.scale },
            ),
        }
    }

    /// The texture's color at the given surface coordinates and position.
    pub fn value(&self, coords: &TextureCoords, p: Point3) -> (r: Color)
        requires
            tex_wf(*self),
            tc_wf(*coords),
            point_in(p, PMAX as int),
        ensures
            r == spec_texture_value(*self, *coords, p),
            vec_in(r.0, TEXMAX as int),
        decreases *self,
    {
        match self {
            Texture::SolidColor(s) => s.albedo,
            Texture::CheckerTexture(ch) => {
                let xi = cell_index(ch.inv_scale, p.0.x);
                let yi = cell_index(ch.inv_scale, p.0.y);
                let zi = cell_index(ch.inv_scale, p.0.z);
                let is_even = (xi + yi + zi).checked_rem_euclid(2).unwrap() == 0;
                if is_even {
                    ch.even.value(coords, p)
                } else {
                    ch.odd.value(coords, p)
                }
            },
            Texture::Image(im) => {
                let i = axis_index(coords.u, im.width);
                let j = axis_index(Fx(SCALE - coords.v.0), im.height);
                proof {
                    assert((j as int) * (im.width as int) + i < (im.width as int) * (
                    im.height as int) && (im.width as int) * (im.height as int)
                        <= 1073741824) by (nonlinear_arith)
                        requires
                            (j as int) < im.height as int,
                            (i as int) < im.width as int,
                            1 <= im.width <= 32768,
                            1 <= im.height <= 32768,
                    ;
                }
                im.pixels[j * im.width + i]
            },
            Texture::Noise(n) => {
                let sp = Point3(
                    Vec3 {
                        x: n.scale.mul(p.0.x),
                        y: n.scale.mul(p.0.y),
                        z: n.scale.mul(p.0.z),
                    },
                );
                proof {
                    crate::fx::lemma_fxmul_mag(
                        n.scale.0 as int,
                        p.0.x.0 as int,
                        (SCALE as int) * 1024,
                        PMAX as int,
                    );
                    crate::fx::lemma_fxmul_mag(
                        n.scale.0 as int,
                        p.0.y.0 as int,
                        (SCALE as int) * 1024,
                        PMAX as int,
                    );
                    crate::fx::lemma_fxmul_mag(
                        n.scale.0 as int,
                        p.0.z.0 as int,
                        (SCALE as int) * 1024,
                        PMAX as int,
                    );
                }
                let nv = n.perlin.noise(sp);
                let raw = Fx(SCALE + nv.0).mul(Fx(460800));
                let g = if raw.0 < 0 {
                    Fx(0)
                } else if raw.0 > SCALE {
                    Fx(ONE_RAW)
                } else {
                    raw
                };
                Color(Vec3 { x: g, y: g, z: g })
            },
        }
    }
}

/// A fresh vector holding the same elements.
pub(crate) fn copy_vec<T: Copy>(v: &Vec<T>) -> (r: Vec<T>)
    ensures
        r@ == v@,
{
    let mut r: Vec<T> = Vec::new();
    let mut i: usize = 0;
    while i < v.len()
        invariant
            i <= v.len(),
            r@ == v@.subrange(0, i as int),
        decreases v.len() - i,
    {
        r.push(v[i]);
        proof {
            assert(v@.subrange(0, i + 1) =~= v@.subrange(0, i as int).push(v@[i as int]));
        }
        i = i + 1;
    }
    proof {
        assert(v@.subrange(0, v@.len() as int) =~= v@);
    }
    r
}

/// Structural equality of two textures, with stored tables compared by
/// contents.
pub open spec fn tex_equiv(a: Texture, b: Texture) -> bool
    decreases a,
{
    match (a, b) {
        (Texture::SolidColor(x), Texture::SolidColor(y)) => x.albedo == y.albedo,
        (Texture::CheckerTexture(x), Texture::CheckerTexture(y)) => {
            &&& x.inv_scale == y.inv_scale
            &&& tex_equiv(*x.even, *y.even)
            &&& tex_equiv(*x.odd, *y.odd)
        },
        (Texture::Image(x), Texture::Image(y)) => x.width == y.width && x.height == y.height
            && x.pixels@ == y.pixels@,
        (Texture::Noise(x), Texture::Noise(y)) => x.scale == y.scale
            && crate::texture::perlin::perlin_equiv(x.perlin, y.perlin),
        _ => false,
    }
}

/// The lattice cell index of one coordinate under the checker scale.
fn cell_index(inv_scale: Fx, c: Fx) -> (r: i64)
    requires
        -(SCALE as int) * SCALE <= inv_scale.0 <= (SCALE as int) * SCALE,
        -PMAX <= c.0 <= PMAX,
    ensures
        r as int == checker_cell(inv_scale.0 as int, c.0 as int),
        -68719476737 <= r <= 68719476737,
{
    proof {
        crate::fx::lemma_fxmul_mag(
            inv_scale.0 as int,
            c.0 as int,
            (SCALE as int) * SCALE,
            PMAX as int,
        );
    }
    let m = inv_scale.mul(c);
    proof {
        vstd::arithmetic::div_mod::lemma_div_is_ordered(
            m.0 as int,
            (SCALE as int) * PMAX,
            SCALE as int,
        );
        vstd::arithmetic::div_mod::lemma_div_is_ordered(
            -(SCALE as int) * PMAX,
            m.0 as int,
            SCALE as int,
        );
        vstd::arithmetic::div_mod::lemma_div_multiples_vanish(PMAX as int, SCALE as int);
        vstd::arithmetic::div_mod::lemma_div_multiples_vanish(-PMAX as int, SCALE as int);
    }
    m.floor_int()
}

/// One image axis lookup, clamped to the pixel range.
fn axis_index(c: Fx, side: usize) -> (r: usize)
    requires
        1 <= side <= IMG_SIDE_MAX,
        -2 * SCALE <= c.0 <= 3 * SCALE,
    ensures
        r as int == image_index(c.0 as int, side as int),
        r < side,
{
    let clamped = if c.0 < 0 {
        Fx(0)
    } else if c.0 > SCALE {
        Fx(ONE_RAW)
    } else {
        c
    };
    proof {
        crate::fx::lemma_fxmul_mag(
            clamped.0 as int,
            (side as int) * SCALE,
            SCALE as int,
            (IMG_SIDE_MAX as int) * SCALE,
        );
        crate::fx::lemma_tdiv_abs_le(clamped.0 * ((side as i128) * SCALE), SCALE as int);
    }
    let scaled = clamped.mul(Fx((side as i128) * SCALE));
    let i = scaled.floor_int();
    proof {
        vstd::arithmetic::div_mod::lemma_div_pos_is_pos(scaled.0 as int, SCALE as int);
    }
    if i as usize >= side {
        side - 1
    } else {
        i as usize
    }
}

} // verus!
