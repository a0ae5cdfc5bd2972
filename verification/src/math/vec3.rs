//! Three-component vectors over the fixed-point scalar.

use vstd::prelude::*;

verus! {

use crate::fx::{fxdiv, fxmul, fxsqrt, lemma_mul_abs_le, lemma_tdiv_abs_le, tdiv, Fx};
use crate::fx::{DIVIN, MULIN, ONE_RAW, SCALE};
use crate::math::Axis;

/// Largest raw magnitude accepted per component by `dot`.
pub const DOT_IN: i128 = 4611686018427387904;

/// Largest raw magnitude accepted per component by `cross` and `length`.
pub const CROSS_IN: i128 = 576460752303423488;

/// Largest raw magnitude a unit-length vector's components may carry,
/// with room for rounding: twice the scalar one.
pub const NMAX: i128 = 1843200;

/// Largest raw refraction index accepted by `refract`.
pub const RIMAX: i128 = 92160000;

/// A displacement or direction in space.
#[derive(Clone, Copy, Debug, PartialEq, Eq, Structural)]
pub struct Vec3 {
    pub x: Fx,
    pub y: Fx,
    pub z: Fx,
}

/// All three components lie within `m` in magnitude.
pub open spec fn vec_in(v: Vec3, m: int) -> bool {
    &&& -m <= v.x.0 <= m
    &&& -m <= v.y.0 <= m
    &&& -m <= v.z.0 <= m
}

/// Raw value of the dot product: the raw component products are summed
/// exactly, then brought back to the grid with a single rounding.
pub open spec fn dot_raw(a: Vec3, b: Vec3) -> int {
    tdiv(a.x.0 * b.x.0 + a.y.0 * b.y.0 + a.z.0 * b.z.0, SCALE as int)
}

/// Raw value of the squared length.
pub open spec fn len_sq_raw(v: Vec3) -> int {
    dot_raw(v, v)
}

/// Raw value of the length.
pub open spec fn len_raw(v: Vec3) -> int {
    fxsqrt(len_sq_raw(v))
}

/// `r` is the component-wise sum of `a` and `b`.
pub open spec fn is_vadd(r: Vec3, a: Vec3, b: Vec3) -> bool {
    &&& r.x.0 == a.x.0 + b.x.0
    &&& r.y.0 == a.y.0 + b.y.0
    &&& r.z.0 == a.z.0 + b.z.0
}

/// `r` is the component-wise difference of `a` and `b`.
pub open spec fn is_vsub(r: Vec3, a: Vec3, b: Vec3) -> bool {
    &&& r.x.0 == a.x.0 - b.x.0
    &&& r.y.0 == a.y.0 - b.y.0
    &&& r.z.0 == a.z.0 - b.z.0
}

/// `r` is `v` scaled by `k` on the grid.
pub open spec fn is_scale(r: Vec3, k: Fx, v: Vec3) -> bool {
    &&& r.x.0 == fxmul(k.0 as int, v.x.0 as int)
    &&& r.y.0 == fxmul(k.0 as int, v.y.0 as int)
    &&& r.z.0 == fxmul(k.0 as int, v.z.0 as int)
}

/// `r` is the component-wise product of `a` and `b`.
pub open spec fn is_mul_elem(r: Vec3, a: Vec3, b: Vec3) -> bool {
    &&& r.x.0 == fxmul(a.x.0 as int, b.x.0 as int)
    &&& r.y.0 == fxmul(a.y.0 as int, b.y.0 as int)
    &&& r.z.0 == fxmul(a.z.0 as int, b.z.0 as int)
}

/// `r` is the cross product of `a` and `b` on the grid.
pub open spec fn is_cross(r: Vec3, a: Vec3, b: Vec3) -> bool {
    &&& r.x.0 == fxmul(a.y.0 as int, b.z.0 as int) - fxmul(a.z.0 as int, b.y.0 as int)
    &&& r.y.0 == fxmul(a.z.0 as int, b.x.0 as int) - fxmul(a.x.0 as int, b.z.0 as int)
    &&& r.z.0 == fxmul(a.x.0 as int, b.y.0 as int) - fxmul(a.y.0 as int, b.x.0 as int)
}

/// `r` is `v` divided by its own length; a vector of length zero on the
/// grid is left unchanged.
pub open spec fn is_normalized(r: Vec3, v: Vec3) -> bool {
    if len_raw(v) == 0 {
        r == v
    } else {
        &&& r.x.0 == fxdiv(v.x.0 as int, len_raw(v))
        &&& r.y.0 == fxdiv(v.y.0 as int, len_raw(v))
        &&& r.z.0 == fxdiv(v.z.0 as int, len_raw(v))
    }
}

/// `r` is `v` mirrored about the normal `n`: `v - 2 (v.n) n`.
pub open spec fn is_reflect(r: Vec3, v: Vec3, n: Vec3) -> bool {
    &&& r.x.0 == v.x.0 - fxmul(2 * dot_raw(v, n), n.x.0 as int)
    &&& r.y.0 == v.y.0 - fxmul(2 * dot_raw(v, n), n.y.0 as int)
    &&& r.z.0 == v.z.0 - fxmul(2 * dot_raw(v, n), n.z.0 as int)
}

/// The cosine the refraction formula starts from: `(-uv).n`, capped at one.
pub open spec fn refract_cos(uv: Vec3, n: Vec3) -> int {
    let d = dot_raw(Vec3 { x: Fx((-uv.x.0) as i128), y: Fx((-uv.y.0) as i128), z: Fx((-uv.z.0) as i128) }, n);
    if d <= SCALE as int {
        d
    } else {
        SCALE as int
    }
}

/// Component of the in-plane part of the refracted direction.
pub open spec fn refract_perp(uvc: int, nc: int, cos: int, etai: int) -> int {
    fxmul(etai, uvc + fxmul(cos, nc))
}

/// The in-plane part of the refracted direction, as a vector.
pub open spec fn refract_perp_vec(uv: Vec3, n: Vec3, etai: int) -> Vec3 {
    let cos = refract_cos(uv, n);
    Vec3 {
        x: Fx(refract_perp(uv.x.0 as int, n.x.0 as int, cos, etai) as i128),
        y: Fx(refract_perp(uv.y.0 as int, n.y.0 as int, cos, etai) as i128),
        z: Fx(refract_perp(uv.z.0 as int, n.z.0 as int, cos, etai) as i128),
    }
}

/// Raw coefficient of the normal in the refracted direction:
/// `-sqrt(|1 - |perp|^2|)`.
pub open spec fn refract_par_coeff(uv: Vec3, n: Vec3, etai: int) -> int {
    let k = SCALE as int - len_sq_raw(refract_perp_vec(uv, n, etai));
    -fxsqrt(if k >= 0 { k } else { -k })
}

/// `r` is the refraction of the unit direction `uv` at a surface with unit
/// normal `n` and relative index `etai`.
pub open spec fn is_refract(r: Vec3, uv: Vec3, n: Vec3, etai: int) -> bool {
    let perp = refract_perp_vec(uv, n, etai);
    let pc = refract_par_coeff(uv, n, etai);
    &&& r.x.0 == perp.x.0 + fxmul(pc, n.x.0 as int)
    &&& r.y.0 == perp.y.0 + fxmul(pc, n.y.0 as int)
    &&& r.z.0 == perp.z.0 + fxmul(pc, n.z.0 as int)
}

/// The component-wise sum, as a value.
pub open spec fn add_vv(a: Vec3, b: Vec3) -> Vec3 {
    Vec3 {
        x: Fx((a.x.0 + b.x.0) as i128),
        y: Fx((a.y.0 + b.y.0) as i128),
        z: Fx((a.z.0 + b.z.0) as i128),
    }
}

/// The scaled vector, as a value.
pub open spec fn scale_vv(k: Fx, v: Vec3) -> Vec3 {
    Vec3 {
        x: Fx(fxmul(k.0 as int, v.x.0 as int) as i128),
        y: Fx(fxmul(k.0 as int, v.y.0 as int) as i128),
        z: Fx(fxmul(k.0 as int, v.z.0 as int) as i128),
    }
}

/// The cross product, as a value.
pub open spec fn cross_vv(a: Vec3, b: Vec3) -> Vec3 {
    Vec3 {
        x: Fx((fxmul(a.y.0 as int, b.z.0 as int) - fxmul(a.z.0 as int, b.y.0 as int)) as i128),
        y: Fx((fxmul(a.z.0 as int, b.x.0 as int) - fxmul(a.x.0 as int, b.z.0 as int)) as i128),
        z: Fx((fxmul(a.x.0 as int, b.y.0 as int) - fxmul(a.y.0 as int, b.x.0 as int)) as i128),
    }
}

/// The normalization, as a value.
pub open spec fn normalized_vv(v: Vec3) -> Vec3 {
    if len_raw(v) == 0 {
        v
    } else {
        Vec3 {
            x: Fx(fxdiv(v.x.0 as int, len_raw(v)) as i128),
            y: Fx(fxdiv(v.y.0 as int, len_raw(v)) as i128),
            z: Fx(fxdiv(v.z.0 as int, len_raw(v)) as i128),
        }
    }
}

/// The reflection, as a value.
pub open spec fn reflect_vv(v: Vec3, n: Vec3) -> Vec3 {
    Vec3 {
        x: Fx((v.x.0 - fxmul(2 * dot_raw(v, n), n.x.0 as int)) as i128),
        y: Fx((v.y.0 - fxmul(2 * dot_raw(v, n), n.y.0 as int)) as i128),
        z: Fx((v.z.0 - fxmul(2 * dot_raw(v, n), n.z.0 as int)) as i128),
    }
}

/// The refraction, as a value.
pub open spec fn refract_vv(uv: Vec3, n: Vec3, etai: int) -> Vec3 {
    let perp = refract_perp_vec(uv, n, etai);
    let pc = refract_par_coeff(uv, n, etai);
    Vec3 {
        x: Fx((perp.x.0 + fxmul(pc, n.x.0 as int)) as i128),
        y: Fx((perp.y.0 + fxmul(pc, n.y.0 as int)) as i128),
        z: Fx((perp.z.0 + fxmul(pc, n.z.0 as int)) as i128),
    }
}

/// A unit vector along one of the six signed axes.
pub open spec fn axis_unit(n: Vec3) -> bool {
    ||| n == (Vec3 { x: Fx(ONE_RAW), y: Fx(0), z: Fx(0) })
    ||| n == (Vec3 { x: Fx((-ONE_RAW) as i128), y: Fx(0), z: Fx(0) })
    ||| n == (Vec3 { x: Fx(0), y: Fx(ONE_RAW), z: Fx(0) })
    ||| n == (Vec3 { x: Fx(0), y: Fx((-ONE_RAW) as i128), z: Fx(0) })
    ||| n == (Vec3 { x: Fx(0), y: Fx(0), z: Fx(ONE_RAW) })
    ||| n == (Vec3 { x: Fx(0), y: Fx(0), z: Fx((-ONE_RAW) as i128) })
}

/// Law: at normal incidence along a coordinate axis, a relative
/// refraction index of one leaves the direction unchanged.
pub proof fn lemma_refract_identity_normal(uv: Vec3, n: Vec3)
    requires
        axis_unit(n),
        uv.x.0 == -n.x.0,
        uv.y.0 == -n.y.0,
        uv.z.0 == -n.z.0,
    ensures
        refract_vv(uv, n, SCALE as int) == uv,
{
    let s = SCALE as int;
    vstd::arithmetic::div_mod::lemma_div_multiples_vanish(s, s);
    vstd::arithmetic::div_mod::lemma_div_multiples_vanish(-s, s);
    assert(tdiv(s * s, s) == s);
    assert(tdiv((-s) * s, s) == -s) by {
        assert((-s) * s == -(s * s)) by (nonlinear_arith);
    }
    assert((n.x.0 == 921600 && n.y.0 == 0 && n.z.0 == 0) || (n.x.0 == -921600 && n.y.0 == 0
        && n.z.0 == 0) || (n.x.0 == 0 && n.y.0 == 921600 && n.z.0 == 0) || (n.x.0 == 0 && n.y.0
        == -921600 && n.z.0 == 0) || (n.x.0 == 0 && n.y.0 == 0 && n.z.0 == 921600) || (n.x.0 == 0
        && n.y.0 == 0 && n.z.0 == -921600));
    assert(n.x.0 * n.x.0 + n.y.0 * n.y.0 + n.z.0 * n.z.0 == 849346560000) by (nonlinear_arith)
        requires
            (n.x.0 == 921600 && n.y.0 == 0 && n.z.0 == 0) || (n.x.0 == -921600 && n.y.0 == 0
                && n.z.0 == 0) || (n.x.0 == 0 && n.y.0 == 921600 && n.z.0 == 0) || (n.x.0 == 0
                && n.y.0 == -921600 && n.z.0 == 0) || (n.x.0 == 0 && n.y.0 == 0 && n.z.0
                == 921600) || (n.x.0 == 0 && n.y.0 == 0 && n.z.0 == -921600),
    ;
    let mu = Vec3 { x: Fx((-uv.x.0) as i128), y: Fx((-uv.y.0) as i128), z: Fx((-uv.z.0) as i128) };
    assert(mu.x.0 * n.x.0 == n.x.0 * n.x.0 && mu.y.0 * n.y.0 == n.y.0 * n.y.0 && mu.z.0 * n.z.0
        == n.z.0 * n.z.0) by (nonlinear_arith)
        requires
            mu.x.0 == n.x.0 && mu.y.0 == n.y.0 && mu.z.0 == n.z.0,
    ;
    assert(dot_raw(mu, n) == s);
    assert(refract_cos(uv, n) == s);
    assert(fxmul(s, n.x.0 as int) == n.x.0 && fxmul(s, n.y.0 as int) == n.y.0 && fxmul(
        s,
        n.z.0 as int,
    ) == n.z.0) by {
        assert(s * 0 == 0) by (nonlinear_arith);
    }
    let perp = refract_perp_vec(uv, n, s);
    assert(perp == (Vec3 { x: Fx(0), y: Fx(0), z: Fx(0) }));
    assert(len_sq_raw(perp) == 0);
    crate::fx::lemma_isqrt_square(s);
    assert(fxsqrt(s) == s);
    assert(refract_par_coeff(uv, n, s) == -s);
    assert(fxmul(-s, n.x.0 as int) == -n.x.0 && fxmul(-s, n.y.0 as int) == -n.y.0 && fxmul(
        -s,
        n.z.0 as int,
    ) == -n.z.0) by {
        assert((-s) * 0 == 0) by (nonlinear_arith);
        assert((-s) * s == -(s * s) && (-s) * (-s) == s * s) by (nonlinear_arith);
        vstd::arithmetic::div_mod::lemma_div_multiples_vanish(s, s);
        vstd::arithmetic::div_mod::lemma_div_multiples_vanish(-s, s);
    }
}

/// Law: with a relative refraction index of one, refraction returns the
/// incoming direction unchanged, for any direction that is exactly unit
/// length on the grid and meets the axis normal at non-grazing incidence.
pub proof fn lemma_refract_identity_unit_index(uv: Vec3, n: Vec3)
    requires
        n == (Vec3 { x: Fx(0), y: Fx(0), z: Fx(ONE_RAW) }),
        uv.x.0 * uv.x.0 + uv.y.0 * uv.y.0 + uv.z.0 * uv.z.0 == (SCALE as int) * SCALE,
        uv.z.0 <= -(SCALE as int) / 2,
    ensures
        refract_vv(uv, n, SCALE as int) == uv,
{
    let s = SCALE as int;
    let ux = uv.x.0 as int;
    let uy = uv.y.0 as int;
    let uz = uv.z.0 as int;
    assert(ux * ux >= 0 && uy * uy >= 0 && uz * uz >= 0) by (nonlinear_arith);
    assert(uz * uz <= s * s);
    assert(-s <= uz) by (nonlinear_arith)
        requires
            uz * uz <= s * s,
            uz < 0,
            s > 0,
    ;
    assert(ux * ux <= s * s && uy * uy <= s * s);
    assert(-s <= ux <= s && -s <= uy <= s) by (nonlinear_arith)
        requires
            ux * ux <= s * s,
            uy * uy <= s * s,
            s > 0,
    ;
    // The cosine is the exact negated z component.
    vstd::arithmetic::div_mod::lemma_div_multiples_vanish(-uz, s);
    assert((-uz) * s == s * (-uz)) by (nonlinear_arith);
    assert(tdiv((-uz) * s, s) == -uz);
    let mu = Vec3 { x: Fx((-uv.x.0) as i128), y: Fx((-uv.y.0) as i128), z: Fx((-uv.z.0) as i128) };
    assert(mu.x.0 * n.x.0 == 0 && mu.y.0 * n.y.0 == 0 && mu.z.0 * n.z.0 == (-uz) * s)
        by (nonlinear_arith)
        requires
            n.x.0 == 0 && n.y.0 == 0 && n.z.0 == s,
            mu.x.0 == -ux && mu.y.0 == -uy && mu.z.0 == -uz,
    ;
    assert(dot_raw(mu, n) == -uz);
    let cos = refract_cos(uv, n);
    assert(cos == -uz);
    // Multiplying by one or by zero is exact.
    vstd::arithmetic::div_mod::lemma_div_multiples_vanish(cos, s);
    assert(cos * s == s * cos) by (nonlinear_arith);
    assert(fxmul(cos, s) == cos);
    assert(fxmul(cos, 0int) == 0) by {
        assert(cos * 0 == 0) by (nonlinear_arith);
    }
    assert(fxmul(s, ux) == ux && fxmul(s, uy) == uy) by {
        vstd::arithmetic::div_mod::lemma_div_multiples_vanish(ux, s);
        vstd::arithmetic::div_mod::lemma_div_multiples_vanish(-ux, s);
        vstd::arithmetic::div_mod::lemma_div_multiples_vanish(uy, s);
        vstd::arithmetic::div_mod::lemma_div_multiples_vanish(-uy, s);
        assert(s * ux == ux * s && s * uy == uy * s && s * (-ux) == (-ux) * s && s * (-uy) == (-uy)
            * s && -(ux * s) == (-ux) * s && -(uy * s) == (-uy) * s) by (nonlinear_arith);
    }
    assert(fxmul(s, 0int) == 0) by {
        assert(s * 0 == 0) by (nonlinear_arith);
    }
    let perp = refract_perp_vec(uv, n, s);
    assert(perp.x.0 == ux && perp.y.0 == uy && perp.z.0 == 0);
    // The squared in-plane length, rounded down.
    let a = ux * ux + uy * uy;
    assert(a == s * s - uz * uz);
    assert(len_sq_raw(perp) == tdiv(a, s)) by (nonlinear_arith)
        requires
            perp.x.0 == ux && perp.y.0 == uy && perp.z.0 == 0,
            len_sq_raw(perp) == tdiv(
                perp.x.0 * perp.x.0 + perp.y.0 * perp.y.0 + perp.z.0 * perp.z.0,
                s,
            ),
            a == ux * ux + uy * uy,
    ;
    vstd::arithmetic::div_mod::lemma_fundamental_div_mod(a, s);
    vstd::arithmetic::div_mod::lemma_div_pos_is_pos(a, s);
    assert(tdiv(a, s) == a / s);
    let k = s - a / s;
    vstd::arithmetic::div_mod::lemma_div_is_ordered(a, s * s, s);
    vstd::arithmetic::div_mod::lemma_div_multiples_vanish(s, s);
    assert((s * s) / s == s) by {
        assert(s * s == s * s);
    }
    assert(k >= 0);
    // The square root argument is the squared z component plus the
    // division remainder, which non-grazing incidence keeps below the
    // next square.
    assert(k * s == s * s - (a / s) * s) by (nonlinear_arith)
        requires
            k == s - a / s,
    ;
    assert((a / s) * s == a - a % s) by (nonlinear_arith)
        requires
            a == s * (a / s) + a % s,
    ;
    assert(k * s == uz * uz + a % s);
    assert(uz * uz == (-uz) * (-uz)) by (nonlinear_arith);
    assert(k * s < ((-uz) + 1) * ((-uz) + 1)) by (nonlinear_arith)
        requires
            k * s == (-uz) * (-uz) + a % s,
            a % s < s,
            2 * (-uz) >= s,
    ;
    crate::fx::lemma_isqrt_is(k * s, -uz);
    assert(fxsqrt(k) == -uz);
    assert(refract_par_coeff(uv, n, s) == uz);
    // Scaling the axis normal by the coefficient restores the z component.
    assert(fxmul(uz, s) == uz) by {
        vstd::arithmetic::div_mod::lemma_div_multiples_vanish(uz, s);
        vstd::arithmetic::div_mod::lemma_div_multiples_vanish(-uz, s);
        assert(uz * s == s * uz && (-uz) * s == s * (-uz) && -(uz * s) == (-uz) * s)
            by (nonlinear_arith);
    }
    assert(fxmul(uz, 0int) == 0) by {
        assert(uz * 0 == 0) by (nonlinear_arith);
    }
}

impl Vec3 {
    pub fn new(x: Fx, y: Fx, z: Fx) -> (r: Vec3)
        ensures
            r == (Vec3 { x, y, z }),
    {
        Vec3 { x, y, z }
    }

    pub fn zero() -> (r: Vec3)
        ensures
            r.x.0 == 0 && r.y.0 == 0 && r.z.0 == 0,
    {
        Vec3 { x: Fx(0), y: Fx(0), z: Fx(0) }
    }

    /// Whether every component vanishes.  The representation grid is far
    /// coarser than the float epsilon this test replaces, so only the exact
    /// zero vector counts as degenerate.
    pub fn near_zero(&self) -> (r: bool)
        ensures
            r == (self.x.0 == 0 && self.y.0 == 0 && self.z.0 == 0),
    {
        self.x.0 == 0 && self.y.0 == 0 && self.z.0 == 0
    }

    /// The component on the given axis.
    pub fn axis_comp(&self, a: Axis) -> (r: Fx)
        ensures
            r == self.spec_axis_comp(a),
    {
        match a {
            Axis::X => self.x,
            Axis::Y => self.y,
            Axis::Z => self.z,
        }
    }

    pub open spec fn spec_axis_comp(self, a: Axis) -> Fx {
        match a {
            Axis::X => self.x,
            Axis::Y => self.y,
            Axis::Z => self.z,
        }
    }

    pub fn add(self, o: Vec3) -> (r: Vec3)
        requires
            -DIVIN <= self.x.0 + o.x.0 <= DIVIN,
            -DIVIN <= self.y.0 + o.y.0 <= DIVIN,
            -DIVIN <= self.z.0 + o.z.0 <= DIVIN,
        ensures
            is_vadd(r, self, o),
    {
        Vec3 { x: self.x.add(o.x), y: self.y.add(o.y), z: self.z.add(o.z) }
    }

    pub fn sub(self, o: Vec3) -> (r: Vec3)
        requires
            -DIVIN <= self.x.0 - o.x.0 <= DIVIN,
            -DIVIN <= self.y.0 - o.y.0 <= DIVIN,
            -DIVIN <= self.z.0 - o.z.0 <= DIVIN,
        ensures
            is_vsub(r, self, o),
    {
        Vec3 { x: self.x.sub(o.x), y: self.y.sub(o.y), z: self.z.sub(o.z) }
    }

    pub fn neg(self) -> (r: Vec3)
        requires
            vec_in(self, DIVIN as int),
        ensures
            r.x.0 == -self.x.0 && r.y.0 == -self.y.0 && r.z.0 == -self.z.0,
    {
        Vec3 { x: self.x.neg(), y: self.y.neg(), z: self.z.neg() }
    }

    /// Scale by a scalar.
    pub fn scale(self, k: Fx) -> (r: Vec3)
        requires
            -MULIN <= k.0 <= MULIN,
            vec_in(self, MULIN as int),
        ensures
            is_scale(r, k, self),
    {
        Vec3 { x: k.mul(self.x), y: k.mul(self.y), z: k.mul(self.z) }
    }

    /// Component-wise product.
    pub fn mul_elem(self, o: Vec3) -> (r: Vec3)
        requires
            vec_in(self, MULIN as int),
            vec_in(o, MULIN as int),
        ensures
            is_mul_elem(r, self, o),
    {
        Vec3 { x: self.x.mul(o.x), y: self.y.mul(o.y), z: self.z.mul(o.z) }
    }

    pub fn length_squared(&self) -> (r: Fx)
        requires
            vec_in(*self, DOT_IN as int),
        ensures
            r.0 == len_sq_raw(*self),
            r.0 >= 0,
    {
        let r = dot(self, self);
        proof {
            lemma_dot_self_nonneg(*self);
        }
        r
    }

    pub fn length(&self) -> (r: Fx)
        requires
            vec_in(*self, CROSS_IN as int),
        ensures
            r.0 == len_raw(*self),
            r.0 >= 0,
    {
        proof {
            lemma_dot_mag(*self, *self, CROSS_IN as int, CROSS_IN as int);
        }
        self.length_squared().sqrt()
    }

    /// The vector scaled to unit length on the grid; the zero vector is
    /// returned unchanged.
    pub fn normalized(&self) -> (r: Vec3)
        requires
            vec_in(*self, CROSS_IN as int),
        ensures
            is_normalized(r, *self),
            vec_in(r, NMAX as int),
    {
        let len = self.length();
        if len.0 == 0 {
            proof {
                lemma_small_vector_comps(*self);
            }
            *self
        } else {
            proof {
                lemma_norm_bounded(*self, len.0 as int);
            }
            Vec3 { x: self.x.div(len), y: self.y.div(len), z: self.z.div(len) }
        }
    }
}

/// A marker naming one considered rejection sample.
pub open spec fn sample_of(p: Vec3) -> bool {
    true
}

/// A value the unit-direction sampler can yield: the normalization of a
/// sample accepted from the spherical shell between one half and one, or
/// the x axis standing in after too many rejections.
pub open spec fn unit_dir_ok(r: Vec3) -> bool {
    ||| r == (Vec3 { x: Fx(ONE_RAW), y: Fx(0), z: Fx(0) })
    ||| exists|p: Vec3|
        #[trigger] sample_of(p) && vec_in(p, ONE_RAW as int) && 230400 <= len_sq_raw(p)
            < SCALE as int && is_normalized(r, p)
}

impl Vec3 {
    /// A vector with each component drawn uniformly from `[lo, hi)`.
    pub fn random(rng: &mut crate::rng::RandomSource, lo: Fx, hi: Fx) -> (r: Vec3)
        requires
            lo.0 < hi.0,
            -(crate::fx::ONE_RAW as int) * crate::fx::ONE_RAW <= lo.0,
            hi.0 <= (crate::fx::ONE_RAW as int) * crate::fx::ONE_RAW,
        ensures
            lo.0 <= r.x.0 < hi.0,
            lo.0 <= r.y.0 < hi.0,
            lo.0 <= r.z.0 < hi.0,
    {
        Vec3 {
            x: rng.next_range(lo, hi),
            y: rng.next_range(lo, hi),
            z: rng.next_range(lo, hi),
        }
    }

    /// A direction drawn uniformly over the sphere: a sample from the cube
    /// is accepted once it lands in a spherical shell, then normalized.
    /// After many rejections in a row the x axis stands in, so the result
    /// is never the zero vector.
    pub fn random_unit_vector(rng: &mut crate::rng::RandomSource) -> (r: Vec3)
        ensures
            vec_in(r, NMAX as int),
            !(r.x.0 == 0 && r.y.0 == 0 && r.z.0 == 0),
            unit_dir_ok(r),
    {
        let mut attempts: u8 = 0;
        while attempts < 64
            invariant
                attempts <= 64,
            decreases 64 - attempts,
        {
            let p = Vec3::random(rng, Fx(-ONE_RAW), Fx(ONE_RAW));
            let lsq = p.length_squared();
            if 230400 <= lsq.0 && lsq.0 < 921600 {
                proof {
                    lemma_unit_sample_ok(p, lsq.0 as int);
                }
                let len = lsq.sqrt();
                let r = Vec3 { x: p.x.div(len), y: p.y.div(len), z: p.z.div(len) };
                proof {
                    assert(sample_of(p));
                    assert(is_normalized(r, p));
                }
                return r;
            }
            attempts = attempts + 1;
        }
        Vec3 { x: Fx(ONE_RAW), y: Fx(0), z: Fx(0) }
    }

    /// A unit direction on the side of the surface the normal points to.
    pub fn random_on_hemisphere(rng: &mut crate::rng::RandomSource, normal: &Vec3) -> (r: Vec3)
        requires
            vec_in(*normal, DOT_IN as int),
        ensures
            vec_in(r, NMAX as int),
            !(r.x.0 == 0 && r.y.0 == 0 && r.z.0 == 0),
            dot_raw(r, *normal) >= 0,
    {
        let on_unit_sphere = Vec3::random_unit_vector(rng);
        let d = dot(&on_unit_sphere, normal);
        if d.0 > 0 {
            on_unit_sphere
        } else {
            proof {
                lemma_dot_neg(on_unit_sphere, *normal);
            }
            on_unit_sphere.neg()
        }
    }

    /// A point drawn uniformly from the unit disk in the xy plane.
    pub fn random_in_unit_disk(rng: &mut crate::rng::RandomSource) -> (r: Vec3)
        ensures
            vec_in(r, ONE_RAW as int),
            len_sq_raw(r) < SCALE,
            r.z.0 == 0,
    {
        let mut attempts: u8 = 0;
        while attempts < 64
            invariant
                attempts <= 64,
            decreases 64 - attempts,
        {
            let p = Vec3 {
                x: rng.next_range(Fx(-ONE_RAW), Fx(ONE_RAW)),
                y: rng.next_range(Fx(-ONE_RAW), Fx(ONE_RAW)),
                z: Fx(0),
            };
            let lsq = p.length_squared();
            if lsq.0 < 921600 {
                return p;
            }
            attempts = attempts + 1;
        }
        proof {
            lemma_dot_self_nonneg(Vec3 { x: Fx(0), y: Fx(0), z: Fx(0) });
            crate::fx::lemma_tdiv_abs_le(0, SCALE as int);
        }
        Vec3 { x: Fx(0), y: Fx(0), z: Fx(0) }
    }
}

/// Negating one argument negates the dot product.
pub proof fn lemma_dot_neg(a: Vec3, b: Vec3)
    requires
        vec_in(a, DIVIN as int),
    ensures
        dot_raw(Vec3 { x: Fx((-a.x.0) as i128), y: Fx((-a.y.0) as i128), z: Fx((-a.z.0) as i128) }, b)
            == -dot_raw(a, b),
{
    let s = a.x.0 * b.x.0 + a.y.0 * b.y.0 + a.z.0 * b.z.0;
    assert((-a.x.0) * b.x.0 == -(a.x.0 * b.x.0)) by (nonlinear_arith);
    assert((-a.y.0) * b.y.0 == -(a.y.0 * b.y.0)) by (nonlinear_arith);
    assert((-a.z.0) * b.z.0 == -(a.z.0 * b.z.0)) by (nonlinear_arith);
    assert(tdiv(-s, SCALE as int) == -tdiv(s, SCALE as int));
}

/// In the accepted shell, normalization keeps every component within twice
/// the unit and leaves at least one component away from zero.
proof fn lemma_unit_sample_ok(p: Vec3, lsq: int)
    requires
        vec_in(p, ONE_RAW as int),
        lsq == len_sq_raw(p),
        230400 <= lsq < 921600,
    ensures
        0 <= lsq <= DIVIN,
        forall|c: int|
            -(ONE_RAW as int) <= c <= ONE_RAW as int ==> -(NMAX as int) <= #[trigger] fxdiv(
                c,
                fxsqrt(lsq),
            ) <= NMAX as int,
        460800 <= fxsqrt(lsq) < SCALE,
        fxdiv(p.x.0 as int, fxsqrt(lsq)) != 0 || fxdiv(p.y.0 as int, fxsqrt(lsq)) != 0 || fxdiv(
            p.z.0 as int,
            fxsqrt(lsq),
        ) != 0,
{
    let n = lsq * (SCALE as int);
    crate::fx::lemma_isqrt_ge_of_sq(n, 460800);
    crate::fx::lemma_isqrt_lt_of_sq(n, SCALE as int);
    let len = fxsqrt(lsq);
    assert forall|c: int| -(ONE_RAW as int) <= c <= ONE_RAW as int implies -(NMAX as int)
        <= #[trigger] fxdiv(c, len) <= NMAX as int by {
        crate::fx::lemma_tdiv_mag_le(
            c * SCALE,
            (ONE_RAW as int) * SCALE,
            len,
        );
        vstd::arithmetic::div_mod::lemma_div_is_ordered_by_denominator(
            (ONE_RAW as int) * SCALE,
            460800,
            len,
        );
    }
    // At least one component is at least one raw step, since the raw square
    // sum reaches a quarter of one.
    let sum = p.x.0 * p.x.0 + p.y.0 * p.y.0 + p.z.0 * p.z.0;
    vstd::arithmetic::div_mod::lemma_fundamental_div_mod(sum, SCALE as int);
    assert(p.x.0 * p.x.0 >= 0 && p.y.0 * p.y.0 >= 0 && p.z.0 * p.z.0 >= 0) by (nonlinear_arith);
    assert(sum >= 230400 * (SCALE as int));
    assert(p.x.0 * p.x.0 >= 70778880000 || p.y.0 * p.y.0 >= 70778880000 || p.z.0 * p.z.0
        >= 70778880000);
    if p.x.0 * p.x.0 >= 70778880000 {
        assert(p.x.0 >= 1 || p.x.0 <= -1) by (nonlinear_arith)
            requires
                p.x.0 * p.x.0 >= 70778880000,
        ;
        crate::fx::lemma_tdiv_unit_mag(p.x.0 * (SCALE as int), len);
    } else if p.y.0 * p.y.0 >= 70778880000 {
        assert(p.y.0 >= 1 || p.y.0 <= -1) by (nonlinear_arith)
            requires
                p.y.0 * p.y.0 >= 70778880000,
        ;
        crate::fx::lemma_tdiv_unit_mag(p.y.0 * (SCALE as int), len);
    } else {
        assert(p.z.0 >= 1 || p.z.0 <= -1) by (nonlinear_arith)
            requires
                p.z.0 * p.z.0 >= 70778880000,
        ;
        crate::fx::lemma_tdiv_unit_mag(p.z.0 * (SCALE as int), len);
    }
}

/// A vector whose length rounds to zero has every component under one unit.
proof fn lemma_small_vector_comps(v: Vec3)
    requires
        vec_in(v, CROSS_IN as int),
        len_raw(v) == 0,
    ensures
        vec_in(v, 960),
{
    let sum = v.x.0 * v.x.0 + v.y.0 * v.y.0 + v.z.0 * v.z.0;
    assert(v.x.0 * v.x.0 >= 0 && v.y.0 * v.y.0 >= 0 && v.z.0 * v.z.0 >= 0) by (nonlinear_arith);
    lemma_dot_self_nonneg(v);
    crate::fx::lemma_isqrt_bounds(len_sq_raw(v) * (SCALE as int));
    // A zero floor root forces the squared length below one grid step.
    if len_sq_raw(v) >= 1 {
        crate::fx::lemma_isqrt_ge_of_sq(len_sq_raw(v) * (SCALE as int), 960);
    }
    vstd::arithmetic::div_mod::lemma_fundamental_div_mod(sum, SCALE as int);
    assert(sum < SCALE as int);
    assert(vec_in(v, 960)) by (nonlinear_arith)
        requires
            v.x.0 * v.x.0 + v.y.0 * v.y.0 + v.z.0 * v.z.0 < 921600,
            v.x.0 * v.x.0 >= 0,
            v.y.0 * v.y.0 >= 0,
            v.z.0 * v.z.0 >= 0,
    ;
}

/// Dividing a vector by its own rounded length keeps every component
/// within twice the unit.
proof fn lemma_norm_bounded(v: Vec3, len: int)
    requires
        vec_in(v, CROSS_IN as int),
        len == len_raw(v),
        len != 0,
    ensures
        forall|c: int|
            c == v.x.0 || c == v.y.0 || c == v.z.0 ==> -(NMAX as int) <= #[trigger] fxdiv(c, len)
                <= NMAX as int,
        len >= 960,
{
    let sum = v.x.0 * v.x.0 + v.y.0 * v.y.0 + v.z.0 * v.z.0;
    let lsq = len_sq_raw(v);
    assert(v.x.0 * v.x.0 >= 0 && v.y.0 * v.y.0 >= 0 && v.z.0 * v.z.0 >= 0) by (nonlinear_arith);
    lemma_dot_self_nonneg(v);
    vstd::arithmetic::div_mod::lemma_fundamental_div_mod(sum, SCALE as int);
    if lsq == 0 {
        crate::fx::lemma_isqrt_is(0, 0);
        assert(false);
    }
    vstd::arithmetic::mul::lemma_mul_strictly_positive(lsq, SCALE as int);
    crate::fx::lemma_isqrt_bounds(lsq * (SCALE as int));
    crate::fx::lemma_isqrt_ge_of_sq(lsq * (SCALE as int), 960);
    // The squared length lies below four squares of the rounded length.
    assert(lsq * (SCALE as int) > sum - (SCALE as int));
    assert(sum < (len + 1) * (len + 1) + SCALE);
    assert(sum < 4 * (len * len)) by (nonlinear_arith)
        requires
            sum < (len + 1) * (len + 1) + 921600,
            len >= 960,
    ;
    assert forall|c: int| c == v.x.0 || c == v.y.0 || c == v.z.0 implies -(NMAX as int)
        <= #[trigger] fxdiv(c, len) <= NMAX as int by {
        assert(c * c <= sum);
        assert(-(2 * len) <= c <= 2 * len) by (nonlinear_arith)
            requires
                c * c <= sum,
                sum < 4 * (len * len),
                len >= 1,
        ;
        crate::fx::lemma_mul_abs_le(c, SCALE as int, 2 * len, SCALE as int);
        crate::fx::lemma_tdiv_mag_le(c * SCALE, 2 * len * SCALE, len);
        vstd::arithmetic::div_mod::lemma_div_multiples_vanish(2 * (SCALE as int), len);
        assert(2 * len * (SCALE as int) == len * (2 * (SCALE as int))) by (nonlinear_arith);
    }
}

/// The dot product of a vector with itself is nonnegative.
pub proof fn lemma_dot_self_nonneg(v: Vec3)
    ensures
        len_sq_raw(v) >= 0,
{
    assert(v.x.0 * v.x.0 >= 0 && v.y.0 * v.y.0 >= 0 && v.z.0 * v.z.0 >= 0) by (nonlinear_arith);
    lemma_tdiv_abs_le(v.x.0 * v.x.0 + v.y.0 * v.y.0 + v.z.0 * v.z.0, SCALE as int);
}

/// Magnitude bound on a dot product from bounds on the operands.
pub proof fn lemma_dot_mag(a: Vec3, b: Vec3, m: int, n: int)
    requires
        0 <= m,
        0 <= n,
        vec_in(a, m),
        vec_in(b, n),
    ensures
        -(3 * (m * n) / (SCALE as int)) <= dot_raw(a, b) <= 3 * (m * n) / (SCALE as int),
{
    lemma_mul_abs_le(a.x.0 as int, b.x.0 as int, m, n);
    lemma_mul_abs_le(a.y.0 as int, b.y.0 as int, m, n);
    lemma_mul_abs_le(a.z.0 as int, b.z.0 as int, m, n);
    vstd::arithmetic::mul::lemma_mul_nonnegative(m, n);
    crate::fx::lemma_tdiv_mag_le(
        a.x.0 * b.x.0 + a.y.0 * b.y.0 + a.z.0 * b.z.0,
        3 * (m * n),
        SCALE as int,
    );
}

/// The dot product, with the exact raw sum rounded once.
pub fn dot(lhs: &Vec3, rhs: &Vec3) -> (r: Fx)
    requires
        vec_in(*lhs, DOT_IN as int),
        vec_in(*rhs, DOT_IN as int),
    ensures
        r.0 == dot_raw(*lhs, *rhs),
{
    proof {
        lemma_mul_abs_le(lhs.x.0 as int, rhs.x.0 as int, DOT_IN as int, DOT_IN as int);
        lemma_mul_abs_le(lhs.y.0 as int, rhs.y.0 as int, DOT_IN as int, DOT_IN as int);
        lemma_mul_abs_le(lhs.z.0 as int, rhs.z.0 as int, DOT_IN as int, DOT_IN as int);
    }
    let s: i128 = lhs.x.0 * rhs.x.0 + lhs.y.0 * rhs.y.0 + lhs.z.0 * rhs.z.0;
    proof {
        lemma_tdiv_abs_le(s as int, SCALE as int);
    }
    Fx(s.checked_div(SCALE).unwrap())
}

/// The cross product on the grid.
pub fn cross(lhs: &Vec3, rhs: &Vec3) -> (r: Vec3)
    requires
        vec_in(*lhs, CROSS_IN as int),
        vec_in(*rhs, CROSS_IN as int),
    ensures
        is_cross(r, *lhs, *rhs),
{
    proof {
        crate::fx::lemma_fxmul_mag(lhs.y.0 as int, rhs.z.0 as int, CROSS_IN as int, CROSS_IN as int);
        crate::fx::lemma_fxmul_mag(lhs.z.0 as int, rhs.y.0 as int, CROSS_IN as int, CROSS_IN as int);
        crate::fx::lemma_fxmul_mag(lhs.z.0 as int, rhs.x.0 as int, CROSS_IN as int, CROSS_IN as int);
        crate::fx::lemma_fxmul_mag(lhs.x.0 as int, rhs.z.0 as int, CROSS_IN as int, CROSS_IN as int);
        crate::fx::lemma_fxmul_mag(lhs.x.0 as int, rhs.y.0 as int, CROSS_IN as int, CROSS_IN as int);
        crate::fx::lemma_fxmul_mag(lhs.y.0 as int, rhs.x.0 as int, CROSS_IN as int, CROSS_IN as int);
    }
    Vec3 {
        x: lhs.y.mul(rhs.z).sub(lhs.z.mul(rhs.y)),
        y: lhs.z.mul(rhs.x).sub(lhs.x.mul(rhs.z)),
        z: lhs.x.mul(rhs.y).sub(lhs.y.mul(rhs.x)),
    }
}

/// Reflection of `v` about the surface normal `n`.
pub fn reflect(v: &Vec3, n: &Vec3) -> (r: Vec3)
    requires
        vec_in(*v, crate::fx::TLIM as int),
        vec_in(*n, NMAX as int),
    ensures
        is_reflect(r, *v, *n),
{
    proof {
        lemma_dot_mag(*v, *n, crate::fx::TLIM as int, NMAX as int);
        lemma_fxmul_mag_refl(dot_raw(*v, *n), *n);
    }
    let d = dot(v, n);
    let t = Fx(d.0 + d.0);
    Vec3 { x: v.x.sub(t.mul(n.x)), y: v.y.sub(t.mul(n.y)), z: v.z.sub(t.mul(n.z)) }
}

proof fn lemma_fxmul_mag_refl(d: int, n: Vec3)
    requires
        vec_in(n, NMAX as int),
        -4611686018427387904 <= 2 * d <= 4611686018427387904,
    ensures
        -9223372036854775808 <= fxmul(2 * d, n.x.0 as int) <= 9223372036854775808,
        -9223372036854775808 <= fxmul(2 * d, n.y.0 as int) <= 9223372036854775808,
        -9223372036854775808 <= fxmul(2 * d, n.z.0 as int) <= 9223372036854775808,
{
    crate::fx::lemma_fxmul_mag(2 * d, n.x.0 as int, 4611686018427387904, NMAX as int);
    crate::fx::lemma_fxmul_mag(2 * d, n.y.0 as int, 4611686018427387904, NMAX as int);
    crate::fx::lemma_fxmul_mag(2 * d, n.z.0 as int, 4611686018427387904, NMAX as int);
}

/// Refraction of the unit direction `uv` at a surface with unit normal `n`
/// and relative refraction index `etai_over_etat`.
pub fn refract(uv: &Vec3, n: &Vec3, etai_over_etat: Fx) -> (r: Vec3)
    requires
        vec_in(*uv, NMAX as int),
        vec_in(*n, NMAX as int),
        0 <= etai_over_etat.0 <= RIMAX,
    ensures
        is_refract(r, *uv, *n, etai_over_etat.0 as int),
        vec_in(r, crate::fx::DMAX as int),
{
    let minus_uv = uv.neg();
    let cos_theta = dot(&minus_uv, n).min(Fx::one());
    proof {
        lemma_dot_mag(minus_uv, *n, NMAX as int, NMAX as int);
        lemma_refract_perp_mag(*uv, *n, cos_theta.0 as int, etai_over_etat.0 as int, uv.x.0 as int, n.x.0 as int);
        lemma_refract_perp_mag(*uv, *n, cos_theta.0 as int, etai_over_etat.0 as int, uv.y.0 as int, n.y.0 as int);
        lemma_refract_perp_mag(*uv, *n, cos_theta.0 as int, etai_over_etat.0 as int, uv.z.0 as int, n.z.0 as int);
    }
    let px = etai_over_etat.mul(uv.x.add(cos_theta.mul(n.x)));
    let py = etai_over_etat.mul(uv.y.add(cos_theta.mul(n.y)));
    let pz = etai_over_etat.mul(uv.z.add(cos_theta.mul(n.z)));
    let perp = Vec3 { x: px, y: py, z: pz };
    proof {
        lemma_dot_mag(perp, perp, 3133440000, 3133440000);
    }
    let lsq = perp.length_squared();
    let k = Fx::one().sub(lsq).abs();
    let s = k.sqrt();
    proof {
        crate::fx::lemma_isqrt_le_of_sq(k.0 * (SCALE as int), 8589934592);
        crate::fx::lemma_fxmul_mag(-s.0 as int, n.x.0 as int, 8589934592, NMAX as int);
        crate::fx::lemma_fxmul_mag(-s.0 as int, n.y.0 as int, 8589934592, NMAX as int);
        crate::fx::lemma_fxmul_mag(-s.0 as int, n.z.0 as int, 8589934592, NMAX as int);
    }
    let sm = s.neg();
    Vec3 { x: px.add(sm.mul(n.x)), y: py.add(sm.mul(n.y)), z: pz.add(sm.mul(n.z)) }
}

proof fn lemma_refract_perp_mag(uv: Vec3, n: Vec3, cos: int, etai: int, c: int, nc: int)
    requires
        vec_in(uv, NMAX as int),
        vec_in(n, NMAX as int),
        -16 * SCALE <= cos <= 16 * SCALE,
        0 <= etai <= RIMAX,
        -(NMAX as int) <= c <= NMAX as int,
        -(NMAX as int) <= nc <= NMAX as int,
    ensures
        -3133440000 <= refract_perp(c, nc, cos, etai) <= 3133440000,
        -16 * (NMAX as int) <= fxmul(cos, nc) <= 16 * (NMAX as int),
{
    crate::fx::lemma_fxmul_mag(cos, nc, 14745600, 1843200);
    crate::fx::lemma_fxmul_mag(etai, c + fxmul(cos, nc), 92160000, 31334400);
}

/// Reflecting a ray-sized direction about a unit normal stays well within
/// the range later arithmetic accepts.
pub proof fn lemma_reflect_dir_bounded(v: Vec3, n: Vec3, d: Vec3)
    requires
        is_reflect(d, v, n),
        vec_in(v, crate::fx::TLIM as int),
        vec_in(n, NMAX as int),
    ensures
        vec_in(d, 27487790694400),
{
    lemma_dot_mag(v, n, crate::fx::TLIM as int, NMAX as int);
    crate::fx::lemma_fxmul_mag(2 * dot_raw(v, n), n.x.0 as int, 13194139533312, 1843200);
    crate::fx::lemma_fxmul_mag(2 * dot_raw(v, n), n.y.0 as int, 13194139533312, 1843200);
    crate::fx::lemma_fxmul_mag(2 * dot_raw(v, n), n.z.0 as int, 13194139533312, 1843200);
}

/// Reflecting a unit direction about a unit normal keeps every component
/// within the ray-direction range.
pub proof fn lemma_reflect_unit_bounded(v: Vec3, n: Vec3, d: Vec3)
    requires
        is_reflect(d, v, n),
        vec_in(v, NMAX as int),
        vec_in(n, NMAX as int),
    ensures
        vec_in(d, crate::fx::DMAX as int),
{
    lemma_dot_mag(v, n, 1843200, 1843200);
    crate::fx::lemma_fxmul_mag(2 * dot_raw(v, n), n.x.0 as int, 22118400, 1843200);
    crate::fx::lemma_fxmul_mag(2 * dot_raw(v, n), n.y.0 as int, 22118400, 1843200);
    crate::fx::lemma_fxmul_mag(2 * dot_raw(v, n), n.z.0 as int, 22118400, 1843200);
}

} // verus!
