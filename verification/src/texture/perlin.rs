//! Perlin gradient noise over the fixed-point grid.

use vstd::prelude::*;

verus! {

use crate::fx::{fxmul, Fx, MULIN, ONE_RAW, SCALE};
use crate::math::point3::{point_in, Point3};
use crate::math::vec3::{dot_raw, vec_in, Vec3, NMAX};
use crate::rng::RandomSource;

/// Largest raw coordinate magnitude `noise` accepts.
pub const NOISE_IN: i128 = 70368744177664;

/// A table of 256 random unit gradients and three random permutations of
/// the indices, combined by hashing to give each lattice corner a gradient.
pub struct Perlin {
    randvec: Vec<Vec3>,
    perm_x: Vec<usize>,
    perm_y: Vec<usize>,
    perm_z: Vec<usize>,
}

/// Each permutation table is a rearrangement of the indices 0 through
/// 255, and every gradient is a value the unit-direction sampler yields.
pub closed spec fn perlin_tables_ok(p: Perlin) -> bool {
    &&& p.perm_x@.to_multiset() == Seq::new(256, |i: int| i as usize).to_multiset()
    &&& p.perm_y@.to_multiset() == Seq::new(256, |i: int| i as usize).to_multiset()
    &&& p.perm_z@.to_multiset() == Seq::new(256, |i: int| i as usize).to_multiset()
    &&& forall|i: int|
        0 <= i < 256 ==> crate::math::vec3::unit_dir_ok(#[trigger] p.randvec@[i])
}

/// The tables have their full size, every gradient is bounded, and every
/// permutation entry indexes the gradient table.
pub closed spec fn perlin_wf(p: Perlin) -> bool {
    &&& p.randvec@.len() == 256
    &&& forall|i: int| 0 <= i < 256 ==> vec_in(#[trigger] p.randvec@[i], NMAX as int)
    &&& p.perm_x@.len() == 256 && p.perm_y@.len() == 256 && p.perm_z@.len() == 256
    &&& forall|i: int| 0 <= i < 256 ==> #[trigger] p.perm_x@[i] < 256
    &&& forall|i: int| 0 <= i < 256 ==> #[trigger] p.perm_y@[i] < 256
    &&& forall|i: int| 0 <= i < 256 ==> #[trigger] p.perm_z@[i] < 256
}

/// Hermite smoothing of a fraction: `x^2 (3 - 2x)`.
pub open spec fn hermite(x: int) -> int {
    fxmul(fxmul(x, x), 3 * SCALE - 2 * x)
}

/// The interpolation factor for one corner: the smoothed fraction when the
/// corner bit is set, its complement to one when it is clear.
pub open spec fn corner_factor(bit: int, h: int) -> int {
    if bit == 1 {
        h
    } else {
        SCALE as int - h
    }
}

/// The gradient the hash tables select for a lattice corner.
pub closed spec fn spec_corner_grad(p: Perlin, i: int, j: int, k: int) -> Vec3 {
    p.randvec@[(p.perm_x@[i % 256] ^ p.perm_y@[j % 256] ^ p.perm_z@[k % 256]) as int]
}

/// One corner's contribution to the noise value.
pub open spec fn spec_corner_term(fu: int, fv: int, fw: int, g: Vec3, wv: Vec3) -> int {
    fxmul(fxmul(fxmul(fu, fv), fw), dot_raw(g, wv))
}

/// The trilinearly interpolated noise value at `p`.
pub closed spec fn spec_noise(pe: Perlin, p: Point3) -> int {
    let i = p.0.x.0 as int / (SCALE as int);
    let j = p.0.y.0 as int / (SCALE as int);
    let k = p.0.z.0 as int / (SCALE as int);
    let u = p.0.x.0 - i * SCALE;
    let v = p.0.y.0 - j * SCALE;
    let w = p.0.z.0 - k * SCALE;
    let hu = hermite(u);
    let hv = hermite(v);
    let hw = hermite(w);
    spec_corner_sum(pe, i, j, k, u, v, w, hu, hv, hw)
}

/// The sum over the eight corners of the surrounding lattice cell.
pub closed spec fn spec_corner_sum(
    pe: Perlin,
    i: int,
    j: int,
    k: int,
    u: int,
    v: int,
    w: int,
    hu: int,
    hv: int,
    hw: int,
) -> int {
    spec_corner_term(
        corner_factor(0, hu),
        corner_factor(0, hv),
        corner_factor(0, hw),
        spec_corner_grad(pe, i, j, k),
        Vec3 { x: Fx(u as i128), y: Fx(v as i128), z: Fx(w as i128) },
    ) + spec_corner_term(
        corner_factor(0, hu),
        corner_factor(0, hv),
        corner_factor(1, hw),
        spec_corner_grad(pe, i, j, k + 1),
        Vec3 { x: Fx(u as i128), y: Fx(v as i128), z: Fx((w - SCALE) as i128) },
    ) + spec_corner_term(
        corner_factor(0, hu),
        corner_factor(1, hv),
        corner_factor(0, hw),
        spec_corner_grad(pe, i, j + 1, k),
        Vec3 { x: Fx(u as i128), y: Fx((v - SCALE) as i128), z: Fx(w as i128) },
    ) + spec_corner_term(
        corner_factor(0, hu),
        corner_factor(1, hv),
        corner_factor(1, hw),
        spec_corner_grad(pe, i, j + 1, k + 1),
        Vec3 { x: Fx(u as i128), y: Fx((v - SCALE) as i128), z: Fx((w - SCALE) as i128) },
    ) + spec_corner_term(
        corner_factor(1, hu),
        corner_factor(0, hv),
        corner_factor(0, hw),
        spec_corner_grad(pe, i + 1, j, k),
        Vec3 { x: Fx((u - SCALE) as i128), y: Fx(v as i128), z: Fx(w as i128) },
    ) + spec_corner_term(
        corner_factor(1, hu),
        corner_factor(0, hv),
        corner_factor(1, hw),
        spec_corner_grad(pe, i + 1, j, k + 1),
        Vec3 { x: Fx((u - SCALE) as i128), y: Fx(v as i128), z: Fx((w - SCALE) as i128) },
    ) + spec_corner_term(
        corner_factor(1, hu),
        corner_factor(1, hv),
        corner_factor(0, hw),
        spec_corner_grad(pe, i + 1, j + 1, k),
        Vec3 { x: Fx((u - SCALE) as i128), y: Fx((v - SCALE) as i128), z: Fx(w as i128) },
    ) + spec_corner_term(
        corner_factor(1, hu),
        corner_factor(1, hv),
        corner_factor(1, hw),
        spec_corner_grad(pe, i + 1, j + 1, k + 1),
        Vec3 { x: Fx((u - SCALE) as i128), y: Fx((v - SCALE) as i128), z: Fx((w - SCALE) as i128) },
    )
}

/// Contents equality of tables is reflexive.
pub proof fn lemma_perlin_equiv_refl(p: Perlin)
    ensures
        perlin_equiv(p, p),
{
}

/// Two tables holding the same gradients and permutations.
pub closed spec fn perlin_equiv(a: Perlin, b: Perlin) -> bool {
    &&& a.randvec@ == b.randvec@
    &&& a.perm_x@ == b.perm_x@
    &&& a.perm_y@ == b.perm_y@
    &&& a.perm_z@ == b.perm_z@
}

impl Perlin {
    /// A fresh table equal to this one in contents.
    pub fn duplicate(&self) -> (r: Perlin)
        ensures
            perlin_equiv(r, *self),
            perlin_wf(*self) ==> perlin_wf(r),
    {
        Perlin {
            randvec: crate::texture::copy_vec(&self.randvec),
            perm_x: crate::texture::copy_vec(&self.perm_x),
            perm_y: crate::texture::copy_vec(&self.perm_y),
            perm_z: crate::texture::copy_vec(&self.perm_z),
        }
    }

    /// Fresh tables: 256 random unit gradients and three shuffled
    /// permutations of the indices.
    pub fn new(rng: &mut RandomSource) -> (r: Perlin)
        ensures
            perlin_wf(r),
            perlin_tables_ok(r),
    {
        let mut randvec: Vec<Vec3> = Vec::new();
        let mut n: usize = 0;
        while n < 256
            invariant
                n <= 256,
                randvec@.len() == n,
                forall|i: int| 0 <= i < n ==> vec_in(#[trigger] randvec@[i], NMAX as int),
                forall|i: int|
                    0 <= i < n ==> crate::math::vec3::unit_dir_ok(#[trigger] randvec@[i]),
            decreases 256 - n,
        {
            randvec.push(Vec3::random_unit_vector(rng));
            n = n + 1;
        }
        let perm_x = perlin_generate_perm(rng);
        let perm_y = perlin_generate_perm(rng);
        let perm_z = perlin_generate_perm(rng);
        Perlin { randvec, perm_x, perm_y, perm_z }
    }

    /// The noise value at `p`, by Hermite-smoothed trilinear interpolation
    /// of the gradients at the eight surrounding lattice corners.
    pub fn noise(&self, p: Point3) -> (r: Fx)
        requires
            perlin_wf(*self),
            point_in(p, NOISE_IN as int),
        ensures
            r.0 == spec_noise(*self, p),
            -48 * SCALE <= r.0 <= 48 * SCALE,
    {
        let fx_i = p.0.x.floor_int();
        let fx_j = p.0.y.floor_int();
        let fx_k = p.0.z.floor_int();
        let u = Fx(p.0.x.0 - (fx_i as i128) * SCALE);
        let v = Fx(p.0.y.0 - (fx_j as i128) * SCALE);
        let w = Fx(p.0.z.0 - (fx_k as i128) * SCALE);
        proof {
            vstd::arithmetic::div_mod::lemma_fundamental_div_mod(p.0.x.0 as int, SCALE as int);
            vstd::arithmetic::div_mod::lemma_fundamental_div_mod(p.0.y.0 as int, SCALE as int);
            vstd::arithmetic::div_mod::lemma_fundamental_div_mod(p.0.z.0 as int, SCALE as int);
        }
        let hu = hermite_exec(u);
        let hv = hermite_exec(v);
        let hw = hermite_exec(w);
        let g000 = self.corner_grad(fx_i, fx_j, fx_k);
        let g001 = self.corner_grad(fx_i, fx_j, fx_k + 1);
        let g010 = self.corner_grad(fx_i, fx_j + 1, fx_k);
        let g011 = self.corner_grad(fx_i, fx_j + 1, fx_k + 1);
        let g100 = self.corner_grad(fx_i + 1, fx_j, fx_k);
        let g101 = self.corner_grad(fx_i + 1, fx_j, fx_k + 1);
        let g110 = self.corner_grad(fx_i + 1, fx_j + 1, fx_k);
        let g111 = self.corner_grad(fx_i + 1, fx_j + 1, fx_k + 1);
        let t000 = corner_term(Fx(SCALE - hu.0), Fx(SCALE - hv.0), Fx(SCALE - hw.0), &g000, u, v, w);
        let t001 = corner_term(
            Fx(SCALE - hu.0),
            Fx(SCALE - hv.0),
            hw,
            &g001,
            u,
            v,
            Fx(w.0 - SCALE),
        );
        let t010 = corner_term(
            Fx(SCALE - hu.0),
            hv,
            Fx(SCALE - hw.0),
            &g010,
            u,
            Fx(v.0 - SCALE),
            w,
        );
        let t011 = corner_term(Fx(SCALE - hu.0), hv, hw, &g011, u, Fx(v.0 - SCALE), Fx(w.0 - SCALE));
        let t100 = corner_term(hu, Fx(SCALE - hv.0), Fx(SCALE - hw.0), &g100, Fx(u.0 - SCALE), v, w);
        let t101 = corner_term(hu, Fx(SCALE - hv.0), hw, &g101, Fx(u.0 - SCALE), v, Fx(w.0 - SCALE));
        let t110 = corner_term(hu, hv, Fx(SCALE - hw.0), &g110, Fx(u.0 - SCALE), Fx(v.0 - SCALE), w);
        let t111 = corner_term(hu, hv, hw, &g111, Fx(u.0 - SCALE), Fx(v.0 - SCALE), Fx(w.0 - SCALE));
        Fx(t000.0 + t001.0 + t010.0 + t011.0 + t100.0 + t101.0 + t110.0 + t111.0)
    }

    /// The gradient hashed from the three permutation tables for a corner.
    fn corner_grad(&self, i: i64, j: i64, k: i64) -> (g: Vec3)
        requires
            perlin_wf(*self),
        ensures
            g == spec_corner_grad(*self, i as int, j as int, k as int),
            vec_in(g, NMAX as int),
    {
        let im = (i.checked_rem_euclid(256).unwrap()) as usize;
        let jm = (j.checked_rem_euclid(256).unwrap()) as usize;
        let km = (k.checked_rem_euclid(256).unwrap()) as usize;
        let hx = self.perm_x[im];
        let hy = self.perm_y[jm];
        let hz = self.perm_z[km];
        let idx = hx ^ hy ^ hz;
        proof {
            lemma_xor_below_256(hx, hy, hz);
        }
        self.randvec[idx]
    }
}

/// Three values below 256 combined by exclusive or stay below 256.
proof fn lemma_xor_below_256(a: usize, b: usize, c: usize)
    requires
        a < 256,
        b < 256,
        c < 256,
    ensures
        (a ^ b ^ c) < 256,
{
    assert((a ^ b ^ c) < 256) by (bit_vector)
        requires
            a < 256 && b < 256 && c < 256,
    ;
}

/// Hermite smoothing of a fraction in `[0, 1)`.  The rounded value never
/// leaves `[0, 1]`, since rounding toward zero only shrinks it.
fn hermite_exec(x: Fx) -> (r: Fx)
    requires
        0 <= x.0 < SCALE,
    ensures
        r.0 == hermite(x.0 as int),
        0 <= r.0 <= SCALE,
{
    proof {
        lemma_hermite_in_unit(x.0 as int);
        crate::fx::lemma_fxmul_mag(x.0 as int, x.0 as int, SCALE as int, SCALE as int);
    }
    x.mul(x).mul(Fx(3 * SCALE - 2 * x.0))
}

/// The fixed-point Hermite polynomial of a fraction stays within one unit.
proof fn lemma_hermite_in_unit(u: int)
    requires
        0 <= u <= SCALE,
    ensures
        0 <= hermite(u) <= SCALE,
{
    let s = SCALE as int;
    let q = fxmul(u, u);
    let m = 3 * s - 2 * u;
    assert(u * u >= 0) by (nonlinear_arith);
    crate::fx::lemma_tdiv_abs_le(u * u, s);
    vstd::arithmetic::mul::lemma_mul_nonnegative(q, m);
    crate::fx::lemma_tdiv_abs_le(q * m, s);
    // The real polynomial stays below one on the unit interval:
    // s^3 - u^2 (3s - 2u) = (s - u)^2 (s + 2u).
    assert(u * (u * m) <= s * (s * s)) by (nonlinear_arith)
        requires
            0 <= u <= s,
            m == 3 * s - 2 * u,
    ;
    vstd::arithmetic::div_mod::lemma_fundamental_div_mod(u * u, s);
    assert(q * s <= u * u);
    assert((q * m) * s <= (s * s) * s) by (nonlinear_arith)
        requires
            q * s <= u * u,
            u * (u * m) <= s * (s * s),
            m >= s,
            s > 0,
            q >= 0,
            u >= 0,
    ;
    assert(q * m <= s * s) by (nonlinear_arith)
        requires
            (q * m) * s <= (s * s) * s,
            s > 0,
    ;
    crate::fx::lemma_tdiv_mag_le(q * m, s * s, s);
    vstd::arithmetic::div_mod::lemma_div_multiples_vanish(s, s);
}

/// One corner's contribution: the three interpolation factors times the
/// gradient's dot product with the offset to the corner.
fn corner_term(fu: Fx, fv: Fx, fw: Fx, g: &Vec3, wx: Fx, wy: Fx, wz: Fx) -> (r: Fx)
    requires
        0 <= fu.0 <= SCALE,
        0 <= fv.0 <= SCALE,
        0 <= fw.0 <= SCALE,
        vec_in(*g, NMAX as int),
        -SCALE <= wx.0 <= SCALE,
        -SCALE <= wy.0 <= SCALE,
        -SCALE <= wz.0 <= SCALE,
    ensures
        r.0 == spec_corner_term(
            fu.0 as int,
            fv.0 as int,
            fw.0 as int,
            *g,
            Vec3 { x: wx, y: wy, z: wz },
        ),
        -6 * SCALE <= r.0 <= 6 * SCALE,
{
    let wv = Vec3 { x: wx, y: wy, z: wz };
    proof {
        crate::math::vec3::lemma_dot_mag(*g, wv, 1843200, 921600);
        crate::fx::lemma_fxmul_mag(fu.0 as int, fv.0 as int, 921600, 921600);
        crate::fx::lemma_fxmul_mag(
            fxmul(fu.0 as int, fv.0 as int),
            fw.0 as int,
            921600,
            921600,
        );
        crate::fx::lemma_fxmul_mag(
            fxmul(fxmul(fu.0 as int, fv.0 as int), fw.0 as int),
            dot_raw(*g, wv),
            921600,
            5529600,
        );
    }
    fu.mul(fv).mul(fw).mul(crate::math::vec3::dot(g, &wv))
}

/// The numbers 0 through 255 in a random order.
fn perlin_generate_perm(rng: &mut RandomSource) -> (r: Vec<usize>)
    ensures
        r@.len() == 256,
        forall|i: int| 0 <= i < 256 ==> #[trigger] r@[i] < 256,
        r@.to_multiset() == Seq::new(256, |i: int| i as usize).to_multiset(),
{
    let mut p: Vec<usize> = Vec::new();
    let mut n: usize = 0;
    while n < 256
        invariant
            n <= 256,
            p@.len() == n,
            forall|i: int| 0 <= i < n ==> #[trigger] p@[i] == i,
        decreases 256 - n,
    {
        p.push(n);
        n = n + 1;
    }
    let ghost identity = p@;
    proof {
        assert(identity =~= Seq::new(256, |i: int| i as usize));
    }
    rng.shuffle_indices(&mut p);
    proof {
        assert forall|i: int| 0 <= i < 256 implies #[trigger] p@[i] < 256 by {
            p@.to_multiset_ensures();
            identity.to_multiset_ensures();
            assert(p@.to_multiset().count(p@[i]) > 0);
            assert(identity.contains(p@[i]));
            let j = choose|j: int| 0 <= j < identity.len() && identity[j] == p@[i];
            assert(identity[j] == j);
        }
    }
    p
}

} // verus!
