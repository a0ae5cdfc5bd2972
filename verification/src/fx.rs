//! Fixed-point scalar arithmetic.
//!
//! Every geometric quantity in this crate is a real number represented as an
//! integer multiple of `1 / SCALE`.  The representation is exact: each
//! operation's contract states precisely which integer comes out, with
//! multiplication and division rounding the mathematical result toward zero.

use vstd::prelude::*;

verus! {

use vstd::arithmetic::div_mod::{
    lemma_div_is_ordered, lemma_div_nonincreasing, lemma_div_pos_is_pos,
};

/// Number of representation steps per unit.  Chosen divisible by 2^12, 3^2
/// and 5^2 so that common test values (halves, tenths, 3-4-5 unit vectors)
/// are exact.
pub const SCALE: i128 = 921600;

/// Raw value of the scalar one.
pub const ONE_RAW: i128 = 921600;

/// Largest raw magnitude accepted for a point coordinate.
pub const PMAX: i128 = 34359738368;

/// Largest raw magnitude accepted for a ray-direction component.
pub const DMAX: i128 = 34359738368;

/// Largest raw magnitude accepted for a ray parameter t.
pub const TLIM: i128 = 1099511627776;

/// Largest raw magnitude the slab test accepts for box endpoints and ray
/// origins.
pub const BOXB: i128 = 1152921504606846976;

/// Largest raw magnitude accepted by `Fx::mul`.
pub const MULIN: i128 = 4611686018427387904;

/// Largest raw magnitude accepted by `Fx::div`.
pub const DIVIN: i128 = 1267650600228229401496703205376;

/// Largest raw value accepted by `Fx::sqrt`.
pub const SQRT_IN: i128 = 81129638414606681695789005144064;

/// A fixed-point scalar: the real number `self.0 / SCALE`.
#[derive(Clone, Copy, Debug, PartialEq, Eq, Structural)]
pub struct Fx(pub i128);

/// Integer division rounding toward zero, as Rust's `/` computes it.
pub open spec fn tdiv(x: int, d: int) -> int {
    if x == 0 {
        0
    } else if x > 0 && d > 0 {
        x / d
    } else if x < 0 && d < 0 {
        (x * -1) / (d * -1)
    } else if x < 0 {
        ((x * -1) / d) * -1
    } else {
        (x / (d * -1)) * -1
    }
}

/// Raw result of fixed-point multiplication.
pub open spec fn fxmul(a: int, b: int) -> int {
    tdiv(a * b, SCALE as int)
}

/// Raw result of fixed-point division.
pub open spec fn fxdiv(a: int, b: int) -> int {
    tdiv(a * SCALE, b)
}

/// The floor of the square root of a nonnegative integer.
pub open spec fn isqrt(n: int) -> int {
    choose|r: int| 0 <= r && #[trigger] (r * r) <= n < (r + 1) * (r + 1)
}

/// Raw result of the fixed-point square root of a nonnegative scalar.
pub open spec fn fxsqrt(a: int) -> int {
    isqrt(a * SCALE)
}

pub proof fn lemma_mul_abs_le(a: int, b: int, m: int, n: int)
    requires
        -m <= a <= m,
        -n <= b <= n,
    ensures
        -(m * n) <= a * b <= m * n,
{
    assert(-(m * n) <= a * b <= m * n) by (nonlinear_arith)
        requires
            -m <= a <= m,
            -n <= b <= n,
    ;
}

pub proof fn lemma_tdiv_abs_le(x: int, d: int)
    requires
        d != 0,
    ensures
        x >= 0 ==> -x <= tdiv(x, d) <= x,
        x < 0 ==> x <= tdiv(x, d) <= -x,
        x >= 0 && d > 0 ==> 0 <= tdiv(x, d),
        x <= 0 && d > 0 ==> tdiv(x, d) <= 0,
{
    if x > 0 && d > 0 {
        lemma_div_nonincreasing(x, d);
        lemma_div_pos_is_pos(x, d);
    } else if x > 0 && d < 0 {
        lemma_div_nonincreasing(x, d * -1);
        lemma_div_pos_is_pos(x, d * -1);
    } else if x < 0 && d > 0 {
        lemma_div_nonincreasing(x * -1, d);
        lemma_div_pos_is_pos(x * -1, d);
    } else if x < 0 && d < 0 {
        lemma_div_nonincreasing(x * -1, d * -1);
        lemma_div_pos_is_pos(x * -1, d * -1);
    }
}

/// Truncating division is monotone in magnitude: a bound on the dividend
/// bounds the quotient.
pub proof fn lemma_tdiv_mag_le(x: int, m: int, d: int)
    requires
        d > 0,
        -m <= x <= m,
        0 <= m,
    ensures
        -(m / d) <= tdiv(x, d) <= m / d,
{
    if x > 0 {
        lemma_div_is_ordered(x, m, d);
        lemma_div_pos_is_pos(x, d);
    } else if x < 0 {
        lemma_div_is_ordered(x * -1, m, d);
        lemma_div_pos_is_pos(x * -1, d);
    } else {
        lemma_div_pos_is_pos(m, d);
        assert(m / d >= 0);
    }
}

/// A floor square root exists for every nonnegative integer.
pub proof fn lemma_isqrt_exists(n: int) -> (r: int)
    requires
        0 <= n,
    ensures
        0 <= r && r * r <= n < (r + 1) * (r + 1),
    decreases n,
{
    if n == 0 {
        0
    } else {
        let p = lemma_isqrt_exists(n - 1);
        if (p + 1) * (p + 1) <= n {
            assert(n < (p + 2) * (p + 2)) by (nonlinear_arith)
                requires
                    0 <= p,
                    n - 1 < (p + 1) * (p + 1),
                    (p + 1) * (p + 1) <= n,
            ;
            p + 1
        } else {
            p
        }
    }
}

/// The floor square root is unique, so `isqrt` picks exactly it.
pub proof fn lemma_isqrt_is(n: int, r: int)
    requires
        0 <= r,
        r * r <= n < (r + 1) * (r + 1),
    ensures
        isqrt(n) == r,
{
    let c = isqrt(n);
    assert(0 <= c && c * c <= n < (c + 1) * (c + 1));
    assert(c == r) by (nonlinear_arith)
        requires
            0 <= r,
            0 <= c,
            r * r <= n < (r + 1) * (r + 1),
            c * c <= n < (c + 1) * (c + 1),
    ;
}

/// Basic facts about `isqrt` of a nonnegative integer.
pub proof fn lemma_isqrt_bounds(n: int)
    requires
        0 <= n,
    ensures
        0 <= isqrt(n),
        isqrt(n) * isqrt(n) <= n < (isqrt(n) + 1) * (isqrt(n) + 1),
{
    let r = lemma_isqrt_exists(n);
    lemma_isqrt_is(n, r);
}

/// A square bound on the argument bounds the floor square root.
pub proof fn lemma_isqrt_le_of_sq(n: int, b: int)
    requires
        0 <= n,
        0 <= b,
        n <= b * b,
    ensures
        0 <= isqrt(n) <= b,
{
    lemma_isqrt_bounds(n);
    assert(isqrt(n) <= b) by (nonlinear_arith)
        requires
            isqrt(n) * isqrt(n) <= n,
            n <= b * b,
            0 <= isqrt(n),
            0 <= b,
    ;
}

/// The floor square root of a perfect square is its root.
pub proof fn lemma_isqrt_square(r: int)
    requires
        0 <= r,
    ensures
        isqrt(r * r) == r,
{
    assert(r * r < (r + 1) * (r + 1)) by (nonlinear_arith)
        requires
            0 <= r,
    ;
    lemma_isqrt_is(r * r, r);
}

/// A square bound below the argument bounds the floor square root from
/// below.
pub proof fn lemma_isqrt_ge_of_sq(n: int, b: int)
    requires
        0 <= b,
        b * b <= n,
    ensures
        isqrt(n) >= b,
{
    lemma_isqrt_bounds(n);
    assert(isqrt(n) >= b) by (nonlinear_arith)
        requires
            n < (isqrt(n) + 1) * (isqrt(n) + 1),
            b * b <= n,
            0 <= isqrt(n),
            0 <= b,
    ;
}

/// A strict square bound above the argument bounds the floor square root
/// strictly.
pub proof fn lemma_isqrt_lt_of_sq(n: int, b: int)
    requires
        0 <= n,
        0 < b,
        n < b * b,
    ensures
        isqrt(n) < b,
{
    lemma_isqrt_bounds(n);
    assert(isqrt(n) < b) by (nonlinear_arith)
        requires
            isqrt(n) * isqrt(n) <= n,
            n < b * b,
            0 <= isqrt(n),
            0 < b,
    ;
}

/// A dividend at least the divisor in magnitude gives a quotient away
/// from zero.
pub proof fn lemma_tdiv_unit_mag(a: int, b: int)
    requires
        b > 0,
        a >= b || a <= -b,
    ensures
        tdiv(a, b) >= 1 || tdiv(a, b) <= -1,
{
    if a >= b {
        lemma_div_is_ordered(b, a, b);
        vstd::arithmetic::div_mod::lemma_div_by_self(b);
    } else {
        lemma_div_is_ordered(b, a * -1, b);
        vstd::arithmetic::div_mod::lemma_div_by_self(b);
    }
}

/// Magnitude bound for a fixed-point product.
pub proof fn lemma_fxmul_mag(a: int, b: int, m: int, n: int)
    requires
        -m <= a <= m,
        -n <= b <= n,
        0 <= m,
        0 <= n,
    ensures
        -(m * n / (SCALE as int)) <= fxmul(a, b) <= m * n / (SCALE as int),
{
    lemma_mul_abs_le(a, b, m, n);
    vstd::arithmetic::mul::lemma_mul_nonnegative(m, n);
    lemma_tdiv_mag_le(a * b, m * n, SCALE as int);
}

/// Raw value of the natural logarithm of two, rounded down.
pub const LN2_RAW: i128 = 638844;

/// Normalize a positive fraction by doubling until it reaches one,
/// counting the doublings: the integer part of its negated base-two
/// logarithm.
pub open spec fn nl_norm(f: int) -> (int, int)
    decreases 2 * SCALE as int - f,
{
    if f >= SCALE || f < 1 {
        (f, 0)
    } else {
        let me = nl_norm(2 * f);
        (me.0, me.1 + 1)
    }
}

/// Twelve fractional bits of the base-two logarithm of a mantissa in
/// `[1, 2)`, extracted by repeated squaring, most significant first.
pub open spec fn nl_bits(m: int, i: int) -> int
    decreases i,
{
    if i <= 0 {
        0
    } else {
        let m2 = fxmul(m, m);
        if m2 >= 2 * SCALE {
            pow2i(i - 1) + nl_bits(tdiv(m2, 2), i - 1)
        } else {
            nl_bits(m2, i - 1)
        }
    }
}

/// Two to a small nonnegative power.
pub open spec fn pow2i(k: int) -> int
    decreases k,
{
    if k <= 0 {
        1
    } else {
        2 * pow2i(k - 1)
    }
}

/// The negated natural logarithm of a fraction in `(0, 1]`: the base-two
/// logarithm from the normalization and the squaring bits, scaled by the
/// logarithm of two.
pub open spec fn spec_neg_ln(u: int) -> int {
    let me = nl_norm(u);
    let b = nl_bits(me.0, 12);
    fxmul(me.1 * SCALE - 225 * b, LN2_RAW as int)
}

/// The mantissa stays in `[1, 2)` across one squaring step.
proof fn lemma_nl_step(m: int)
    requires
        SCALE <= m < 2 * SCALE,
    ensures
        SCALE <= fxmul(m, m) < 4 * SCALE,
        fxmul(m, m) >= 2 * SCALE ==> SCALE <= tdiv(fxmul(m, m), 2) < 2 * SCALE,
{
    assert(m * m >= 921600 * m) by (nonlinear_arith)
        requires
            921600 <= m,
    ;
    assert(m * m <= 3397386239999) by (nonlinear_arith)
        requires
            0 <= m < 1843200,
    ;
    lemma_div_is_ordered(921600 * m, m * m, 921600);
    vstd::arithmetic::div_mod::lemma_div_multiples_vanish(m, 921600);
    lemma_div_is_ordered(m * m, 3397386239999, 921600);
    let m2 = fxmul(m, m);
    assert(m2 == m * m / 921600);
    if m2 >= 2 * SCALE {
        vstd::arithmetic::div_mod::lemma_fundamental_div_mod(m2, 2);
    }
}

/// Powers of two grow with the exponent.
proof fn lemma_pow2i_mono(j: int, k: int)
    requires
        0 <= j <= k,
    ensures
        pow2i(j) <= pow2i(k),
    decreases k - j,
{
    if j < k {
        lemma_pow2i_mono(j, k - 1);
        lemma_pow2i_pos(k - 1);
    }
}

/// The twenty-first power of two.
proof fn lemma_pow2i_21()
    ensures
        pow2i(21) == 2097152,
{
    assert(pow2i(0) == 1);
    assert(pow2i(1) == 2);
    assert(pow2i(2) == 4);
    assert(pow2i(3) == 8);
    assert(pow2i(4) == 16);
    assert(pow2i(5) == 32);
    assert(pow2i(6) == 64);
    assert(pow2i(7) == 128);
    assert(pow2i(8) == 256);
    assert(pow2i(9) == 512);
    assert(pow2i(10) == 1024);
    assert(pow2i(11) == 2048);
    assert(pow2i(12) == 4096);
    assert(pow2i(13) == 8192);
    assert(pow2i(14) == 16384);
    assert(pow2i(15) == 32768);
    assert(pow2i(16) == 65536);
    assert(pow2i(17) == 131072);
    assert(pow2i(18) == 262144);
    assert(pow2i(19) == 524288);
    assert(pow2i(20) == 1048576);
    assert(pow2i(21) == 2097152);
}

/// The twelfth power of two.
proof fn lemma_pow2i_12()
    ensures
        pow2i(12) == 4096,
{
    assert(pow2i(0) == 1);
    assert(pow2i(1) == 2);
    assert(pow2i(2) == 4);
    assert(pow2i(3) == 8);
    assert(pow2i(4) == 16);
    assert(pow2i(5) == 32);
    assert(pow2i(6) == 64);
    assert(pow2i(7) == 128);
    assert(pow2i(8) == 256);
    assert(pow2i(9) == 512);
    assert(pow2i(10) == 1024);
    assert(pow2i(11) == 2048);
    assert(pow2i(12) == 4096);
}

impl Fx {
    /// The negated natural logarithm of a fraction in `(0, 1]`, from a
    /// base-two logarithm with twelve fractional bits.
    pub fn neg_ln(self) -> (r: Fx)
        requires
            1 <= self.0 <= SCALE,
        ensures
            r.0 == spec_neg_ln(self.0 as int),
            0 <= r.0 <= 15 * SCALE,
    {
        let mut f: i128 = self.0;
        let mut e: i128 = 0;
        proof {
            assert(pow2i(0) * (self.0 as int) == self.0) by (nonlinear_arith);
        }
        while f < SCALE
            invariant
                1 <= f < 2 * SCALE,
                1 <= self.0,
                0 <= e <= 21,
                pow2i(e as int) * (self.0 as int) == f,
                nl_norm(self.0 as int).0 == nl_norm(f as int).0,
                nl_norm(self.0 as int).1 == e + nl_norm(f as int).1,
            decreases 2 * SCALE - f,
        {
            proof {
                crate::fx::lemma_norm_progress(f as int, e as int);
                lemma_pow2i_pos(e as int);
                assert(pow2i(e as int + 1) == 2 * pow2i(e as int));
                assert((2 * pow2i(e as int)) * (self.0 as int) == 2 * (pow2i(e as int) * (
                self.0 as int))) by (nonlinear_arith);
                if e >= 21 {
                    lemma_pow2i_21();
                    lemma_pow2i_mono(21, e as int);
                    assert(pow2i(e as int) * (self.0 as int) >= 2097152 * 1) by (nonlinear_arith)
                        requires
                            pow2i(e as int) >= 2097152,
                            self.0 >= 1,
                    ;
                    assert(false);
                }
            }
            f = 2 * f;
            e = e + 1;
        }
        proof {
            assert(nl_norm(f as int).0 == f as int && nl_norm(f as int).1 == 0);
        }
        let ghost m0 = f as int;
        let mut b: i128 = 0;
        let mut k: u32 = 0;
        while k < 12
            invariant
                SCALE <= f < 2 * SCALE,
                0 <= k <= 12,
                0 <= b < pow2i(k as int),
                b * pow2i(12 - k as int) + nl_bits(f as int, 12 - k as int) == nl_bits(m0, 12),
                nl_norm(self.0 as int).0 == m0,
                nl_norm(self.0 as int).1 == e,
                0 <= e <= 21,
                e == 0 ==> m0 == SCALE,
            decreases 12 - k,
        {
            proof {
                lemma_nl_step(f as int);
                lemma_pow2i_pos(12 - k as int);
                lemma_pow2i_pos(k as int);
                lemma_pow2i_12();
                lemma_pow2i_mono(k as int, 12);
                lemma_pow2i_mono(12 - (k + 1) as int, 12);
            }
            let m2 = (f * f).checked_div(SCALE).unwrap();
            proof {
                assert(pow2i(12 - k as int) == 2 * pow2i(12 - (k + 1) as int));
                assert(b * pow2i(12 - k as int) == (2 * b) * pow2i(12 - (k + 1) as int))
                    by (nonlinear_arith)
                    requires
                        pow2i(12 - k as int) == 2 * pow2i(12 - (k + 1) as int),
                ;
                assert((2 * b + 1) * pow2i(12 - (k + 1) as int) == (2 * b) * pow2i(
                    12 - (k + 1) as int,
                ) + pow2i(12 - (k + 1) as int)) by (nonlinear_arith);
            }
            if m2 >= 2 * SCALE {
                b = 2 * b + 1;
                f = m2.checked_div(2).unwrap();
            } else {
                b = 2 * b;
                f = m2;
            }
            k = k + 1;
        }
        proof {
            lemma_pow2i_12();
            assert(pow2i(0) == 1);
            assert(nl_bits(f as int, 0) == 0);
            assert(k == 12);
            assert(b * pow2i(12 - k as int) + nl_bits(f as int, 12 - k as int) == nl_bits(
                m0,
                12,
            ));
            assert(b * pow2i(0) == b) by (nonlinear_arith)
                requires
                    pow2i(0) == 1,
            ;
            assert(b == nl_bits(m0, 12));
        }
        let log2_raw: i128 = e * SCALE - 225 * b;
        proof {
            if e == 0 {
                lemma_nl_bits_one(12);
            }
            lemma_mul_abs_le(e * SCALE - 225 * b, LN2_RAW as int, 21 * SCALE, LN2_RAW as int);
            lemma_neg_ln_sign(e as int, b as int);
        }
        Fx((log2_raw * LN2_RAW).checked_div(SCALE).unwrap())
    }
}

/// The logarithm bits of the mantissa one are all clear.
proof fn lemma_nl_bits_one(i: int)
    ensures
        nl_bits(SCALE as int, i) == 0,
    decreases i,
{
    if i > 0 {
        vstd::arithmetic::div_mod::lemma_div_multiples_vanish(SCALE as int, SCALE as int);
        vstd::arithmetic::mul::lemma_mul_nonnegative(SCALE as int, SCALE as int);
        assert(fxmul(SCALE as int, SCALE as int) == SCALE as int);
        lemma_nl_bits_one(i - 1);
    }
}

/// One doubling step of the normalization unfolds its recursion.
proof fn lemma_norm_progress(f: int, e: int)
    requires
        1 <= f < SCALE,
    ensures
        nl_norm(f).0 == nl_norm(2 * f).0,
        nl_norm(f).1 == nl_norm(2 * f).1 + 1,
{
}

/// Small powers of two are positive.
proof fn lemma_pow2i_pos(k: int)
    ensures
        pow2i(k) >= 1,
    decreases k,
{
    if k > 0 {
        lemma_pow2i_pos(k - 1);
    }
}

/// The assembled base-two logarithm is nonnegative and bounded, so its
/// product with the logarithm of two is too.
proof fn lemma_neg_ln_sign(e: int, b: int)
    requires
        0 <= e <= 21,
        0 <= b < 4096,
        e == 0 ==> b == 0,
    ensures
        0 <= e * SCALE - 225 * b <= 21 * SCALE,
        0 <= fxmul(e * SCALE - 225 * b, LN2_RAW as int) <= 15 * SCALE,
{
    let v = e * (SCALE as int) - 225 * b;
    assert(0 <= v <= 21 * SCALE) by (nonlinear_arith)
        requires
            0 <= e <= 21,
            0 <= b < 4096,
            e == 0 ==> b == 0,
            v == e * (SCALE as int) - 225 * b,
    ;
    lemma_mul_abs_le(v, LN2_RAW as int, 21 * (SCALE as int), LN2_RAW as int);
    lemma_tdiv_abs_le(v * LN2_RAW, SCALE as int);
    lemma_tdiv_mag_le(v * LN2_RAW, 21 * (SCALE as int) * LN2_RAW, SCALE as int);
    vstd::arithmetic::mul::lemma_mul_nonnegative(v, LN2_RAW as int);
}

/// Floor square root of an unsigned 128-bit integer below 2^126.
pub fn isqrt_u128(n: u128) -> (r: u128)
    requires
        n < 85070591730234615865843651857942052864,
    ensures
        r * r <= n < (r + 1) * (r + 1),
        r <= 9223372036854775808,
{
    let mut lo: u128 = 0;
    let mut hi: u128 = 9223372036854775808;
    while lo + 1 < hi
        invariant
            lo < hi,
            hi <= 9223372036854775808,
            lo * lo <= n,
            n < hi * hi,
        decreases hi - lo,
    {
        let mid: u128 = lo + (hi - lo) / 2;
        proof {
            assert(lo < mid < hi) by (nonlinear_arith)
                requires
                    lo + 1 < hi,
                    mid == lo + (hi - lo) / 2,
            ;
            assert(mid * mid < 340282366920938463463374607431768211455) by (nonlinear_arith)
                requires
                    mid < 9223372036854775808,
            ;
        }
        if mid * mid <= n {
            lo = mid;
        } else {
            hi = mid;
        }
    }
    proof {
        assert(n < (lo + 1) * (lo + 1)) by (nonlinear_arith)
            requires
                lo + 1 >= hi,
                n < hi * hi,
                0 <= lo,
                lo < hi,
        ;
    }
    lo
}

impl Fx {
    /// The real value this scalar stands for, in units of `1 / SCALE`.
    pub open spec fn raw(self) -> int {
        self.0 as int
    }

    pub fn zero() -> (r: Fx)
        ensures
            r.0 == 0,
    {
        Fx(0)
    }

    pub fn one() -> (r: Fx)
        ensures
            r.0 == SCALE,
    {
        Fx(ONE_RAW)
    }

    /// The scalar standing for the integer `n`.
    pub fn from_int(n: i64) -> (r: Fx)
        ensures
            r.0 == n * SCALE,
    {
        proof {
            lemma_mul_abs_le(n as int, SCALE as int, 0x8000_0000_0000_0000, SCALE as int);
        }
        Fx((n as i128) * SCALE)
    }

    pub fn add(self, o: Fx) -> (r: Fx)
        requires
            -DIVIN <= self.0 + o.0 <= DIVIN,
        ensures
            r.0 == self.0 + o.0,
    {
        Fx(self.0 + o.0)
    }

    pub fn sub(self, o: Fx) -> (r: Fx)
        requires
            -DIVIN <= self.0 - o.0 <= DIVIN,
        ensures
            r.0 == self.0 - o.0,
    {
        Fx(self.0 - o.0)
    }

    pub fn neg(self) -> (r: Fx)
        requires
            -DIVIN <= self.0 <= DIVIN,
        ensures
            r.0 == -self.0,
    {
        Fx(-self.0)
    }

    pub fn mul(self, o: Fx) -> (r: Fx)
        requires
            -MULIN <= self.0 <= MULIN,
            -MULIN <= o.0 <= MULIN,
        ensures
            r.0 == fxmul(self.0 as int, o.0 as int),
    {
        proof {
            lemma_mul_abs_le(self.0 as int, o.0 as int, MULIN as int, MULIN as int);
        }
        let p: i128 = self.0 * o.0;
        proof {
            lemma_tdiv_abs_le(p as int, SCALE as int);
        }
        Fx(p.checked_div(SCALE).unwrap())
    }

    pub fn div(self, o: Fx) -> (r: Fx)
        requires
            o.0 != 0,
            -DIVIN <= self.0 <= DIVIN,
        ensures
            r.0 == fxdiv(self.0 as int, o.0 as int),
    {
        proof {
            lemma_mul_abs_le(self.0 as int, SCALE as int, DIVIN as int, SCALE as int);
        }
        let p: i128 = self.0 * SCALE;
        proof {
            lemma_tdiv_abs_le(p as int, o.0 as int);
        }
        Fx(p.checked_div(o.0).unwrap())
    }

    pub fn min(self, o: Fx) -> (r: Fx)
        ensures
            r.0 == if self.0 <= o.0 { self.0 } else { o.0 },
    {
        if self.0 <= o.0 {
            self
        } else {
            o
        }
    }

    pub fn max(self, o: Fx) -> (r: Fx)
        ensures
            r.0 == if self.0 >= o.0 { self.0 } else { o.0 },
    {
        if self.0 >= o.0 {
            self
        } else {
            o
        }
    }

    pub fn abs(self) -> (r: Fx)
        requires
            -DIVIN <= self.0 <= DIVIN,
        ensures
            r.0 == (if self.0 >= 0 { self.0 as int } else { -self.0 }),
    {
        if self.0 >= 0 {
            self
        } else {
            Fx(-self.0)
        }
    }

    /// Fixed-point square root, rounded down to the representation grid.
    pub fn sqrt(self) -> (r: Fx)
        requires
            0 <= self.0 <= SQRT_IN,
        ensures
            r.0 == fxsqrt(self.0 as int),
            0 <= r.0,
    {
        proof {
            lemma_mul_abs_le(self.0 as int, SCALE as int, SQRT_IN as int, SCALE as int);
        }
        let n: u128 = (self.0 as u128) * (SCALE as u128);
        let s: u128 = isqrt_u128(n);
        proof {
            lemma_isqrt_is(n as int, s as int);
        }
        Fx(s as i128)
    }

    /// The largest integer at or below this scalar.
    pub fn floor_int(self) -> (r: i64)
        requires
            -4611686018427387904 <= self.0 <= 4611686018427387904,
        ensures
            r as int == self.0 as int / (SCALE as int),
            -5003999585968 <= r <= 5003999585968,
    {
        proof {
            vstd::arithmetic::div_mod::lemma_div_is_ordered(
                self.0 as int,
                4611686018427387904,
                SCALE as int,
            );
            vstd::arithmetic::div_mod::lemma_div_is_ordered(
                -4611686018427387904,
                self.0 as int,
                SCALE as int,
            );
            vstd::arithmetic::div_mod::lemma_fundamental_div_mod(
                -4611686018427387904,
                SCALE as int,
            );
            vstd::arithmetic::div_mod::lemma_fundamental_div_mod(
                4611686018427387904,
                SCALE as int,
            );
        }
        self.0.checked_div_euclid(SCALE).unwrap() as i64
    }

    /// Clamp into the closed range from `lo` to `hi`.
    pub fn clamp(self, lo: Fx, hi: Fx) -> (r: Fx)
        requires
            lo.0 <= hi.0,
        ensures
            r.0 == (if self.0 < lo.0 {
                lo.0
            } else if self.0 > hi.0 {
                hi.0
            } else {
                self.0
            }),
    {
        if self.0 < lo.0 {
            lo
        } else if self.0 > hi.0 {
            hi
        } else {
            self
        }
    }

    pub fn lt(self, o: Fx) -> (r: bool)
        ensures
            r == (self.0 < o.0),
    {
        self.0 < o.0
    }

    pub fn le(self, o: Fx) -> (r: bool)
        ensures
            r == (self.0 <= o.0),
    {
        self.0 <= o.0
    }
}

} // verus!
