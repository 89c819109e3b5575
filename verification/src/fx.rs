//! Q16.16 fixed-point arithmetic: the numeric substrate of the evaluator.
//!
//! A value `v: i64` stands for the real number `v / 65536`. All evaluator
//! math (distances, positions, colors) is carried out in this representation
//! so that every operation has an exact, provable meaning.

use vstd::prelude::*;
use vstd::arithmetic::div_mod::*;
use vstd::arithmetic::mul::*;

verus! {

/// One spatial unit in the Q16.16 representation.
pub const ONE: i64 = 65536;

/// Magnitude of a mathematical integer.
pub open spec fn abs_i(a: int) -> int {
    if a >= 0 {
        a
    } else {
        -a
    }
}

/// Quotient of `n / d` rounded toward zero, for a positive divisor.
/// (Spec-level `/` is Euclidean; rounding toward zero is what the
/// sign-magnitude executable code computes.)
pub open spec fn div_tz(n: int, d: int) -> int
    recommends
        d > 0,
{
    if n >= 0 {
        n / d
    } else {
        -((-n) / d)
    }
}

/// Product of two fixed-point values: `(a * b) / 65536`, rounded toward zero.
pub open spec fn mul_fx_spec(a: int, b: int) -> int {
    div_tz(a * b, ONE as int)
}

/// Fixed-point quotient `a / b` (for `b > 0`): `(a * 65536) / b`, rounded
/// toward zero.
pub open spec fn div_fx_spec(a: int, b: int) -> int
    recommends
        b > 0,
{
    div_tz(a * (ONE as int), b)
}

/// Clamp `v` into `[lo, hi]`.
pub open spec fn clamp_spec(v: int, lo: int, hi: int) -> int {
    if v < lo {
        lo
    } else if v > hi {
        hi
    } else {
        v
    }
}

/// Magnitude of an `i64`, as a `u64` (total: handles `i64::MIN`).
pub fn abs_mag(a: i64) -> (r: u64)
    ensures
        r as int == abs_i(a as int),
{
    if a >= 0 {
        a as u64
    } else {
        ((-(a + 1)) as u64) + 1
    }
}

/// Smaller of two values.
pub fn fx_min(a: i64, b: i64) -> (r: i64)
    ensures
        r as int == if a as int <= b as int { a as int } else { b as int },
{
    if a <= b {
        a
    } else {
        b
    }
}

/// Larger of two values.
pub fn fx_max(a: i64, b: i64) -> (r: i64)
    ensures
        r as int == if a as int >= b as int { a as int } else { b as int },
{
    if a >= b {
        a
    } else {
        b
    }
}

/// Clamp `v` into `[lo, hi]`.
pub fn fx_clamp(v: i64, lo: i64, hi: i64) -> (r: i64)
    requires
        lo <= hi,
    ensures
        r as int == clamp_spec(v as int, lo as int, hi as int),
{
    if v < lo {
        lo
    } else if v > hi {
        hi
    } else {
        v
    }
}

/// Fixed-point multiplication. The result is `(a * b) / 65536` rounded
/// toward zero, computed without intermediate overflow via sign-magnitude
/// arithmetic in `u128`.
pub fn mul_fx(a: i64, b: i64) -> (r: i64)
    requires
        abs_i(a as int) * abs_i(b as int) <= i64::MAX * (ONE as int),
    ensures
        r as int == mul_fx_spec(a as int, b as int),
        abs_i(r as int) * (ONE as int) <= abs_i(a as int) * abs_i(b as int),
        a >= 0 && b >= 0 ==> r >= 0,
{
    let ma: u64 = abs_mag(a);
    let mb: u64 = abs_mag(b);
    let p: u128 = (ma as u128) * (mb as u128);
    let q: u128 = p / 65536;
    proof {
        assert(p as int == abs_i(a as int) * abs_i(b as int));
        lemma_fundamental_div_mod(p as int, 65536);
        assert(q * 65536 <= p);
        assert(q <= i64::MAX);
    }
    let qi: i64 = q as i64;
    let neg: bool = (a < 0) != (b < 0);
    proof {
        let ai = a as int;
        let bi = b as int;
        if ai >= 0 && bi >= 0 {
            assert(ai * bi == p as int);
        } else if ai < 0 && bi < 0 {
            assert(ai * bi == (-ai) * (-bi)) by (nonlinear_arith);
            assert(ai * bi == p as int);
        } else if ai < 0 {
            assert(ai * bi == -((-ai) * bi)) by (nonlinear_arith);
            assert((-(ai * bi)) / 65536 == q);
        } else {
            assert(ai * bi == -(ai * (-bi))) by (nonlinear_arith);
            assert((-(ai * bi)) / 65536 == q);
        }
    }
    if neg {
        -qi
    } else {
        qi
    }
}

/// Fixed-point division by a positive divisor. The result is
/// `(a * 65536) / b` rounded toward zero.
pub fn div_fx(a: i64, b: i64) -> (r: i64)
    requires
        b > 0,
        abs_i(a as int) <= 0x7fff_ffff_ffff,
    ensures
        r as int == div_fx_spec(a as int, b as int),
        abs_i(r as int) * (b as int) <= abs_i(a as int) * (ONE as int),
        abs_i(a as int) <= b as int ==> abs_i(r as int) <= ONE as int,
{
    let ma: u64 = abs_mag(a);
    let num: u128 = (ma as u128) * 65536;
    let q: u128 = num / (b as u128);
    proof {
        lemma_fundamental_div_mod(num as int, b as int);
        lemma_mod_bound(num as int, b as int);
        assert(q as int == num as int / b as int);
        assert(num as int == (b as int) * (q as int) + (num as int) % (b as int));
        assert(q * (b as int) <= num);
        assert(q <= num) by {
            lemma_div_is_ordered_by_denominator(num as int, 1, b as int);
        }
        assert(num <= 0x7fff_ffff_ffff * 65536);
        if abs_i(a as int) <= b as int {
            // q * b <= |a| * 65536 <= b * 65536, so q <= 65536
            assert(q <= 65536) by {
                if q > 65536 {
                    assert(q * (b as int) > 65536 * (b as int)) by (nonlinear_arith)
                        requires
                            q > 65536,
                            b > 0,
                    ;
                    assert(abs_i(a as int) * 65536 <= (b as int) * 65536) by (nonlinear_arith)
                        requires
                            abs_i(a as int) <= b as int,
                    ;
                }
            }
        }
        let ai = a as int;
        if ai < 0 {
            assert(ai * 65536 == -((-ai) * 65536));
        }
    }
    let qi: i64 = q as i64;
    if a < 0 {
        -qi
    } else {
        qi
    }
}

/// The magnitude of a product is the product of the magnitudes.
pub proof fn lemma_abs_mul(a: int, b: int)
    ensures
        abs_i(a * b) == abs_i(a) * abs_i(b),
{
    if a >= 0 && b >= 0 {
        assert(a * b >= 0) by (nonlinear_arith)
            requires
                a >= 0,
                b >= 0,
        ;
    } else if a < 0 && b < 0 {
        assert(a * b == (-a) * (-b) && a * b >= 0) by (nonlinear_arith)
            requires
                a < 0,
                b < 0,
        ;
    } else if a < 0 {
        assert(a * b == -((-a) * b) && (-a) * b >= 0) by (nonlinear_arith)
            requires
                a < 0,
                b >= 0,
        ;
    } else {
        assert(a * b == -(a * (-b)) && a * (-b) >= 0) by (nonlinear_arith)
            requires
                a >= 0,
                b < 0,
        ;
    }
}

/// Magnitudes bounded by `ab` and `bb` give a product bounded by `ab * bb`.
pub proof fn lemma_abs_mul_bound(a: int, b: int, ab: int, bb: int)
    requires
        abs_i(a) <= ab,
        abs_i(b) <= bb,
    ensures
        abs_i(a * b) <= ab * bb,
        abs_i(a) * abs_i(b) <= ab * bb,
{
    lemma_abs_mul(a, b);
    lemma_mul_upper_bound(abs_i(a), ab, abs_i(b), bb);
}

/// The magnitude of a fixed-point product, scaled back up, is at most the
/// product of the magnitudes; in particular `|mul_fx_spec(a, b)| <= ab * bb
/// / 65536` whenever `|a| <= ab` and `|b| <= bb`.
pub proof fn lemma_mul_fx_bound(a: int, b: int, ab: int, bb: int)
    requires
        abs_i(a) <= ab,
        abs_i(b) <= bb,
    ensures
        abs_i(mul_fx_spec(a, b)) * (ONE as int) <= ab * bb,
        abs_i(a * b) <= ab * bb,
        abs_i(a) * abs_i(b) <= ab * bb,
{
    lemma_abs_mul_bound(a, b, ab, bb);
    let n = a * b;
    if n >= 0 {
        lemma_fundamental_div_mod(n, 65536);
        lemma_mod_bound(n, 65536);
        lemma_div_is_ordered(0, n, 65536);
    } else {
        lemma_fundamental_div_mod(-n, 65536);
        lemma_mod_bound(-n, 65536);
        lemma_div_is_ordered(0, -n, 65536);
    }
}

/// Multiplying by the unit scale is exact: `ONE` acts as 1, `-ONE` as -1,
/// and 0 as 0.
pub proof fn lemma_mul_fx_units(a: int)
    ensures
        mul_fx_spec(a, ONE as int) == a,
        mul_fx_spec(ONE as int, a) == a,
        mul_fx_spec(a, -(ONE as int)) == -a,
        mul_fx_spec(-(ONE as int), a) == -a,
        mul_fx_spec(a, 0) == 0,
        mul_fx_spec(0, a) == 0,
{
    if a >= 0 {
        lemma_div_by_multiple(a, 65536);
    } else {
        lemma_div_by_multiple(-a, 65536);
        assert(a * 65536 == -((-a) * 65536));
    }
    assert(a * (-65536) == -(a * 65536));
    assert((-65536) * a == a * (-65536)) by (nonlinear_arith);
    assert(65536 * a == a * 65536) by (nonlinear_arith);
    assert(a * 0 == 0) by (nonlinear_arith);
}

/// The greatest `r` with `r * r <= n` (integer square root), defined by
/// recursion so that it is a definite function of `n`.
pub open spec fn sqrt_floor(n: int) -> int
    decreases n,
{
    if n <= 0 {
        0
    } else {
        let s = sqrt_floor(n - 1);
        if (s + 1) * (s + 1) <= n {
            s + 1
        } else {
            s
        }
    }
}

/// `sqrt_floor(n)` squares to at most `n`, and is the largest such value.
pub proof fn lemma_sqrt_floor_bounds(n: int)
    requires
        n >= 0,
    ensures
        sqrt_floor(n) >= 0,
        sqrt_floor(n) * sqrt_floor(n) <= n,
        n < (sqrt_floor(n) + 1) * (sqrt_floor(n) + 1),
    decreases n,
{
    if n > 0 {
        lemma_sqrt_floor_bounds(n - 1);
        let s = sqrt_floor(n - 1);
        if (s + 1) * (s + 1) <= n {
            assert(n < (s + 2) * (s + 2)) by (nonlinear_arith)
                requires
                    s >= 0,
                    n - 1 < (s + 1) * (s + 1),
            ;
        }
    }
}

/// Any `r` with `r * r <= n < (r + 1) * (r + 1)` is `sqrt_floor(n)`.
pub proof fn lemma_sqrt_floor_unique(n: int, r: int)
    requires
        n >= 0,
        r >= 0,
        r * r <= n,
        n < (r + 1) * (r + 1),
    ensures
        r == sqrt_floor(n),
{
    let s = sqrt_floor(n);
    lemma_sqrt_floor_bounds(n);
    if r < s {
        assert((r + 1) * (r + 1) <= s * s) by (nonlinear_arith)
            requires
                0 <= r,
                r + 1 <= s,
        ;
    }
    if s < r {
        assert((s + 1) * (s + 1) <= r * r) by (nonlinear_arith)
            requires
                0 <= s,
                s + 1 <= r,
        ;
    }
}

/// A perfect square has an exact square root.
pub proof fn lemma_sqrt_floor_square(a: int)
    requires
        a >= 0,
    ensures
        sqrt_floor(a * a) == a,
{
    assert(a * a >= 0) by (nonlinear_arith)
        requires
            a >= 0,
    ;
    assert(a * a < (a + 1) * (a + 1)) by (nonlinear_arith)
        requires
            a >= 0,
    ;
    lemma_sqrt_floor_unique(a * a, a);
}

/// Integer square root of a `u64`, by bisection.
pub fn isqrt_u64(x: u64) -> (r: u64)
    ensures
        r as int == sqrt_floor(x as int),
        r < 0x1_0000_0000,
{
    let mut lo: u64 = 0;
    let mut hi: u64 = 0x1_0000_0000;
    proof {
        assert((0x1_0000_0000 as int) * (0x1_0000_0000 as int) > u64::MAX as int);
    }
    while lo + 1 < hi
        invariant
            lo < hi,
            hi <= 0x1_0000_0000,
            (lo as int) * (lo as int) <= x as int,
            (x as int) < (hi as int) * (hi as int),
        decreases hi - lo,
    {
        let mid: u64 = lo + (hi - lo) / 2;
        proof {
            assert(lo < mid < hi);
            assert((mid as int) * (mid as int) <= 0xffff_ffff * 0xffff_ffff) by (nonlinear_arith)
                requires
                    0 <= mid as int <= 0xffff_ffff,
            ;
        }
        if mid * mid <= x {
            lo = mid;
        } else {
            hi = mid;
        }
    }
    proof {
        lemma_sqrt_floor_unique(x as int, lo as int);
    }
    lo
}

/// pi, 2*pi and pi/2 in Q16.16.
pub const PI_FX: i64 = 205887;

pub const TWO_PI_FX: i64 = 411775;

pub const HALF_PI_FX: i64 = 102944;

/// Coefficients of the quadratic sine approximation `(4/pi) u - (4/pi^2) u |u|`.
pub const SIN_B: i64 = 83443;

pub const SIN_C: i64 = 26561;

/// Approximate sine of a Q16.16 angle in radians: the argument is reduced
/// modulo 2*pi, a quadratic approximates sine on the reduced range, and the
/// result is clamped into the unit interval `[-ONE, ONE]`.
pub open spec fn sin_spec(x: int) -> int {
    let m = x % (TWO_PI_FX as int);
    let u = m - (PI_FX as int);
    let raw = mul_fx_spec(SIN_B as int, u) - mul_fx_spec(SIN_C as int, mul_fx_spec(u, abs_i(u)));
    clamp_spec(-raw, -(ONE as int), ONE as int)
}

/// Approximate cosine: sine shifted a quarter turn.
pub open spec fn cos_spec(x: int) -> int {
    sin_spec(x + HALF_PI_FX as int)
}

/// Approximate sine. Always within `[-ONE, ONE]`.
pub fn sin_fx(x: i64) -> (r: i64)
    requires
        abs_i(x as int) <= 0x4000_0000_0000,
    ensures
        r as int == sin_spec(x as int),
        -(ONE as int) <= r as int <= ONE as int,
{
    let m: i64 = if x >= 0 {
        ((x as u64) % 411775) as i64
    } else {
        let t: u64 = ((-x) as u64) % 411775;
        if t == 0 {
            0
        } else {
            (411775 - t) as i64
        }
    };
    proof {
        let xi = x as int;
        if xi < 0 {
            let t = (-xi) % 411775;
            let k = (-xi) / 411775;
            lemma_fundamental_div_mod(-xi, 411775);
            lemma_mod_bound(-xi, 411775);
            if t == 0 {
                assert(xi == (-k) * 411775 + 0) by {
                    assert(-xi == 411775 * k + 0);
                    assert((-k) * 411775 == -(411775 * k)) by (nonlinear_arith);
                }
                lemma_fundamental_div_mod_converse_mod(xi, 411775, -k, 0);
            } else {
                assert(xi == (-k - 1) * 411775 + (411775 - t)) by {
                    assert(-xi == 411775 * k + t);
                    assert((-k - 1) * 411775 == -(411775 * k) - 411775) by (nonlinear_arith);
                }
                lemma_fundamental_div_mod_converse_mod(xi, 411775, -k - 1, 411775 - t);
            }
        }
        assert(m as int == (x as int) % (TWO_PI_FX as int));
    }
    let u: i64 = m - 205887;
    let ua: i64 = if u >= 0 {
        u
    } else {
        -u
    };
    proof {
        lemma_mul_fx_bound(u as int, ua as int, 205888, 205888);
    }
    let uu: i64 = mul_fx(u, ua);
    proof {
        lemma_mul_fx_bound(83443, u as int, 83443, 205888);
        lemma_mul_fx_bound(26561, uu as int, 26561, 646871);
    }
    let t1: i64 = mul_fx(83443, u);
    let t2: i64 = mul_fx(26561, uu);
    fx_clamp(-(t1 - t2), -65536, 65536)
}

/// Approximate cosine. Always within `[-ONE, ONE]`.
pub fn cos_fx(x: i64) -> (r: i64)
    requires
        abs_i(x as int) <= 0x3fff_fffd_ffff,
    ensures
        r as int == cos_spec(x as int),
        -(ONE as int) <= r as int <= ONE as int,
{
    sin_fx(x + HALF_PI_FX)
}

/// Approximate `e^x` for `x` in `[-2, 0]`: `(1 + x/8)` raised to the eighth
/// power by three squarings. Always within `[0, ONE]`.
pub open spec fn exp_spec(x: int) -> int {
    let t = (ONE as int) + div_tz(x, 8);
    let t2 = mul_fx_spec(t, t);
    let t4 = mul_fx_spec(t2, t2);
    mul_fx_spec(t4, t4)
}

/// Squaring a value in `[0, ONE]` stays in `[0, ONE]`.
proof fn lemma_fx_square_unit(t: int)
    requires
        0 <= t <= ONE as int,
    ensures
        0 <= mul_fx_spec(t, t) <= ONE as int,
{
    lemma_mul_fx_bound(t, t, ONE as int, ONE as int);
    assert(t * t >= 0) by (nonlinear_arith)
        requires
            t >= 0,
    ;
    lemma_div_is_ordered(0, t * t, 65536);
}

/// Approximate `e^x` for `x` in `[-2, 0]`.
pub fn exp_fx(x: i64) -> (r: i64)
    requires
        -131072 <= x <= 0,
    ensures
        r as int == exp_spec(x as int),
        0 <= r as int <= ONE as int,
{
    let t: i64 = ONE - (((-x) as u64 / 8) as i64);
    proof {
        assert(t as int == (ONE as int) + div_tz(x as int, 8));
        lemma_div_is_ordered(-(x as int), 131072, 8);
    }
    proof {
        lemma_mul_fx_bound(t as int, t as int, ONE as int, ONE as int);
        lemma_fx_square_unit(t as int);
    }
    let t2: i64 = mul_fx(t, t);
    proof {
        lemma_mul_fx_bound(t2 as int, t2 as int, ONE as int, ONE as int);
        lemma_fx_square_unit(t2 as int);
    }
    let t4: i64 = mul_fx(t2, t2);
    proof {
        lemma_mul_fx_bound(t4 as int, t4 as int, ONE as int, ONE as int);
        lemma_fx_square_unit(t4 as int);
    }
    let t8: i64 = mul_fx(t4, t4);
    t8
}

/// `b` raised to the `n`-th power in fixed point (`n = 0` gives `ONE`).
pub open spec fn pow_fx_spec(b: int, n: nat) -> int
    decreases n,
{
    if n == 0 {
        ONE as int
    } else {
        mul_fx_spec(b, pow_fx_spec(b, (n - 1) as nat))
    }
}

/// Fixed-point power of a value in `[0, ONE]`. Stays in `[0, ONE]`.
pub fn pow_fx(b: i64, n: u32) -> (r: i64)
    requires
        0 <= b <= ONE as int,
    ensures
        r as int == pow_fx_spec(b as int, n as nat),
        0 <= r as int <= ONE as int,
{
    let mut acc: i64 = ONE;
    let mut i: u32 = 0;
    while i < n
        invariant
            i <= n,
            0 <= b <= ONE as int,
            0 <= acc as int <= ONE as int,
            acc as int == pow_fx_spec(b as int, i as nat),
        decreases n - i,
    {
        proof {
            lemma_mul_fx_bound(b as int, acc as int, ONE as int, ONE as int);
            assert(b as int * acc as int >= 0) by (nonlinear_arith)
                requires
                    b as int >= 0,
                    acc as int >= 0,
            ;
            lemma_div_is_ordered(0, b as int * acc as int, 65536);
        }
        acc = mul_fx(b, acc);
        i = i + 1;
    }
    acc
}

} // verus!
