//! Fixed-point 3-vectors: points, directions and colors of the evaluator.

use vstd::prelude::*;
use vstd::arithmetic::div_mod::*;
use crate::fx::{
    abs_i, abs_mag, div_fx, div_fx_spec, fx_max, isqrt_u64, lemma_abs_mul, lemma_abs_mul_bound,
    lemma_mul_fx_bound, lemma_sqrt_floor_bounds, mul_fx, mul_fx_spec, sqrt_floor, ONE,
};

verus! {

/// A 3-vector of Q16.16 fixed-point coordinates.
#[derive(Clone, Copy, PartialEq, Eq, Structural, Debug)]
pub struct Vec3 {
    pub x: i64,
    pub y: i64,
    pub z: i64,
}

/// Every coordinate of `v` has magnitude at most `b`.
pub open spec fn in_range(v: Vec3, b: int) -> bool {
    abs_i(v.x as int) <= b && abs_i(v.y as int) <= b && abs_i(v.z as int) <= b
}

/// Build the vector whose coordinates are `x`, `y`, `z`, each coerced into
/// `i64` range (exact whenever they fit, which every caller ensures).
pub open spec fn v3(x: int, y: int, z: int) -> Vec3 {
    Vec3 { x: x as i64, y: y as i64, z: z as i64 }
}

/// Squared Euclidean norm, at scale `ONE * ONE`.
pub open spec fn norm_sq(v: Vec3) -> int {
    (v.x as int) * (v.x as int) + (v.y as int) * (v.y as int) + (v.z as int) * (v.z as int)
}

/// Euclidean length in Q16.16: the integer square root of the squared norm.
pub open spec fn len_spec(v: Vec3) -> int {
    sqrt_floor(norm_sq(v))
}

/// A square is the square of the magnitude, and never negative.
pub proof fn lemma_square_abs(a: int)
    ensures
        a * a == abs_i(a) * abs_i(a),
        a * a >= 0,
{
    lemma_abs_mul(a, a);
    assert(a * a >= 0) by (nonlinear_arith);
}

/// No coordinate exceeds the length of the vector.
pub proof fn lemma_comp_le_len(v: Vec3)
    ensures
        abs_i(v.x as int) <= len_spec(v),
        abs_i(v.y as int) <= len_spec(v),
        abs_i(v.z as int) <= len_spec(v),
        len_spec(v) >= 0,
{
    lemma_square_abs(v.x as int);
    lemma_square_abs(v.y as int);
    lemma_square_abs(v.z as int);
    lemma_sqrt_floor_bounds(norm_sq(v));
    let l = len_spec(v);
    if abs_i(v.x as int) > l {
        assert((l + 1) * (l + 1) <= abs_i(v.x as int) * abs_i(v.x as int)) by (nonlinear_arith)
            requires
                0 <= l + 1 <= abs_i(v.x as int),
        ;
    }
    if abs_i(v.y as int) > l {
        assert((l + 1) * (l + 1) <= abs_i(v.y as int) * abs_i(v.y as int)) by (nonlinear_arith)
            requires
                0 <= l + 1 <= abs_i(v.y as int),
        ;
    }
    if abs_i(v.z as int) > l {
        assert((l + 1) * (l + 1) <= abs_i(v.z as int) * abs_i(v.z as int)) by (nonlinear_arith)
            requires
                0 <= l + 1 <= abs_i(v.z as int),
        ;
    }
}

/// Componentwise sum.
pub fn add3(a: Vec3, b: Vec3) -> (r: Vec3)
    requires
        in_range(a, 0x2000_0000_0000_0000),
        in_range(b, 0x2000_0000_0000_0000),
    ensures
        r == v3(a.x as int + b.x as int, a.y as int + b.y as int, a.z as int + b.z as int),
        r.x as int == a.x as int + b.x as int,
        r.y as int == a.y as int + b.y as int,
        r.z as int == a.z as int + b.z as int,
{
    Vec3 { x: a.x + b.x, y: a.y + b.y, z: a.z + b.z }
}

/// Componentwise difference.
pub fn sub3(a: Vec3, b: Vec3) -> (r: Vec3)
    requires
        in_range(a, 0x2000_0000_0000_0000),
        in_range(b, 0x2000_0000_0000_0000),
    ensures
        r == v3(a.x as int - b.x as int, a.y as int - b.y as int, a.z as int - b.z as int),
        r.x as int == a.x as int - b.x as int,
        r.y as int == a.y as int - b.y as int,
        r.z as int == a.z as int - b.z as int,
{
    Vec3 { x: a.x - b.x, y: a.y - b.y, z: a.z - b.z }
}

/// Componentwise negation.
pub fn neg3(a: Vec3) -> (r: Vec3)
    requires
        in_range(a, 0x2000_0000_0000_0000),
    ensures
        r == v3(-(a.x as int), -(a.y as int), -(a.z as int)),
        r.x as int == -(a.x as int),
        r.y as int == -(a.y as int),
        r.z as int == -(a.z as int),
{
    Vec3 { x: -a.x, y: -a.y, z: -a.z }
}

/// The vector scaled by the fixed-point factor `s`.
pub open spec fn scale3_spec(a: Vec3, s: int) -> Vec3 {
    v3(mul_fx_spec(a.x as int, s), mul_fx_spec(a.y as int, s), mul_fx_spec(a.z as int, s))
}

/// Scale by a fixed-point factor.
pub fn scale3(a: Vec3, s: i64) -> (r: Vec3)
    requires
        in_range(a, 0x8000_0000),
        abs_i(s as int) <= 0x8000_0000,
    ensures
        r == scale3_spec(a, s as int),
        abs_i(r.x as int) * (ONE as int) <= abs_i(a.x as int) * abs_i(s as int),
        abs_i(r.y as int) * (ONE as int) <= abs_i(a.y as int) * abs_i(s as int),
        abs_i(r.z as int) * (ONE as int) <= abs_i(a.z as int) * abs_i(s as int),
{
    proof {
        lemma_mul_fx_bound(a.x as int, s as int, 0x8000_0000, 0x8000_0000);
        lemma_mul_fx_bound(a.y as int, s as int, 0x8000_0000, 0x8000_0000);
        lemma_mul_fx_bound(a.z as int, s as int, 0x8000_0000, 0x8000_0000);
    }
    Vec3 { x: mul_fx(a.x, s), y: mul_fx(a.y, s), z: mul_fx(a.z, s) }
}

/// Fixed-point dot product.
pub open spec fn dot3_spec(a: Vec3, b: Vec3) -> int {
    mul_fx_spec(a.x as int, b.x as int) + mul_fx_spec(a.y as int, b.y as int) + mul_fx_spec(
        a.z as int,
        b.z as int,
    )
}

/// Dot product of two vectors.
pub fn dot3(a: Vec3, b: Vec3) -> (r: i64)
    requires
        in_range(a, 0x8000_0000),
        in_range(b, 0x8000_0000),
    ensures
        r as int == dot3_spec(a, b),
        abs_i(r as int) * (ONE as int) <= abs_i(a.x as int) * abs_i(b.x as int) + abs_i(
            a.y as int,
        ) * abs_i(b.y as int) + abs_i(a.z as int) * abs_i(b.z as int),
{
    proof {
        lemma_mul_fx_bound(a.x as int, b.x as int, 0x8000_0000, 0x8000_0000);
        lemma_mul_fx_bound(a.y as int, b.y as int, 0x8000_0000, 0x8000_0000);
        lemma_mul_fx_bound(a.z as int, b.z as int, 0x8000_0000, 0x8000_0000);
    }
    let tx: i64 = mul_fx(a.x, b.x);
    let ty: i64 = mul_fx(a.y, b.y);
    let tz: i64 = mul_fx(a.z, b.z);
    tx + ty + tz
}

/// Fixed-point cross product.
pub open spec fn cross3_spec(a: Vec3, b: Vec3) -> Vec3 {
    v3(
        mul_fx_spec(a.y as int, b.z as int) - mul_fx_spec(a.z as int, b.y as int),
        mul_fx_spec(a.z as int, b.x as int) - mul_fx_spec(a.x as int, b.z as int),
        mul_fx_spec(a.x as int, b.y as int) - mul_fx_spec(a.y as int, b.x as int),
    )
}

/// Cross product of two vectors.
pub fn cross3(a: Vec3, b: Vec3) -> (r: Vec3)
    requires
        in_range(a, 0x8000_0000),
        in_range(b, 0x8000_0000),
    ensures
        r == cross3_spec(a, b),
        in_range(a, ONE as int) && in_range(b, ONE as int) ==> in_range(r, 2 * ONE as int),
{
    proof {
        if in_range(a, ONE as int) && in_range(b, ONE as int) {
            lemma_mul_fx_bound(a.y as int, b.z as int, 65536, 65536);
            lemma_mul_fx_bound(a.z as int, b.y as int, 65536, 65536);
            lemma_mul_fx_bound(a.z as int, b.x as int, 65536, 65536);
            lemma_mul_fx_bound(a.x as int, b.z as int, 65536, 65536);
            lemma_mul_fx_bound(a.x as int, b.y as int, 65536, 65536);
            lemma_mul_fx_bound(a.y as int, b.x as int, 65536, 65536);
        }
        lemma_mul_fx_bound(a.y as int, b.z as int, 0x8000_0000, 0x8000_0000);
        lemma_mul_fx_bound(a.z as int, b.y as int, 0x8000_0000, 0x8000_0000);
        lemma_mul_fx_bound(a.z as int, b.x as int, 0x8000_0000, 0x8000_0000);
        lemma_mul_fx_bound(a.x as int, b.z as int, 0x8000_0000, 0x8000_0000);
        lemma_mul_fx_bound(a.x as int, b.y as int, 0x8000_0000, 0x8000_0000);
        lemma_mul_fx_bound(a.y as int, b.x as int, 0x8000_0000, 0x8000_0000);
    }
    Vec3 {
        x: mul_fx(a.y, b.z) - mul_fx(a.z, b.y),
        y: mul_fx(a.z, b.x) - mul_fx(a.x, b.z),
        z: mul_fx(a.x, b.y) - mul_fx(a.y, b.x),
    }
}

/// Componentwise magnitude.
pub fn abs3(a: Vec3) -> (r: Vec3)
    requires
        in_range(a, 0x2000_0000_0000_0000),
    ensures
        r == v3(abs_i(a.x as int), abs_i(a.y as int), abs_i(a.z as int)),
        r.x as int == abs_i(a.x as int),
        r.y as int == abs_i(a.y as int),
        r.z as int == abs_i(a.z as int),
{
    Vec3 {
        x: if a.x >= 0 {
            a.x
        } else {
            -a.x
        },
        y: if a.y >= 0 {
            a.y
        } else {
            -a.y
        },
        z: if a.z >= 0 {
            a.z
        } else {
            -a.z
        },
    }
}

/// Componentwise maximum with zero.
pub fn max3_zero(a: Vec3) -> (r: Vec3)
    ensures
        r == v3(
            if a.x as int >= 0 {
                a.x as int
            } else {
                0
            },
            if a.y as int >= 0 {
                a.y as int
            } else {
                0
            },
            if a.z as int >= 0 {
                a.z as int
            } else {
                0
            },
        ),
{
    Vec3 {
        x: if a.x >= 0 {
            a.x
        } else {
            0
        },
        y: if a.y >= 0 {
            a.y
        } else {
            0
        },
        z: if a.z >= 0 {
            a.z
        } else {
            0
        },
    }
}

/// The largest coordinate.
pub open spec fn max_element_spec(a: Vec3) -> int {
    let m = if a.x as int >= a.y as int {
        a.x as int
    } else {
        a.y as int
    };
    if m >= a.z as int {
        m
    } else {
        a.z as int
    }
}

/// Largest coordinate of a vector.
pub fn max_element(a: Vec3) -> (r: i64)
    ensures
        r as int == max_element_spec(a),
{
    let m: i64 = fx_max(a.x, a.y);
    fx_max(m, a.z)
}

/// Euclidean length of a vector with coordinates up to `2^31` in magnitude.
pub fn length(v: Vec3) -> (r: i64)
    requires
        in_range(v, 0x8000_0000),
    ensures
        r as int == len_spec(v),
        0 <= r < 0x1_0000_0000,
{
    let ax: u64 = abs_mag(v.x);
    let ay: u64 = abs_mag(v.y);
    let az: u64 = abs_mag(v.z);
    proof {
        lemma_square_abs(v.x as int);
        lemma_square_abs(v.y as int);
        lemma_square_abs(v.z as int);
        lemma_abs_mul_bound(v.x as int, v.x as int, 0x8000_0000, 0x8000_0000);
        lemma_abs_mul_bound(v.y as int, v.y as int, 0x8000_0000, 0x8000_0000);
        lemma_abs_mul_bound(v.z as int, v.z as int, 0x8000_0000, 0x8000_0000);
    }
    let s: u64 = ax * ax + ay * ay + az * az;
    let r: u64 = isqrt_u64(s);
    r as i64
}

/// The vector scaled to unit length (all zeroes when the length is zero,
/// which only a zero vector has).
pub open spec fn normalize_spec(v: Vec3) -> Vec3 {
    let l = len_spec(v);
    if l == 0 {
        Vec3 { x: 0, y: 0, z: 0 }
    } else {
        v3(div_fx_spec(v.x as int, l), div_fx_spec(v.y as int, l), div_fx_spec(v.z as int, l))
    }
}

/// Normalize a vector. The result's coordinates always lie in `[-ONE, ONE]`.
pub fn normalize(v: Vec3) -> (r: Vec3)
    requires
        in_range(v, 0x8000_0000),
    ensures
        r == normalize_spec(v),
        in_range(r, ONE as int),
{
    let l: i64 = length(v);
    if l == 0 {
        Vec3 { x: 0, y: 0, z: 0 }
    } else {
        proof {
            lemma_comp_le_len(v);
        }
        Vec3 { x: div_fx(v.x, l), y: div_fx(v.y, l), z: div_fx(v.z, l) }
    }
}

} // verus!
