//! What host and shading stage share: the per-frame parameter record with
//! its exact byte layout, and the pinhole-camera ray derivation.

use vstd::prelude::*;
use vstd::arithmetic::div_mod::*;
use vstd::arithmetic::power2::*;
use crate::fx::{abs_i, lemma_mul_fx_bound, mul_fx, mul_fx_spec, ONE};
use crate::vec3::{cross3, cross3_spec, in_range, neg3, normalize, normalize_spec, v3, Vec3};

verus! {

/// Per-frame parameters, transferred to the shading stage once per frame.
///
/// `time_bits` holds the bit pattern of a 32-bit IEEE-754 float giving the
/// seconds elapsed since start; the record's byte layout is
/// `width`, `height`, `time_bits`, each little-endian, 12 bytes in all.
#[derive(Clone, Copy, PartialEq, Eq, Structural, Debug)]
pub struct Params {
    pub width: u32,
    pub height: u32,
    pub time_bits: u32,
}

impl Default for Params {
    /// The all-zero record.
    fn default() -> (p: Self)
        ensures
            p == (Params { width: 0, height: 0, time_bits: 0 }),
    {
        Params { width: 0, height: 0, time_bits: 0 }
    }
}

/// The four little-endian bytes of a 32-bit value.
pub open spec fn le_bytes4(v: int) -> Seq<u8> {
    seq![
        (v % 256) as u8,
        ((v / 256) % 256) as u8,
        ((v / 65536) % 256) as u8,
        ((v / 16777216) % 256) as u8,
    ]
}

/// The exact 12-byte layout of a parameter record: `width`, `height`,
/// `time_bits`, little-endian in that order.
pub open spec fn params_bytes_spec(p: Params) -> Seq<u8> {
    le_bytes4(p.width as int).add(le_bytes4(p.height as int)).add(le_bytes4(p.time_bits as int))
}

/// Serialize a parameter record into the uniform buffer layout the shading
/// stage expects.
pub fn params_bytes(p: &Params) -> (r: Vec<u8>)
    ensures
        r@ == params_bytes_spec(*p),
        r@.len() == 12,
{
    let mut v: Vec<u8> = Vec::new();
    v.push((p.width % 256) as u8);
    v.push(((p.width / 256) % 256) as u8);
    v.push(((p.width / 65536) % 256) as u8);
    v.push(((p.width / 16777216) % 256) as u8);
    v.push((p.height % 256) as u8);
    v.push(((p.height / 256) % 256) as u8);
    v.push(((p.height / 65536) % 256) as u8);
    v.push(((p.height / 16777216) % 256) as u8);
    v.push((p.time_bits % 256) as u8);
    v.push(((p.time_bits / 256) % 256) as u8);
    v.push(((p.time_bits / 65536) % 256) as u8);
    v.push(((p.time_bits / 16777216) % 256) as u8);
    proof {
        assert(v@ =~= params_bytes_spec(*p));
    }
    v
}

/// Largest time value handed to the evaluator: 8192 seconds in Q16.16.
pub const TIME_FX_MAX: i64 = 0x2000_0000;

/// The Q16.16 value a 32-bit IEEE-754 bit pattern denotes, saturated at
/// `TIME_FX_MAX` in magnitude; subnormals collapse to zero, infinities and
/// NaNs saturate.
pub open spec fn f32_bits_to_fx_spec(bits: u32) -> int {
    let neg = bits >= 0x8000_0000;
    let rem = if neg {
        bits - 0x8000_0000
    } else {
        bits as int
    };
    let e = rem / 0x80_0000;
    let m = rem % 0x80_0000;
    let mag = if e == 0 {
        0
    } else if e == 0xff {
        TIME_FX_MAX as int
    } else {
        let frac = m + 0x80_0000;
        let raw = if e >= 134 {
            frac * (pow2((e - 134) as nat) as int)
        } else {
            frac / (pow2((134 - e) as nat) as int)
        };
        if raw > TIME_FX_MAX as int {
            TIME_FX_MAX as int
        } else {
            raw
        }
    };
    if neg {
        -mag
    } else {
        mag
    }
}

/// A small power of two, as a `u64`.
fn pow2_u64(k: u32) -> (r: u64)
    requires
        k <= 24,
    ensures
        r as int == pow2(k as nat),
        1 <= r <= 0x100_0000,
{
    proof {
        lemma2_to64();
    }
    let mut r: u64 = 1;
    let mut j: u32 = 0;
    while j < k
        invariant
            j <= k <= 24,
            r as int == pow2(j as nat),
            1 <= r <= 0x100_0000,
        decreases k - j,
    {
        proof {
            lemma2_to64();
            if (j as nat) < 24 {
                lemma_pow2_strictly_increases(j as nat, 24);
            }
            lemma_pow2_unfold((j + 1) as nat);
        }
        r = r * 2;
        j = j + 1;
    }
    r
}

/// Decode the bit pattern of a 32-bit IEEE-754 float into Q16.16 fixed
/// point (rounding toward zero), saturating at `TIME_FX_MAX`.
pub fn time_fx_from_bits(bits: u32) -> (t: i64)
    ensures
        t as int == f32_bits_to_fx_spec(bits),
        abs_i(t as int) <= TIME_FX_MAX as int,
{
    let neg: bool = bits >= 0x8000_0000;
    let rem: u32 = if neg {
        bits - 0x8000_0000
    } else {
        bits
    };
    let e: u32 = rem / 0x80_0000;
    let m: u32 = rem % 0x80_0000;
    proof {
        lemma_mod_bound(rem as int, 0x80_0000);
        lemma_div_is_ordered(rem as int, 0x7fff_ffff, 0x80_0000);
    }
    let mag: i64 = if e == 0 {
        0
    } else if e == 255 {
        TIME_FX_MAX
    } else {
        let frac: u64 = (m as u64) + 0x80_0000;
        if e >= 141 {
            proof {
                lemma2_to64();
                if (e - 134) as nat > 7 {
                    lemma_pow2_strictly_increases(7, (e - 134) as nat);
                }
                assert((frac as int) * (pow2((e - 134) as nat) as int) > TIME_FX_MAX as int) by (
                nonlinear_arith)
                    requires
                        frac as int >= 0x80_0000,
                        pow2((e - 134) as nat) as int >= 128,
                ;
            }
            TIME_FX_MAX
        } else if e >= 134 {
            let factor: u64 = pow2_u64(e - 134);
            proof {
                lemma2_to64();
                if ((e - 134) as nat) < 7 {
                    lemma_pow2_strictly_increases((e - 134) as nat, 7);
                }
                assert((frac as int) * (factor as int) < 0x8000_0000_0000) by (nonlinear_arith)
                    requires
                        0 <= frac as int <= 0xff_ffff,
                        0 <= factor as int <= 128,
                ;
            }
            let raw: u64 = frac * factor;
            if raw > 0x2000_0000 {
                TIME_FX_MAX
            } else {
                raw as i64
            }
        } else if e <= 110 {
            proof {
                lemma2_to64();
                if (134 - e) as nat > 24 {
                    lemma_pow2_strictly_increases(24, (134 - e) as nat);
                }
                lemma_basic_div(frac as int, pow2((134 - e) as nat) as int);
            }
            0
        } else {
            let divisor: u64 = pow2_u64(134 - e);
            let raw: u64 = frac / divisor;
            proof {
                lemma_div_is_ordered_by_denominator(frac as int, 1, divisor as int);
            }
            raw as i64
        }
    };
    if neg {
        -mag
    } else {
        mag
    }
}

/// The per-pixel view ray: the pinhole camera looks from `origin` toward
/// the scene origin with the world's y-axis up, and the screen coordinate
/// `uv` (each component in `[0, ONE]`) is remapped to the image plane.
pub open spec fn direction_spec(origin: Vec3, uv_x: int, uv_y: int) -> Vec3 {
    let up = Vec3 { x: 0, y: 65536, z: 0 };
    let f = normalize_spec(v3(-(origin.x as int), -(origin.y as int), -(origin.z as int)));
    let s = normalize_spec(cross3_spec(f, up));
    let u = cross3_spec(s, f);
    let px = 2 * uv_x - 65536;
    let py = -(2 * uv_y - 65536);
    normalize_spec(
        v3(
            mul_fx_spec(s.x as int, px) + mul_fx_spec(u.x as int, py) + f.x as int,
            mul_fx_spec(s.y as int, px) + mul_fx_spec(u.y as int, py) + f.y as int,
            mul_fx_spec(s.z as int, px) + mul_fx_spec(u.z as int, py) + f.z as int,
        ),
    )
}

/// Derive the view ray for the screen coordinate `(uv_x, uv_y)`. The
/// result is a unit-scale direction: every coordinate lies in
/// `[-ONE, ONE]`.
pub fn direction(origin: Vec3, uv_x: i64, uv_y: i64) -> (r: Vec3)
    requires
        in_range(origin, 0x8000_0000),
        0 <= uv_x <= ONE as int,
        0 <= uv_y <= ONE as int,
    ensures
        r == direction_spec(origin, uv_x as int, uv_y as int),
        in_range(r, ONE as int),
{
    let up: Vec3 = Vec3 { x: 0, y: 65536, z: 0 };
    let f: Vec3 = normalize(neg3(origin));
    let s: Vec3 = normalize(cross3(f, up));
    let u: Vec3 = cross3(s, f);
    let px: i64 = 2 * uv_x - 65536;
    let py: i64 = -(2 * uv_y - 65536);
    proof {
        lemma_mul_fx_bound(s.x as int, px as int, 65536, 65536);
        lemma_mul_fx_bound(s.y as int, px as int, 65536, 65536);
        lemma_mul_fx_bound(s.z as int, px as int, 65536, 65536);
        lemma_mul_fx_bound(u.x as int, py as int, 131072, 65536);
        lemma_mul_fx_bound(u.y as int, py as int, 131072, 65536);
        lemma_mul_fx_bound(u.z as int, py as int, 131072, 65536);
    }
    let cx: i64 = mul_fx(s.x, px) + mul_fx(u.x, py) + f.x;
    let cy: i64 = mul_fx(s.y, px) + mul_fx(u.y, py) + f.y;
    let cz: i64 = mul_fx(s.z, px) + mul_fx(u.z, py) + f.z;
    normalize(Vec3 { x: cx, y: cy, z: cz })
}

} // verus!
