//! Signed distance fields: primitives, combinators, and the scene
//! description tree that a compiled artifact carries.

use vstd::prelude::*;
use vstd::arithmetic::div_mod::*;
use vstd::arithmetic::power2::*;
use crate::fx::{
    abs_i, abs_mag, cos_fx, cos_spec, div_fx, div_fx_spec, exp_fx, exp_spec, fx_max, fx_min,
    lemma_abs_mul_bound, lemma_mul_fx_bound, mul_fx, mul_fx_spec, sin_fx, sin_spec, ONE,
};
use crate::vec3::{
    abs3, add3, dot3, in_range, len_spec, length, max3_zero, max_element, max_element_spec,
    norm_sq, sub3, v3, Vec3,
};

verus! {

/// Distance reported where the scene is known to be far away: a stand-in
/// for "infinitely far" that still leaves room for exact arithmetic.
pub const SDF_FAR: i64 = 0x1_0000_0000_0000;

/// Union of two distance fields: the minimum.
pub fn union(f1: i64, f2: i64) -> (r: i64)
    ensures
        r as int == if f1 as int <= f2 as int {
            f1 as int
        } else {
            f2 as int
        },
{
    fx_min(f1, f2)
}

/// Subtraction of the second field from the first: `max(f1, -f2)`.
pub fn subtraction(f1: i64, f2: i64) -> (r: i64)
    requires
        abs_i(f2 as int) <= 0x4000_0000_0000_0000,
    ensures
        r as int == if f1 as int >= -(f2 as int) {
            f1 as int
        } else {
            -(f2 as int)
        },
{
    fx_max(f1, -f2)
}

/// Intersection of two distance fields: the maximum.
pub fn intersection(f1: i64, f2: i64) -> (r: i64)
    ensures
        r as int == if f1 as int >= f2 as int {
            f1 as int
        } else {
            f2 as int
        },
{
    fx_max(f1, f2)
}

/// `n / d` rounded to the nearest integer (halves away from zero), for a
/// positive divisor; the result is an unscaled integer count.
pub open spec fn round_div_spec(n: int, d: int) -> int
    recommends
        d > 0,
{
    if n >= 0 {
        (n + d / 2) / d
    } else {
        -((-n + d / 2) / d)
    }
}

/// One coordinate folded into the cell `[-s/2, s/2]` of a lattice with
/// spacing `s`: `p - s * round(p / s)`.
pub open spec fn repeat_coord_spec(p: int, s: int) -> int
    recommends
        s > 0,
{
    p - s * round_div_spec(p, s)
}

/// Fold one coordinate into its lattice cell.
fn repeat_coord(p: i64, s: i64) -> (r: i64)
    requires
        0 < s as int <= 0x8000_0000,
        abs_i(p as int) <= 0x0100_0000_0000,
    ensures
        r as int == repeat_coord_spec(p as int, s as int),
{
    let ap: u64 = abs_mag(p);
    let half: u64 = (s as u64) / 2;
    let k: u64 = (ap + half) / (s as u64);
    proof {
        let num = ap as int + half as int;
        lemma_fundamental_div_mod(num, s as int);
        lemma_mod_bound(num, s as int);
        assert(k as int == num / (s as int));
        assert(num == (s as int) * (k as int) + num % (s as int));
        assert(k as int * (s as int) <= num);
    }
    let m: u64 = k * (s as u64);
    proof {
        let num = ap as int + half as int;
        if p >= 0 {
            assert(round_div_spec(p as int, s as int) == k as int);
            assert((p as int) - (s as int) * (k as int) == (p as int) - m as int) by (
            nonlinear_arith)
                requires
                    m as int == k as int * (s as int),
            ;
        } else {
            assert(round_div_spec(p as int, s as int) == -(k as int));
            assert((p as int) - (s as int) * (-(k as int)) == (p as int) + m as int) by (
            nonlinear_arith)
                requires
                    m as int == k as int * (s as int),
            ;
        }
    }
    if p >= 0 {
        p - (m as i64)
    } else {
        p + (m as i64)
    }
}

/// Infinite repetition: fold `p` into the lattice cell of spacing `s`.
pub fn repeat(p: Vec3, s: Vec3) -> (r: Vec3)
    requires
        0 < s.x as int <= 0x8000_0000,
        0 < s.y as int <= 0x8000_0000,
        0 < s.z as int <= 0x8000_0000,
        in_range(p, 0x0100_0000_0000),
    ensures
        r == v3(
            repeat_coord_spec(p.x as int, s.x as int),
            repeat_coord_spec(p.y as int, s.y as int),
            repeat_coord_spec(p.z as int, s.z as int),
        ),
{
    Vec3 {
        x: repeat_coord(p.x, s.x),
        y: repeat_coord(p.y, s.y),
        z: repeat_coord(p.z, s.z),
    }
}

/// Distance to a sphere of radius `r` centered at the origin.
pub open spec fn sphere_spec(p: Vec3, r: int) -> int {
    len_spec(p) - r
}

/// Distance field of an origin-centered sphere.
pub fn sphere(p: Vec3, r: i64) -> (d: i64)
    requires
        in_range(p, 0x8000_0000),
        abs_i(r as int) <= 0x4000_0000,
    ensures
        d as int == sphere_spec(p, r as int),
        abs_i(d as int) < 0x2_0000_0000,
{
    length(p) - r
}

/// Distance to an axis-aligned box with half-extents `b`, centered at the
/// origin.
pub open spec fn rect_spec(p: Vec3, b: Vec3) -> int {
    let q = v3(
        abs_i(p.x as int) - b.x as int,
        abs_i(p.y as int) - b.y as int,
        abs_i(p.z as int) - b.z as int,
    );
    let qp = v3(
        if q.x as int >= 0 {
            q.x as int
        } else {
            0
        },
        if q.y as int >= 0 {
            q.y as int
        } else {
            0
        },
        if q.z as int >= 0 {
            q.z as int
        } else {
            0
        },
    );
    let me = max_element_spec(q);
    len_spec(qp) + if me <= 0 {
        me
    } else {
        0
    }
}

/// Distance field of an origin-centered axis-aligned box.
pub fn rect(p: Vec3, b: Vec3) -> (d: i64)
    requires
        in_range(p, 0x4000_0000),
        in_range(b, 0x4000_0000),
    ensures
        d as int == rect_spec(p, b),
        abs_i(d as int) < 0x2_0000_0000,
{
    let q: Vec3 = sub3(abs3(p), b);
    let qp: Vec3 = max3_zero(q);
    let l: i64 = length(qp);
    let me: i64 = max_element(q);
    l + fx_min(me, 0)
}

/// Offset applied to the ocean sample point (128 units in x and z), moving
/// a ripple artifact at the origin out of view.
pub const OCEAN_OFFSET: i64 = 8388608;

/// Frequency ratio between successive waves (1.18 in Q16.16).
pub const WAVE_FREQ_RATIO: i64 = 77332;

/// Weight ratio between successive waves (0.82 in Q16.16).
pub const WAVE_WEIGHT_RATIO: i64 = 53740;

/// Pseudo-angle seed increment between waves (1234.4321 in Q16.16).
pub const WAVE_NOISE_STEP: i64 = 80899742;

/// Number of accumulated wave contributions.
pub const WAVE_COUNT: u32 = 15;

/// Accumulator state of the ocean height-field sum.
pub struct OceanState {
    pub h_sum: int,
    pub h_weight: int,
    pub wx: int,
    pub wz: int,
    pub freq: int,
    pub weight: int,
    pub noise: int,
}

/// State before any wave contribution: the sample position is the offset
/// point's x-z coordinates; frequency and weight start at one.
pub open spec fn ocean_init(p: Vec3) -> OceanState {
    OceanState {
        h_sum: 0,
        h_weight: 0,
        wx: p.x as int + OCEAN_OFFSET as int,
        wz: p.z as int + OCEAN_OFFSET as int,
        freq: ONE as int,
        weight: ONE as int,
        noise: 0,
    }
}

/// One wave contribution: a direction derived from the pseudo-angle seed,
/// a sinusoidal height with exponential sharpening, the weighted height and
/// weight accumulated, the sample position dragged along the wave's
/// derivative, and frequency, weight and seed advanced.
pub open spec fn ocean_step(s: OceanState, t2: int) -> OceanState {
    let dx = cos_spec(s.noise);
    let dz = sin_spec(s.noise);
    let dot = mul_fx_spec(dx, s.wx) + mul_fx_spec(dz, s.wz);
    let wave = mul_fx_spec(dot, s.freq) + t2;
    let wave_h = exp_spec(sin_spec(wave) - ONE as int);
    let wave_dh = -mul_fx_spec(wave_h, cos_spec(wave));
    let drag = mul_fx_spec(16384, wave_dh);
    OceanState {
        h_sum: s.h_sum + mul_fx_spec(wave_h, s.weight),
        h_weight: s.h_weight + s.weight,
        wx: s.wx + mul_fx_spec(mul_fx_spec(drag, dx), s.weight),
        wz: s.wz + mul_fx_spec(mul_fx_spec(drag, dz), s.weight),
        freq: mul_fx_spec(s.freq, WAVE_FREQ_RATIO as int),
        weight: mul_fx_spec(s.weight, WAVE_WEIGHT_RATIO as int),
        noise: s.noise + WAVE_NOISE_STEP as int,
    }
}

/// The accumulator after `n` wave contributions.
pub open spec fn ocean_iter(p: Vec3, t2: int, n: nat) -> OceanState
    decreases n,
{
    if n == 0 {
        ocean_init(p)
    } else {
        ocean_step(ocean_iter(p, t2, (n - 1) as nat), t2)
    }
}

/// The ocean distance estimate: the point's height above the weighted
/// average wave height, with time running at double speed.
pub open spec fn ocean_spec(t: int, p: Vec3) -> int {
    let st = ocean_iter(p, 2 * t, WAVE_COUNT as nat);
    p.y as int - div_fx_spec(st.h_sum, st.h_weight)
}

/// Approximate distance to a procedurally animated ocean surface.
///
/// The accumulated weight starts at one and only ever grows, so the final
/// average is never a division by zero; the result stays within 15 units of
/// the point's height.
pub fn ocean(time: i64, point: Vec3) -> (r: i64)
    requires
        abs_i(time as int) <= 0x2000_0000,
        in_range(point, 0x0800_0000),
    ensures
        r as int == ocean_spec(time as int, point),
        abs_i(r as int - point.y as int) <= 983040,
{
    let t2: i64 = 2 * time;
    let mut h_sum: i64 = 0;
    let mut h_weight: i64 = 0;
    let mut wx: i64 = point.x + OCEAN_OFFSET;
    let mut wz: i64 = point.z + OCEAN_OFFSET;
    let mut freq: i64 = ONE;
    let mut weight: i64 = ONE;
    let mut noise: i64 = 0;
    let mut i: u32 = 0;
    proof {
        lemma2_to64();
    }
    while i < WAVE_COUNT
        invariant
            i <= WAVE_COUNT,
            t2 as int == 2 * time as int,
            abs_i(time as int) <= 0x2000_0000,
            in_range(point, 0x0800_0000),
            h_sum as int == ocean_iter(point, t2 as int, i as nat).h_sum,
            h_weight as int == ocean_iter(point, t2 as int, i as nat).h_weight,
            wx as int == ocean_iter(point, t2 as int, i as nat).wx,
            wz as int == ocean_iter(point, t2 as int, i as nat).wz,
            freq as int == ocean_iter(point, t2 as int, i as nat).freq,
            weight as int == ocean_iter(point, t2 as int, i as nat).weight,
            noise as int == ocean_iter(point, t2 as int, i as nat).noise,
            0 <= weight as int <= ONE as int,
            0 <= freq as int <= 65536 * pow2(i as nat),
            pow2(i as nat) <= 32768,
            0 <= h_sum as int <= (i as int) * 65536,
            0 <= h_weight as int <= (i as int) * 65536,
            i >= 1 ==> h_weight as int >= 65536,
            abs_i(wx as int) <= abs_i(point.x as int) + OCEAN_OFFSET as int + (i as int) * 16384,
            abs_i(wz as int) <= abs_i(point.z as int) + OCEAN_OFFSET as int + (i as int) * 16384,
            noise as int == (i as int) * (WAVE_NOISE_STEP as int),
        decreases WAVE_COUNT - i,
    {
        proof {
            lemma2_to64();
            if i < 15 {
                lemma_pow2_strictly_increases(i as nat, 15);
            }
        }
        let dx: i64 = cos_fx(noise);
        let dz: i64 = sin_fx(noise);
        proof {
            lemma_mul_fx_bound(dx as int, wx as int, 65536, 0x1000_0000);
            lemma_mul_fx_bound(dz as int, wz as int, 65536, 0x1000_0000);
        }
        let dotv: i64 = mul_fx(dx, wx) + mul_fx(dz, wz);
        proof {
            lemma_mul_fx_bound(dotv as int, freq as int, 0x2000_0000, 0x8000_0000);
        }
        let wave: i64 = mul_fx(dotv, freq) + t2;
        let sw: i64 = sin_fx(wave);
        let cw: i64 = cos_fx(wave);
        let wave_h: i64 = exp_fx(sw - ONE);
        proof {
            lemma_mul_fx_bound(wave_h as int, cw as int, 65536, 65536);
        }
        let wave_dh: i64 = -mul_fx(wave_h, cw);
        proof {
            lemma_mul_fx_bound(wave_h as int, weight as int, 65536, 65536);
        }
        let h_inc: i64 = mul_fx(wave_h, weight);
        proof {
            lemma_mul_fx_bound(16384, wave_dh as int, 16384, 65536);
        }
        let drag: i64 = mul_fx(16384, wave_dh);
        proof {
            lemma_mul_fx_bound(drag as int, dx as int, 16384, 65536);
            lemma_mul_fx_bound(drag as int, dz as int, 16384, 65536);
        }
        let drag_x: i64 = mul_fx(drag, dx);
        let drag_z: i64 = mul_fx(drag, dz);
        proof {
            lemma_mul_fx_bound(drag_x as int, weight as int, 16384, 65536);
            lemma_mul_fx_bound(drag_z as int, weight as int, 16384, 65536);
            lemma_mul_fx_bound(freq as int, WAVE_FREQ_RATIO as int, 0x8000_0000, 77332);
            lemma_mul_fx_bound(weight as int, WAVE_WEIGHT_RATIO as int, 65536, 53740);
        }
        let inc_x: i64 = mul_fx(drag_x, weight);
        let inc_z: i64 = mul_fx(drag_z, weight);
        let new_freq: i64 = mul_fx(freq, WAVE_FREQ_RATIO);
        let new_weight: i64 = mul_fx(weight, WAVE_WEIGHT_RATIO);
        proof {
            // the weight ratio is below one, so the weight shrinks
            assert((weight as int) * 53740 <= (weight as int) * 65536) by (nonlinear_arith)
                requires
                    weight as int >= 0,
            ;
            // the frequency at most doubles each wave
            assert((freq as int) * 77332 <= (freq as int) * 131072) by (nonlinear_arith)
                requires
                    freq as int >= 0,
            ;
            lemma_pow2_unfold((i + 1) as nat);
        }
        h_sum = h_sum + h_inc;
        h_weight = h_weight + weight;
        wx = wx + inc_x;
        wz = wz + inc_z;
        freq = new_freq;
        weight = new_weight;
        noise = noise + WAVE_NOISE_STEP;
        i = i + 1;
        proof {
            assert(ocean_iter(point, t2 as int, i as nat) == ocean_step(
                ocean_iter(point, t2 as int, (i - 1) as nat),
                t2 as int,
            ));
        }
    }
    let ratio: i64 = div_fx(h_sum, h_weight);
    proof {
        assert(abs_i(ratio as int) <= 983040) by {
            if abs_i(ratio as int) > 983040 {
                assert(abs_i(ratio as int) * (h_weight as int) >= abs_i(ratio as int) * 65536)
                    by (nonlinear_arith)
                    requires
                        h_weight as int >= 65536,
                        abs_i(ratio as int) >= 0,
                ;
            }
        }
    }
    point.y - ratio
}

/// A point exactly on a sphere's boundary is at distance exactly zero:
/// wherever the squared norm is the square of the radius, the distance
/// field vanishes.
pub proof fn lemma_sphere_boundary(p: Vec3, r: int)
    requires
        r >= 0,
        norm_sq(p) == r * r,
    ensures
        sphere_spec(p, r) == 0,
{
    crate::fx::lemma_sqrt_floor_square(r);
}

/// A point on a face of a box is at distance exactly zero: here the face
/// at `x = b.x`, with the other coordinates within the half-extents.
pub proof fn lemma_rect_face(p: Vec3, b: Vec3)
    requires
        p.x as int == b.x as int,
        b.x as int >= 0,
        abs_i(p.y as int) <= b.y as int,
        abs_i(p.z as int) <= b.z as int,
    ensures
        rect_spec(p, b) == 0,
{
    let q = v3(
        abs_i(p.x as int) - b.x as int,
        abs_i(p.y as int) - b.y as int,
        abs_i(p.z as int) - b.z as int,
    );
    assert(q.x as int == 0 && q.y as int <= 0 && q.z as int <= 0);
    let qp = v3(0, 0, 0);
    assert(norm_sq(qp) == 0);
    assert(len_spec(qp) == 0);
    assert(max_element_spec(q) == 0);
}

/// A scene description: the expression tree a compiled artifact carries,
/// evaluable at any time and point.
pub enum Sdf {
    /// Sphere of the given radius, centered at the origin.
    Sphere { radius: i64 },
    /// Axis-aligned box with the given half-extents, centered at the origin.
    Rect { half_extents: Vec3 },
    /// The animated ocean height-field.
    Ocean,
    /// Minimum of two fields.
    Union(Box<Sdf>, Box<Sdf>),
    /// Maximum of two fields.
    Intersection(Box<Sdf>, Box<Sdf>),
    /// First field with the second carved out.
    Subtraction(Box<Sdf>, Box<Sdf>),
    /// The inner field inside a sphere of the given radius; far away
    /// outside of it.
    Clip { radius: i64, inner: Box<Sdf> },
}

/// Radii and half-extents are nonnegative and small enough that every
/// evaluation stays within exact arithmetic range.
pub open spec fn wf_sdf(s: Sdf) -> bool
    decreases s,
{
    match s {
        Sdf::Sphere { radius } => 0 <= radius as int <= 0x4000_0000,
        Sdf::Rect { half_extents } => 0 <= half_extents.x as int <= 0x4000_0000 && 0
            <= half_extents.y as int <= 0x4000_0000 && 0 <= half_extents.z as int <= 0x4000_0000,
        Sdf::Ocean => true,
        Sdf::Union(a, b) => wf_sdf(*a) && wf_sdf(*b),
        Sdf::Intersection(a, b) => wf_sdf(*a) && wf_sdf(*b),
        Sdf::Subtraction(a, b) => wf_sdf(*a) && wf_sdf(*b),
        Sdf::Clip { radius, inner } => 0 <= radius as int <= 0x4000_0000 && wf_sdf(*inner),
    }
}

/// The signed distance a scene description denotes at time `t` and point
/// `p`.
pub open spec fn eval_spec(s: Sdf, t: int, p: Vec3) -> int
    decreases s,
{
    match s {
        Sdf::Sphere { radius } => sphere_spec(p, radius as int),
        Sdf::Rect { half_extents } => rect_spec(p, half_extents),
        Sdf::Ocean => ocean_spec(t, p),
        Sdf::Union(a, b) => {
            let va = eval_spec(*a, t, p);
            let vb = eval_spec(*b, t, p);
            if va <= vb {
                va
            } else {
                vb
            }
        },
        Sdf::Intersection(a, b) => {
            let va = eval_spec(*a, t, p);
            let vb = eval_spec(*b, t, p);
            if va >= vb {
                va
            } else {
                vb
            }
        },
        Sdf::Subtraction(a, b) => {
            let va = eval_spec(*a, t, p);
            let vb = eval_spec(*b, t, p);
            if va >= -vb {
                va
            } else {
                -vb
            }
        },
        Sdf::Clip { radius, inner } => {
            if len_spec(p) <= radius as int {
                eval_spec(*inner, t, p)
            } else {
                SDF_FAR as int
            }
        },
    }
}

/// Evaluate a scene description. The result is the distance the
/// description denotes, and always lies within `[-SDF_FAR, SDF_FAR]`.
pub fn eval(s: &Sdf, time: i64, p: Vec3) -> (r: i64)
    requires
        wf_sdf(*s),
        abs_i(time as int) <= 0x2000_0000,
        in_range(p, 0x0800_0000),
    ensures
        r as int == eval_spec(*s, time as int, p),
        -(SDF_FAR as int) <= r as int <= SDF_FAR as int,
    decreases *s,
{
    match s {
        Sdf::Sphere { radius } => sphere(p, *radius),
        Sdf::Rect { half_extents } => rect(p, *half_extents),
        Sdf::Ocean => ocean(time, p),
        Sdf::Union(a, b) => {
            let va: i64 = eval(a, time, p);
            let vb: i64 = eval(b, time, p);
            union(va, vb)
        },
        Sdf::Intersection(a, b) => {
            let va: i64 = eval(a, time, p);
            let vb: i64 = eval(b, time, p);
            intersection(va, vb)
        },
        Sdf::Subtraction(a, b) => {
            let va: i64 = eval(a, time, p);
            let vb: i64 = eval(b, time, p);
            subtraction(va, vb)
        },
        Sdf::Clip { radius, inner } => {
            let l: i64 = length(p);
            if l <= *radius {
                eval(inner, time, p)
            } else {
                SDF_FAR
            }
        },
    }
}

} // verus!
