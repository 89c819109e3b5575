//! The shading stage: scene composition, ray-marching, normal estimation,
//! and per-pixel color.

use vstd::prelude::*;
use crate::common::{
    direction, direction_spec, f32_bits_to_fx_spec, time_fx_from_bits, Params,
};
use crate::fx::{
    abs_i, clamp_spec, div_fx, div_fx_spec, fx_clamp, lemma_mul_fx_units, lemma_sqrt_floor_square,
    mul_fx, mul_fx_spec, pow_fx, pow_fx_spec, lemma_mul_fx_bound, ONE,
};
use crate::sdf::{
    eval, eval_spec, intersection, ocean, ocean_spec, sphere, sphere_spec, wf_sdf, Sdf, SDF_FAR,
};
use crate::vec3::{
    add3, dot3, dot3_spec, in_range, len_spec, length, norm_sq, normalize, normalize_spec,
    scale3, sub3, v3, Vec3,
};

verus! {

/// A 4-vector: a clip-space position or an RGBA color in Q16.16.
#[derive(Clone, Copy, PartialEq, Eq, Structural, Debug)]
pub struct Vec4 {
    pub x: i64,
    pub y: i64,
    pub z: i64,
    pub w: i64,
}

/// Build the 4-vector with the given coordinates, each coerced into `i64`
/// range (exact whenever they fit, which every caller ensures).
pub open spec fn v4(x: int, y: int, z: int, w: int) -> Vec4 {
    Vec4 { x: x as i64, y: y as i64, z: z as i64, w: w as i64 }
}

/// Radius of the sphere the demo scene clips the ocean to (7 units).
pub const SCENE_SPHERE_RADIUS: i64 = 458752;

/// Beyond this distance from the origin the demo scene reports `SDF_FAR`
/// without evaluating the ocean (15 units).
pub const SCENE_CLIP_RADIUS: i64 = 983040;

/// The distance the demo scene denotes: the animated ocean carved into a
/// sphere, evaluated only within the clip radius.
pub open spec fn scene_spec(t: int, p: Vec3) -> int {
    if len_spec(p) <= SCENE_CLIP_RADIUS as int {
        let a = ocean_spec(t, p);
        let b = sphere_spec(p, SCENE_SPHERE_RADIUS as int);
        if a >= b {
            a
        } else {
            b
        }
    } else {
        SDF_FAR as int
    }
}

/// Signed distance function composing the entire demo scene: the ocean in
/// a sphere. Far away from the origin the ocean is not evaluated.
pub fn scene(time: i64, point: Vec3) -> (d: i64)
    requires
        abs_i(time as int) <= 0x2000_0000,
        in_range(point, 0x0800_0000),
    ensures
        d as int == scene_spec(time as int, point),
        -(SDF_FAR as int) <= d as int <= SDF_FAR as int,
{
    let l: i64 = length(point);
    if l <= SCENE_CLIP_RADIUS {
        let a: i64 = ocean(time, point);
        let b: i64 = sphere(point, SCENE_SPHERE_RADIUS);
        intersection(a, b)
    } else {
        SDF_FAR
    }
}

/// The shape of the demo scene tree: the ocean intersected with a sphere,
/// all clipped to the clip radius.
pub open spec fn is_demo_scene(s: Sdf) -> bool {
    s matches Sdf::Clip { radius, inner } && radius == SCENE_CLIP_RADIUS && (*inner matches
    Sdf::Intersection(a, b) && *a == Sdf::Ocean && *b == (Sdf::Sphere {
        radius: SCENE_SPHERE_RADIUS,
    }))
}

/// The demo scene as a scene description tree.
pub fn demo_scene() -> (s: Sdf)
    ensures
        wf_sdf(s),
        is_demo_scene(s),
{
    let ocean_leaf: Box<Sdf> = Box::new(Sdf::Ocean);
    let sphere_leaf: Box<Sdf> = Box::new(Sdf::Sphere { radius: SCENE_SPHERE_RADIUS });
    let inner: Box<Sdf> = Box::new(Sdf::Intersection(ocean_leaf, sphere_leaf));
    let s: Sdf = Sdf::Clip { radius: SCENE_CLIP_RADIUS, inner };
    proof {
        assert(wf_sdf(Sdf::Ocean));
        assert(wf_sdf(Sdf::Sphere { radius: SCENE_SPHERE_RADIUS }));
        match &s {
            Sdf::Clip { radius, inner } => {
                assert(wf_sdf(**inner));
            },
            _ => {},
        }
    }
    s
}

/// Evaluating the demo scene tree agrees with `scene_spec` everywhere.
pub proof fn lemma_demo_scene_eval(s: Sdf, t: int, p: Vec3)
    requires
        is_demo_scene(s),
    ensures
        eval_spec(s, t, p) == scene_spec(t, p),
{
    assert(eval_spec(Sdf::Ocean, t, p) == ocean_spec(t, p));
    assert(eval_spec(Sdf::Sphere { radius: SCENE_SPHERE_RADIUS }, t, p) == sphere_spec(
        p,
        SCENE_SPHERE_RADIUS as int,
    ));
    match s {
        Sdf::Clip { radius, inner } => {
            assert(eval_spec(s, t, p) == if len_spec(p) <= SCENE_CLIP_RADIUS as int {
                eval_spec(*inner, t, p)
            } else {
                SDF_FAR as int
            });
            match *inner {
                Sdf::Intersection(a, b) => {
                    assert(eval_spec(*a, t, p) == ocean_spec(t, p));
                    assert(eval_spec(*b, t, p) == sphere_spec(p, SCENE_SPHERE_RADIUS as int));
                },
                _ => {},
            }
        },
        _ => {},
    }
}

/// Step budget of the ray march.
pub const MARCH_STEPS: u32 = 64;

/// Distances below this threshold count as a hit (0.01 units).
pub const MARCH_EPS: i64 = 655;

/// Rays are abandoned beyond this accumulated distance (100 units).
pub const MARCH_FAR: i64 = 6553600;

/// The point `o + d * t` reached after marching `t` along the ray.
pub open spec fn point_at(o: Vec3, d: Vec3, t: int) -> Vec3 {
    v3(
        o.x as int + mul_fx_spec(d.x as int, t),
        o.y as int + mul_fx_spec(d.y as int, t),
        o.z as int + mul_fx_spec(d.z as int, t),
    )
}

/// The march from accumulated distance `dist` with `fuel` steps left:
/// either the first point whose distance falls below `MARCH_EPS`, or
/// nothing once the far plane or the step budget is exhausted.
pub open spec fn march_from(s: Sdf, t: int, o: Vec3, d: Vec3, dist: int, fuel: nat) -> Option<Vec3>
    decreases fuel,
{
    if fuel == 0 {
        Option::None
    } else {
        let p = point_at(o, d, dist);
        let step = eval_spec(s, t, p);
        if step < MARCH_EPS as int {
            Option::Some(p)
        } else if dist + step > MARCH_FAR as int {
            Option::None
        } else {
            march_from(s, t, o, d, dist + step, (fuel - 1) as nat)
        }
    }
}

/// The full march of a ray against a scene.
pub open spec fn march_spec(s: Sdf, t: int, o: Vec3, d: Vec3) -> Option<Vec3> {
    march_from(s, t, o, d, 0, MARCH_STEPS as nat)
}

/// Follow a ray from `origin` along `direction` and return the closest
/// surface point it hits, or `None` when no surface is encountered within
/// the step budget and the far plane.
pub fn march(sdf: &Sdf, time: i64, origin: Vec3, dir: Vec3) -> (r: Option<Vec3>)
    requires
        wf_sdf(*sdf),
        abs_i(time as int) <= 0x2000_0000,
        in_range(origin, 0x0400_0000),
        in_range(dir, 131072),
    ensures
        r == march_spec(*sdf, time as int, origin, dir),
        r matches Some(p) ==> in_range(p, 0x0500_0000) && eval_spec(*sdf, time as int, p)
            < MARCH_EPS as int,
{
    let mut dist: i64 = 0;
    let mut i: u32 = 0;
    while i < MARCH_STEPS
        invariant
            i <= MARCH_STEPS,
            0 <= dist as int <= MARCH_FAR as int,
            wf_sdf(*sdf),
            abs_i(time as int) <= 0x2000_0000,
            in_range(origin, 0x0400_0000),
            in_range(dir, 131072),
            march_spec(*sdf, time as int, origin, dir) == march_from(
                *sdf,
                time as int,
                origin,
                dir,
                dist as int,
                (MARCH_STEPS - i) as nat,
            ),
        decreases MARCH_STEPS - i,
    {
        proof {
            lemma_mul_fx_bound(dir.x as int, dist as int, 131072, 6553600);
            lemma_mul_fx_bound(dir.y as int, dist as int, 131072, 6553600);
            lemma_mul_fx_bound(dir.z as int, dist as int, 131072, 6553600);
        }
        let pt: Vec3 = add3(origin, scale3(dir, dist));
        proof {
            assert(pt == point_at(origin, dir, dist as int));
            assert(in_range(pt, 0x0500_0000));
        }
        let step: i64 = eval(sdf, time, pt);
        if step < MARCH_EPS {
            return Option::Some(pt);
        }
        dist = dist + step;
        if dist > MARCH_FAR {
            return Option::None;
        }
        i = i + 1;
    }
    Option::None
}

/// Offset of the central-difference normal estimate (about 0.001 units).
pub const NORMAL_D: i64 = 66;

/// The estimated surface normal: a central-difference gradient of the
/// scene's distance field, clamped into exact range, normalized.
pub open spec fn normal_spec(s: Sdf, t: int, p: Vec3) -> Vec3 {
    let gx = eval_spec(s, t, v3(p.x as int + NORMAL_D as int, p.y as int, p.z as int)) - eval_spec(
        s,
        t,
        v3(p.x as int - NORMAL_D as int, p.y as int, p.z as int),
    );
    let gy = eval_spec(s, t, v3(p.x as int, p.y as int + NORMAL_D as int, p.z as int)) - eval_spec(
        s,
        t,
        v3(p.x as int, p.y as int - NORMAL_D as int, p.z as int),
    );
    let gz = eval_spec(s, t, v3(p.x as int, p.y as int, p.z as int + NORMAL_D as int)) - eval_spec(
        s,
        t,
        v3(p.x as int, p.y as int, p.z as int - NORMAL_D as int),
    );
    normalize_spec(
        v3(
            clamp_spec(gx, -0x8000_0000, 0x8000_0000),
            clamp_spec(gy, -0x8000_0000, 0x8000_0000),
            clamp_spec(gz, -0x8000_0000, 0x8000_0000),
        ),
    )
}

/// Estimate the surface normal at `point`. The result is unit-scale:
/// every coordinate lies in `[-ONE, ONE]`.
pub fn normal(sdf: &Sdf, time: i64, point: Vec3) -> (n: Vec3)
    requires
        wf_sdf(*sdf),
        abs_i(time as int) <= 0x2000_0000,
        in_range(point, 0x0500_0000),
    ensures
        n == normal_spec(*sdf, time as int, point),
        in_range(n, ONE as int),
{
    let xp: Vec3 = Vec3 { x: point.x + NORMAL_D, y: point.y, z: point.z };
    let xm: Vec3 = Vec3 { x: point.x - NORMAL_D, y: point.y, z: point.z };
    let yp: Vec3 = Vec3 { x: point.x, y: point.y + NORMAL_D, z: point.z };
    let ym: Vec3 = Vec3 { x: point.x, y: point.y - NORMAL_D, z: point.z };
    let zp: Vec3 = Vec3 { x: point.x, y: point.y, z: point.z + NORMAL_D };
    let zm: Vec3 = Vec3 { x: point.x, y: point.y, z: point.z - NORMAL_D };
    let gx: i64 = eval(sdf, time, xp) - eval(sdf, time, xm);
    let gy: i64 = eval(sdf, time, yp) - eval(sdf, time, ym);
    let gz: i64 = eval(sdf, time, zp) - eval(sdf, time, zm);
    normalize(
        Vec3 {
            x: fx_clamp(gx, -0x8000_0000, 0x8000_0000),
            y: fx_clamp(gy, -0x8000_0000, 0x8000_0000),
            z: fx_clamp(gz, -0x8000_0000, 0x8000_0000),
        },
    )
}

/// Vertex shader: the full-screen triangle, one vertex per index.
pub fn main_vs(id: i32) -> (out_pos: Vec4)
    ensures
        out_pos == (match id {
            0 => Vec4 { x: -65536i64, y: -65536i64, z: 0, w: 65536 },
            1 => Vec4 { x: 196608, y: -65536i64, z: 0, w: 65536 },
            _ => Vec4 { x: -65536i64, y: 196608, z: 0, w: 65536 },
        }),
{
    match id {
        0 => Vec4 { x: -65536, y: -65536, z: 0, w: 65536 },
        1 => Vec4 { x: 196608, y: -65536, z: 0, w: 65536 },
        _ => Vec4 { x: -65536, y: 196608, z: 0, w: 65536 },
    }
}

/// Where the sun is located: (50, 100, 50).
pub open spec fn sun_pos_spec() -> Vec3 {
    Vec3 { x: 3276800, y: 6553600, z: 3276800 }
}

/// Where the camera is located: (7, 4, 7).
pub open spec fn camera_pos_spec() -> Vec3 {
    Vec3 { x: 458752, y: 262144, z: 458752 }
}

/// The color emitted where a ray hits nothing: opaque black.
pub open spec fn background_spec() -> Vec4 {
    Vec4 { x: 0, y: 0, z: 0, w: 65536 }
}

/// The color of a surface hit: a blue Lambertian diffuse term plus a white
/// specular term, both driven by the cosine between the surface normal and
/// the sun direction.
pub open spec fn shade_hit_spec(s: Sdf, t: int, hit: Vec3) -> Vec4 {
    let n = normal_spec(s, t, hit);
    let sun = sun_pos_spec();
    let sun_dir = normalize_spec(
        v3(sun.x as int - hit.x as int, sun.y as int - hit.y as int, sun.z as int - hit.z as int),
    );
    let cosine = clamp_spec(dot3_spec(n, sun_dir), 0, ONE as int);
    let glint = pow_fx_spec(cosine, 50);
    v4(
        mul_fx_spec(1311, cosine) + glint,
        mul_fx_spec(12452, cosine) + glint,
        mul_fx_spec(38011, cosine) + glint,
        ONE as int,
    )
}

/// The color of the pixel at `(pos_x, pos_y)`: its view ray is derived
/// from the normalized screen coordinate, marched against the scene, and
/// shaded; rays that hit nothing give the background color.
pub open spec fn main_fs_spec(s: Sdf, pos_x: int, pos_y: int, params: Params) -> Vec4 {
    let t = f32_bits_to_fx_spec(params.time_bits);
    let uv_x = div_fx_spec(pos_x, (params.width as int) * 65536);
    let uv_y = div_fx_spec(pos_y, (params.height as int) * 65536);
    let rd = direction_spec(camera_pos_spec(), uv_x, uv_y);
    match march_spec(s, t, camera_pos_spec(), rd) {
        Option::Some(hit) => shade_hit_spec(s, t, hit),
        Option::None => background_spec(),
    }
}

/// Fragment shader: the color of one pixel of the scene.
pub fn main_fs(sdf: &Sdf, pos_x: i64, pos_y: i64, params: &Params) -> (color: Vec4)
    requires
        wf_sdf(*sdf),
        1 <= params.width <= 32768,
        1 <= params.height <= 32768,
        0 <= pos_x as int <= (params.width as int) * 65536,
        0 <= pos_y as int <= (params.height as int) * 65536,
    ensures
        color == main_fs_spec(*sdf, pos_x as int, pos_y as int, *params),
{
    let t: i64 = time_fx_from_bits(params.time_bits);
    let wfx: i64 = (params.width as i64) * 65536;
    let hfx: i64 = (params.height as i64) * 65536;
    let uv_x: i64 = div_fx(pos_x, wfx);
    let uv_y: i64 = div_fx(pos_y, hfx);
    let ro: Vec3 = Vec3 { x: 458752, y: 262144, z: 458752 };
    let rd: Vec3 = direction(ro, uv_x, uv_y);
    let hit: Option<Vec3> = march(sdf, t, ro, rd);
    match hit {
        Option::Some(hp) => {
            let n: Vec3 = normal(sdf, t, hp);
            let sun: Vec3 = Vec3 { x: 3276800, y: 6553600, z: 3276800 };
            let sun_dir: Vec3 = normalize(sub3(sun, hp));
            let cosine: i64 = fx_clamp(dot3(n, sun_dir), 0, ONE);
            let glint: i64 = pow_fx(cosine, 50);
            proof {
                lemma_mul_fx_bound(1311, cosine as int, 1311, 65536);
                lemma_mul_fx_bound(12452, cosine as int, 12452, 65536);
                lemma_mul_fx_bound(38011, cosine as int, 38011, 65536);
            }
            Vec4 {
                x: mul_fx(1311, cosine) + glint,
                y: mul_fx(12452, cosine) + glint,
                z: mul_fx(38011, cosine) + glint,
                w: 65536,
            }
        },
        Option::None => Vec4 { x: 0, y: 0, z: 0, w: 65536 },
    }
}

/// Marching is deterministic: two marches of identical inputs always agree,
/// whether they hit the same point or both report no hit.
pub proof fn lemma_march_deterministic(
    s: Sdf,
    t: int,
    o: Vec3,
    d: Vec3,
    r1: Option<Vec3>,
    r2: Option<Vec3>,
)
    requires
        r1 == march_spec(s, t, o, d),
        r2 == march_spec(s, t, o, d),
    ensures
        r1 == r2,
{
}

/// A ray fired straight down the x-axis at a sphere from `(start, 0, 0)`
/// hits it exactly at `(radius, 0, 0)`: the march covers exactly
/// `start - radius`, the distance from the ray origin to the surface.
pub proof fn lemma_march_axis_sphere(t: int, radius: i64, start: i64)
    requires
        0 <= radius as int <= 0x4000_0000,
        radius as int + MARCH_EPS as int <= start as int,
        start as int - radius as int <= MARCH_FAR as int,
        start as int <= 0x0400_0000,
    ensures
        march_spec(
            Sdf::Sphere { radius },
            t,
            Vec3 { x: start, y: 0, z: 0 },
            Vec3 { x: -65536i64, y: 0, z: 0 },
        ) == Option::Some(Vec3 { x: radius, y: 0, z: 0 }),
{
    let s = Sdf::Sphere { radius };
    let o = Vec3 { x: start, y: 0, z: 0 };
    let d = Vec3 { x: -65536i64, y: 0, z: 0 };
    lemma_mul_fx_units(0);
    lemma_mul_fx_units(start as int);
    lemma_mul_fx_units(start as int - radius as int);
    assert(point_at(o, d, 0) == o) by {
        lemma_mul_fx_units(0);
        assert(mul_fx_spec(-65536, 0) == 0);
        assert(mul_fx_spec(0, 0) == 0);
    }
    lemma_sqrt_floor_square(start as int);
    assert(norm_sq(o) == (start as int) * (start as int));
    assert(eval_spec(s, t, o) == start as int - radius as int);
    let d1 = start as int - radius as int;
    assert(point_at(o, d, d1) == Vec3 { x: radius, y: 0, z: 0 }) by {
        assert(mul_fx_spec(-65536, d1) == -d1);
        assert(mul_fx_spec(0, d1) == 0) by {
            lemma_mul_fx_units(d1);
        }
    }
    lemma_sqrt_floor_square(radius as int);
    assert(norm_sq(Vec3 { x: radius, y: 0, z: 0 }) == (radius as int) * (radius as int));
    assert(eval_spec(s, t, Vec3 { x: radius, y: 0, z: 0 }) == 0);
    assert(march_from(s, t, o, d, 0, 64) == march_from(s, t, o, d, d1, 63));
    assert(march_from(s, t, o, d, d1, 63) == Option::Some(Vec3 { x: radius, y: 0, z: 0 }));
    assert(march_spec(s, t, o, d) == march_from(s, t, o, d, 0, 64));
}

/// A ray fired straight away from a sphere never reports a hit: from any
/// accumulated distance on, the estimate stays at least a full hit
/// threshold, so the march runs out of steps or overshoots the far plane
/// and returns the no-hit sentinel.
pub proof fn lemma_march_from_away_sphere(t: int, radius: i64, start: i64, dist: int, fuel: nat)
    requires
        0 <= radius as int <= 0x4000_0000,
        radius as int + MARCH_EPS as int <= start as int,
        start as int <= 0x0400_0000,
        0 <= dist <= MARCH_FAR as int,
    ensures
        march_from(
            Sdf::Sphere { radius },
            t,
            Vec3 { x: start, y: 0, z: 0 },
            Vec3 { x: 65536, y: 0, z: 0 },
            dist,
            fuel,
        ) == Option::<Vec3>::None,
    decreases fuel,
{
    if fuel > 0 {
        let s = Sdf::Sphere { radius };
        let o = Vec3 { x: start, y: 0, z: 0 };
        let d = Vec3 { x: 65536, y: 0, z: 0 };
        lemma_mul_fx_units(dist);
        let x = start as int + dist;
        let p = point_at(o, d, dist);
        assert(p == Vec3 { x: x as i64, y: 0, z: 0 });
        assert(p.x as int == x && p.y as int == 0 && p.z as int == 0);
        lemma_sqrt_floor_square(x);
        assert(norm_sq(p) == x * x);
        let step = eval_spec(s, t, p);
        assert(step == x - radius as int);
        assert(step >= MARCH_EPS as int);
        if dist + step <= MARCH_FAR as int {
            lemma_march_from_away_sphere(t, radius, start, dist + step, (fuel - 1) as nat);
        }
    }
}

/// A ray fired straight away from a sphere returns the no-hit sentinel.
pub proof fn lemma_march_away_from_sphere(t: int, radius: i64, start: i64)
    requires
        0 <= radius as int <= 0x4000_0000,
        radius as int + MARCH_EPS as int <= start as int,
        start as int <= 0x0400_0000,
    ensures
        march_spec(
            Sdf::Sphere { radius },
            t,
            Vec3 { x: start, y: 0, z: 0 },
            Vec3 { x: 65536, y: 0, z: 0 },
        ) == Option::<Vec3>::None,
{
    lemma_march_from_away_sphere(t, radius, start, 0, MARCH_STEPS as nat);
}

/// A ray whose very first distance estimate already lies beyond the far
/// plane is abandoned at once: no hit.
pub proof fn lemma_march_far_start(s: Sdf, t: int, o: Vec3, d: Vec3)
    requires
        eval_spec(s, t, point_at(o, d, 0)) >= MARCH_EPS as int,
        eval_spec(s, t, point_at(o, d, 0)) > MARCH_FAR as int,
    ensures
        march_spec(s, t, o, d) == Option::<Vec3>::None,
{
}

/// A pixel whose view ray hits nothing is painted exactly the background
/// color.
pub proof fn lemma_miss_shades_background(s: Sdf, pos_x: int, pos_y: int, params: Params)
    requires
        march_spec(
            s,
            f32_bits_to_fx_spec(params.time_bits),
            camera_pos_spec(),
            direction_spec(
                camera_pos_spec(),
                div_fx_spec(pos_x, (params.width as int) * 65536),
                div_fx_spec(pos_y, (params.height as int) * 65536),
            ),
        ) is None,
    ensures
        main_fs_spec(s, pos_x, pos_y, params) == background_spec(),
{
}

} // verus!
