//! The distance-field primitives and combinators, and the fixed-point
//! substrate they rest on.

use sdf_playground::fx::{div_fx, fx_clamp, isqrt_u64, mul_fx, ONE};
use sdf_playground::sdf::{
    intersection, ocean, rect, repeat, sphere, subtraction, union, SDF_FAR,
};
use sdf_playground::vec3::{length, normalize, Vec3};

fn v(x: i64, y: i64, z: i64) -> Vec3 {
    Vec3 { x, y, z }
}

#[test]
fn combinators_are_min_and_max() {
    assert_eq!(union(5, -3), -3);
    assert_eq!(union(-3, 5), -3);
    assert_eq!(union(7, 7), 7);
    assert_eq!(intersection(5, -3), 5);
    assert_eq!(intersection(-3, 5), 5);
    assert_eq!(subtraction(2, 7), 2);
    assert_eq!(subtraction(-10, 7), -7);
    assert_eq!(subtraction(0, -4), 4);
}

#[test]
fn sphere_boundary_distance_is_zero() {
    // A point at exactly radius distance along an axis: distance 0.
    let r: i64 = 3 * ONE;
    assert_eq!(sphere(v(r, 0, 0), r), 0);
    assert_eq!(sphere(v(0, -r, 0), r), 0);
    // One unit outside and inside.
    assert_eq!(sphere(v(4 * ONE, 0, 0), 3 * ONE), ONE);
    assert_eq!(sphere(v(2 * ONE, 0, 0), 3 * ONE), -ONE);
}

#[test]
fn rect_face_distance_is_zero() {
    let b = v(3 * ONE, 2 * ONE, 2 * ONE);
    // On the +x face, within the other half-extents.
    assert_eq!(rect(v(3 * ONE, 100, -50), b), 0);
    // One unit beyond the +x face.
    assert_eq!(rect(v(4 * ONE, 0, 0), b), ONE);
    // At the center: the deepest inside coordinate governs.
    assert_eq!(rect(v(0, 0, 0), b), -2 * ONE);
}

#[test]
fn repeat_folds_into_lattice_cell() {
    let s = v(ONE, ONE, ONE);
    let r = repeat(v(5 * ONE + 100, 0, -5 * ONE - 100), s);
    assert_eq!(r.x, 100);
    assert_eq!(r.y, 0);
    assert_eq!(r.z, -100);
}

#[test]
fn ocean_stays_near_surface_height_and_is_deterministic() {
    let p = v(2 * ONE, ONE / 2, -3 * ONE);
    let a = ocean(1000, p);
    let b = ocean(1000, p);
    assert_eq!(a, b);
    // The weighted average wave height keeps the distance within 15 units
    // of the point's height.
    assert!((a - p.y).abs() <= 15 * ONE);
    // Waves move with time.
    let later = ocean(200000, p);
    assert_ne!(a, later);
}

#[test]
fn fixed_point_products_round_toward_zero() {
    assert_eq!(mul_fx(ONE, ONE), ONE);
    assert_eq!(mul_fx(-3 * ONE, 2 * ONE), -6 * ONE);
    assert_eq!(mul_fx(1, 1), 0);
    assert_eq!(mul_fx(-1, 1), 0);
    assert_eq!(mul_fx(ONE / 2, ONE / 2), ONE / 4);
    assert_eq!(div_fx(ONE, 2 * ONE), ONE / 2);
    assert_eq!(div_fx(-ONE, 2 * ONE), -(ONE / 2));
    assert_eq!(fx_clamp(100, -50, 50), 50);
    assert_eq!(fx_clamp(-100, -50, 50), -50);
    assert_eq!(fx_clamp(25, -50, 50), 25);
}

#[test]
fn integer_square_roots_are_exact_floors() {
    assert_eq!(isqrt_u64(0), 0);
    assert_eq!(isqrt_u64(15), 3);
    assert_eq!(isqrt_u64(16), 4);
    assert_eq!(isqrt_u64(u64::MAX), 0xffff_ffff);
}

#[test]
fn lengths_and_normalization() {
    assert_eq!(length(v(3 * ONE, 4 * ONE, 0)), 5 * ONE);
    let n = normalize(v(3 * ONE, 4 * ONE, 0));
    assert_eq!(n.x, 3 * ONE / 5);
    assert_eq!(n.y, 4 * ONE / 5);
    assert_eq!(n.z, 0);
    // The zero vector normalizes to zero rather than dividing by zero.
    let z = normalize(v(0, 0, 0));
    assert_eq!((z.x, z.y, z.z), (0, 0, 0));
}

#[test]
fn far_sentinel_dominates_every_scene_value() {
    // Any value the primitives produce at evaluable points stays well
    // below the far sentinel.
    let d = sphere(v(100 * ONE, 0, 0), ONE);
    assert!(d < SDF_FAR);
}
