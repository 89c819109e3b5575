//! Ray-marching and shading: hits, misses, determinism, and the
//! end-to-end pixel scenario.

use sdf_playground::common::{direction, Params};
use sdf_playground::fx::ONE;
use sdf_playground::sdf::Sdf;
use sdf_playground::shader::{
    demo_scene, main_fs, main_vs, march, normal, scene, Vec4, MARCH_EPS,
};
use sdf_playground::vec3::{neg3, normalize, Vec3};

fn v(x: i64, y: i64, z: i64) -> Vec3 {
    Vec3 { x, y, z }
}

const BACKGROUND: Vec4 = Vec4 { x: 0, y: 0, z: 0, w: 65536 };

#[test]
fn march_hits_axis_sphere_at_exact_distance() {
    // A ray fired straight at a unit sphere from 7 units out hits the
    // surface exactly, having covered 7 - 1 = 6 units.
    let s = Sdf::Sphere { radius: ONE };
    let origin = v(7 * ONE, 0, 0);
    let dir = v(-ONE, 0, 0);
    let hit = march(&s, 0, origin, dir).expect("the ray aims at the sphere");
    assert_eq!((hit.x, hit.y, hit.z), (ONE, 0, 0));
    assert_eq!(origin.x - hit.x, 6 * ONE);
}

#[test]
fn march_is_deterministic() {
    let s = demo_scene();
    let origin = v(7 * ONE, 4 * ONE, 7 * ONE);
    let dir = normalize(neg3(origin));
    let a = march(&s, 12345, origin, dir);
    let b = march(&s, 12345, origin, dir);
    assert_eq!(a, b);
}

#[test]
fn march_misses_ray_aimed_away() {
    // Fired away from the sphere, the ray's distance estimate only grows
    // until the far plane is exceeded: the no-hit sentinel.
    let s = Sdf::Sphere { radius: ONE };
    let away = march(&s, 0, v(7 * ONE, 0, 0), v(ONE, 0, 0));
    assert!(away.is_none());
}

#[test]
fn march_abandons_ray_starting_beyond_clip() {
    // Outside the demo scene's clip radius the field reports the far
    // sentinel, which exceeds the far plane at the very first step.
    let s = demo_scene();
    let r = march(&s, 0, v(16 * ONE, 0, 0), v(0, 0, ONE));
    assert!(r.is_none());
}

#[test]
fn normal_on_axis_sphere_points_outward() {
    let s = Sdf::Sphere { radius: ONE };
    let n = normal(&s, 0, v(ONE, 0, 0));
    // The outward normal at (1, 0, 0) is the +x axis.
    assert!(n.x > ONE / 2);
    assert_eq!((n.y, n.z), (0, 0));
}

#[test]
fn scene_reports_far_outside_clip_radius() {
    let far = scene(0, v(16 * ONE, 0, 0));
    assert_eq!(far, sdf_playground::sdf::SDF_FAR);
    // Within the clip radius the scene is a real distance: well below the
    // sentinel, and near the sphere's own distance or the ocean's.
    let near = scene(0, v(0, 10 * ONE, 0));
    assert!(near < sdf_playground::sdf::SDF_FAR);
    assert!(near >= 2 * ONE);
}

#[test]
fn full_screen_triangle_vertices() {
    assert_eq!(main_vs(0), Vec4 { x: -ONE, y: -ONE, z: 0, w: ONE });
    assert_eq!(main_vs(1), Vec4 { x: 3 * ONE, y: -ONE, z: 0, w: ONE });
    assert_eq!(main_vs(2), Vec4 { x: -ONE, y: 3 * ONE, z: 0, w: ONE });
}

#[test]
fn center_ray_looks_at_scene_origin() {
    // The center pixel's ray is exactly the camera's look vector.
    let origin = v(7 * ONE, 4 * ONE, 7 * ONE);
    let center = direction(origin, ONE / 2, ONE / 2);
    let look = normalize(neg3(origin));
    assert_eq!(center, look);
}

#[test]
fn sphere_scene_center_pixel_hits_corner_pixel_misses() {
    // A trivial scene: a unit sphere at the origin, viewed at 100x100
    // from (7, 4, 7). The center pixel's ray hits and is shaded; a corner
    // pixel's ray misses and is painted exactly the background color.
    let s = Sdf::Sphere { radius: ONE };
    let params = Params { width: 100, height: 100, time_bits: 0 };
    let center = main_fs(&s, 50 * ONE + ONE / 2, 50 * ONE + ONE / 2, &params);
    assert_ne!(center, BACKGROUND);
    assert_eq!(center.w, ONE);
    let corner = main_fs(&s, ONE / 2, ONE / 2, &params);
    assert_eq!(corner, BACKGROUND);
}

#[test]
fn hit_pixels_are_lit_by_the_sun() {
    // The center pixel of the unit-sphere scene faces the sun well enough
    // to receive both diffuse and specular light: a color strictly above
    // the background in every channel.
    let s = Sdf::Sphere { radius: ONE };
    let params = Params { width: 100, height: 100, time_bits: 0 };
    let center = main_fs(&s, 50 * ONE + ONE / 2, 50 * ONE + ONE / 2, &params);
    assert!(center.x > 0);
    assert!(center.y > 0);
    assert!(center.z > 0);
}

#[test]
fn demo_scene_tree_agrees_with_scene_function() {
    let s = demo_scene();
    let points = [
        v(0, 0, 0),
        v(2 * ONE, ONE, -3 * ONE),
        v(10 * ONE, 4 * ONE, 0),
        v(16 * ONE, 0, 0),
    ];
    for t in [0, 5000, 123456] {
        for p in points {
            assert_eq!(sdf_playground::sdf::eval(&s, t, p), scene(t, p));
        }
    }
}

#[test]
fn march_convergence_reports_points_near_the_surface() {
    let s = demo_scene();
    let origin = v(7 * ONE, 4 * ONE, 7 * ONE);
    let dir = normalize(neg3(origin));
    if let Some(hit) = march(&s, 0, origin, dir) {
        let d = sdf_playground::sdf::eval(&s, 0, hit);
        assert!(d < MARCH_EPS);
    } else {
        panic!("the ray toward the origin crosses the clipped ocean sphere");
    }
}
