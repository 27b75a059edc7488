//! Geometry kernel: vectors, normalization, rays and splines on concrete
//! values.

use microtraffic::num::UNIT;
use microtraffic::ray::Ray;
use microtraffic::spline::Spline;
use microtraffic::v2::{vec2, Vec2};
use microtraffic::v3::{vec3, Vec3};

#[test]
fn normalize_of_zero_is_none() {
    assert_eq!(Vec2 { x: 0, y: 0 }.try_normalize(), None);
    assert_eq!(Vec3 { x: 0, y: 0, z: 0 }.try_normalize(), None);
}

#[test]
fn normalize_three_four_five() {
    let v = vec2(3000, 4000);
    let u = v.try_normalize().unwrap();
    assert_eq!(u, vec2(600, 800));
    // Unit magnitude, exactly in this case.
    assert_eq!(u.magnitude2(), 1_000_000);
    // Direction preserved: positive dot with the original.
    assert!(u.dot(v) > 0);
}

#[test]
fn normalize_magnitude_near_unit() {
    // A direction that does not normalize exactly still lands within half
    // a percent of unit length.
    let v = vec2(1234, 777);
    let u = v.try_normalize().unwrap();
    let m2 = u.magnitude2();
    assert!((995_000..=1_003_000).contains(&m2), "magnitude2 {m2}");
    assert!(u.dot(v) > 0);
}

#[test]
fn normalize_small_vector_direction_preserved() {
    let v = vec2(-2, 1);
    let u = v.try_normalize().unwrap();
    assert!(u.dot(v) > 0);
    assert!(u.x < 0);
}

#[test]
fn dir_dist_reports_magnitude() {
    let (d, dist) = vec2(0, -7000).dir_dist().unwrap();
    assert_eq!(dist, 7000);
    assert_eq!(d, vec2(0, -1000));
}

#[test]
fn dot_cross_perp() {
    let a = vec2(2000, 1000);
    let b = vec2(-1000, 3000);
    assert_eq!(a.dot(b), 2000 * -1000 + 1000 * 3000);
    assert_eq!(a.perp_dot(b), 2000 * 3000 - 1000 * -1000);
    assert_eq!(a.perpendicular(), vec2(1000, -2000));
}

#[test]
fn distances_and_closeness() {
    let a = vec2(0, 0);
    let b = vec2(3000, 4000);
    assert_eq!(a.distance(b), 5000);
    assert_eq!(a.distance2(b), 25_000_000);
    assert!(a.is_close(b, 5000));
    assert!(!a.is_close(b, 4999));
}

#[test]
fn mul_len_scales_directions() {
    let d = vec2(1000, 0);
    assert_eq!(d.mul_len(2500), vec2(2500, 0));
    let d = vec2(600, 800);
    assert_eq!(d.mul_len(5000), vec2(3000, 4000));
}

#[test]
fn ray_intersection_forward() {
    // Eastbound ray from the origin; northbound ray from (5, -5).
    let r1 = Ray::new(vec2(0, 0), vec2(UNIT, 0));
    let r2 = Ray::new(vec2(5000, -5000), vec2(0, UNIT));
    let (d1, d2) = r1.both_dist_to_inter(&r2).unwrap();
    assert_eq!(d1, 5000);
    assert_eq!(d2, 5000);
    // Both reconstructions name the same point.
    let p = r1.intersection_point(&r2).unwrap();
    assert_eq!(p, vec2(5000, 0));
}

#[test]
fn ray_intersection_behind_is_none() {
    // The crossing lies behind the first ray's origin.
    let r1 = Ray::new(vec2(0, 0), vec2(UNIT, 0));
    let r2 = Ray::new(vec2(-5000, -5000), vec2(0, UNIT));
    assert_eq!(r1.both_dist_to_inter(&r2), None);
}

#[test]
fn ray_intersection_parallel_is_none() {
    let r1 = Ray::new(vec2(0, 0), vec2(UNIT, 0));
    let r2 = Ray::new(vec2(0, 1000), vec2(UNIT, 0));
    assert_eq!(r1.both_dist_to_inter(&r2), None);
}

#[test]
fn ray_intersection_symmetric_pair() {
    // An oblique pair: both distances positive, common point shared.
    let r1 = Ray::new(vec2(-2000, 0), vec2(UNIT, 0));
    let r2 = Ray::new(vec2(4000, -6000), vec2(-600, 800));
    let (d1, d2) = r1.both_dist_to_inter(&r2).unwrap();
    assert!(d1 > 0 && d2 > 0);
    let p1 = r1.intersection_point(&r2).unwrap();
    let p2 = r2.intersection_point(&r1).unwrap();
    // Fixed-point reconstruction from either side lands within a few
    // milli-units of the same point.
    assert!(p1.distance(p2) < 10, "p1 {p1:?} p2 {p2:?}");
}

#[test]
fn spline_endpoints_and_midpoint() {
    let s = Spline {
        from: vec3(0, 0, 0),
        to: vec3(10_000, 0, 0),
        from_derivative: vec3(3000, 0, 0),
        to_derivative: vec3(3000, 0, 0),
    };
    assert_eq!(s.get(0), vec3(0, 0, 0));
    assert_eq!(s.get(1000), vec3(10_000, 0, 0));
    assert_eq!(s.get(500), vec3(5000, 0, 0));
    // The derivative points along the motion.
    let d = s.derivative(500);
    assert!(d.x > 0);
    assert_eq!(d.y, 0);
}

#[test]
fn vec3_ops() {
    let a = vec3(1000, 2000, 3000);
    let b = vec3(-1000, 2000, 500);
    assert_eq!(a.dot(b), -1_000_000 + 4_000_000 + 1_500_000);
    assert_eq!(a.xy(), vec2(1000, 2000));
    assert_eq!(vec3(0, 3000, 4000).magnitude(), 5000);
    assert!(a.is_close(b, 4000));
    assert!(!a.is_close(b, 3000));
}

#[test]
fn lerp_min_max_and_friends() {
    let a = vec2(0, 0);
    let b = vec2(10_000, -4000);
    assert_eq!(a.lerp(b, 0), a);
    assert_eq!(a.lerp(b, 1000), b);
    assert_eq!(a.lerp(b, 500), vec2(5000, -2000));
    assert_eq!(a.min(b), vec2(0, -4000));
    assert_eq!(a.max(b), vec2(10_000, 0));
    assert_eq!(Vec2::splat(7), vec2(7, 7));
    assert_eq!(b.flipy(), vec2(10_000, 4000));
    assert_eq!(b.flipx(), vec2(-10_000, -4000));
    assert_eq!(b.sign(), vec2(1, -1));
    assert_eq!(vec2(0, 5).sign(), vec2(0, 1));
}

#[test]
fn cap_magnitude_shrinks_only_long_vectors() {
    let v = vec2(3000, 4000);
    assert_eq!(v.cap_magnitude(6000), v);
    assert_eq!(v.cap_magnitude(5000), v);
    // Capped to half its length: exactly the half vector here.
    assert_eq!(v.cap_magnitude(2500), vec2(1500, 2000));
}

#[test]
fn normalize_to_scales_to_requested_length() {
    let v = vec2(3000, 4000);
    assert_eq!(v.try_normalize_to(10_000), Some(vec2(6000, 8000)));
    assert_eq!(vec2(0, 0).try_normalize_to(10_000), None);
}

#[test]
fn rotated_by_quarter_turn() {
    let v = vec2(5000, 1000);
    // cossin (0, 1000) is a quarter turn counterclockwise.
    assert_eq!(v.rotated_by(vec2(0, 1000)), vec2(-1000, 5000));
    // cossin (1000, 0) is the identity.
    assert_eq!(v.rotated_by(vec2(1000, 0)), v);
}
