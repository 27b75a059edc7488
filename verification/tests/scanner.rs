//! Front-obstacle scanner behaviour over hand-built neighbourhoods.

use microtraffic::itinerary::{Itinerary, Traversable, TraverseKind};
use microtraffic::physics::{PhysicsGroup, PhysicsObject, Transform};
use microtraffic::scanner::calc_front_dist;
use microtraffic::v2::{vec2, Vec2};
use microtraffic::v3::vec3;
use microtraffic::vehicle::{Vehicle, VehicleKind};

fn ego(speed: i64, radius: i64) -> (Vehicle, Transform, PhysicsObject, Itinerary) {
    let vehicle = Vehicle::new(VehicleKind::Car);
    let trans = Transform { position: vec3(0, 0, 0), dir: vec3(-1000, 0, 0) };
    let obj = PhysicsObject {
        dir: vec2(-1000, 0),
        speed,
        radius,
        height: 0,
        group: PhysicsGroup::Vehicles,
        flag: 0,
    };
    (vehicle, trans, obj, Itinerary::none())
}

fn car_at(x: i64, y: i64, dir: Vec2, speed: i64, radius: i64, flag: u64) -> (Vec2, PhysicsObject) {
    (
        vec2(x, y),
        PhysicsObject { dir, speed, radius, height: 0, group: PhysicsGroup::Vehicles, flag },
    )
}

#[test]
fn empty_neighbourhood_reports_ceiling_and_no_flag() {
    let (vehicle, trans, obj, it) = ego(0, 1000);
    let neighs: Vec<(Vec2, PhysicsObject)> = Vec::new();
    let (dist, flag) = calc_front_dist(&vehicle, &trans, &obj, &it, &neighs, 800);
    assert_eq!(dist, 50_000);
    assert_eq!(flag, 0);
}

#[test]
fn closer_cone_neighbour_never_increases_distance() {
    let (vehicle, trans, obj, it) = ego(0, 1000);
    // One car dead ahead at 10 m.
    let far = car_at(-10_000, 0, vec2(-1000, 0), 0, 1000, 3);
    let neighs = vec![far];
    let (d1, f1) = calc_front_dist(&vehicle, &trans, &obj, &it, &neighs, 0);
    assert_eq!(d1, 10_000 - 1000 - 1000);
    assert_eq!(f1, 3);
    // Adding a strictly closer car ahead can only shrink the result.
    let near = car_at(-5000, 0, vec2(-1000, 0), 0, 1000, 9);
    let neighs2 = vec![far, near];
    let (d2, f2) = calc_front_dist(&vehicle, &trans, &obj, &it, &neighs2, 0);
    assert!(d2 <= d1);
    assert_eq!(d2, 5000 - 1000 - 1000);
    assert_eq!(f2, 9);
}

#[test]
fn pedestrian_gets_extra_buffer() {
    let (vehicle, trans, obj, it) = ego(0, 1000);
    let ped = (
        vec2(-10_000, 0),
        PhysicsObject {
            dir: vec2(0, 1000),
            speed: 0,
            radius: 500,
            height: 0,
            group: PhysicsGroup::Pedestrians,
            flag: 0,
        },
    );
    let neighs = vec![ped];
    let (d, _) = calc_front_dist(&vehicle, &trans, &obj, &it, &neighs, 0);
    assert_eq!(d, 10_000 - 1000 - 500 - 1000);
}

#[test]
fn neighbour_behind_is_ignored() {
    let (vehicle, trans, obj, it) = ego(0, 1000);
    let behind = car_at(8000, 0, vec2(-1000, 0), 0, 1000, 5);
    let neighs = vec![behind];
    let (d, flag) = calc_front_dist(&vehicle, &trans, &obj, &it, &neighs, 0);
    assert_eq!(d, 50_000);
    assert_eq!(flag, 0);
}

#[test]
fn grade_separated_neighbour_is_ignored() {
    let (vehicle, trans, obj, it) = ego(0, 1000);
    let mut over = car_at(-10_000, 0, vec2(-1000, 0), 0, 1000, 5);
    over.1.height = 6000;
    let neighs = vec![over];
    let (d, _) = calc_front_dist(&vehicle, &trans, &obj, &it, &neighs, 0);
    assert_eq!(d, 50_000);
}

#[test]
fn oncoming_vehicle_outside_cone_is_ignored_without_lane() {
    // A car ahead but moving toward the ego (opposite heading) fails the
    // cone's direction test, and its parallel ray yields no conflict.
    let (vehicle, trans, obj, it) = ego(0, 1000);
    let oncoming = car_at(-10_000, 0, vec2(1000, 0), 5000, 1000, 5);
    let neighs = vec![oncoming];
    let (d, _) = calc_front_dist(&vehicle, &trans, &obj, &it, &neighs, 0);
    assert_eq!(d, 50_000);
}

#[test]
fn early_exit_returns_first_close_hit() {
    let (vehicle, trans, obj, it) = ego(0, 1000);
    let close = car_at(-2500, 0, vec2(-1000, 0), 0, 1000, 7);
    let farther = car_at(-2200, 0, vec2(-1000, 0), 0, 1000, 8);
    let neighs = vec![close, farther];
    // Cutoff above the first candidate: the scan stops there and keeps
    // its flag even though a later neighbour is closer.
    let (d, flag) = calc_front_dist(&vehicle, &trans, &obj, &it, &neighs, 800);
    assert_eq!(d, 2500 - 1000 - 1000);
    assert_eq!(flag, 7);
}

#[test]
fn perpendicular_conflict_yields_with_margin() {
    // Ego eastbound; a faster car approaches the crossing from the south
    // ahead-right, outside the cone.  The ego does not clear the conflict
    // point first, so it yields with the fixed margin.
    let vehicle = Vehicle::new(VehicleKind::Car);
    let trans = Transform { position: vec3(0, 0, 0), dir: vec3(1000, 0, 0) };
    let obj = PhysicsObject {
        dir: vec2(1000, 0),
        speed: 0,
        radius: 1000,
        height: 0,
        group: PhysicsGroup::Vehicles,
        flag: 0,
    };
    let it = Itinerary::none();
    let other = car_at(8000, -8000, vec2(0, 1000), 3000, 1000, 11);
    let neighs = vec![other];
    let (d, flag) = calc_front_dist(&vehicle, &trans, &obj, &it, &neighs, 0);
    // Distance between centres is sqrt(128) ~ 11.313 units.
    assert_eq!(d, 11_313 - 1000 - 1000 - 5000);
    assert_eq!(flag, 11);
}

#[test]
fn perpendicular_conflict_skipped_when_ego_clears_first() {
    // The same geometry with both cars slow: the ego arrives first and
    // keeps right of way.
    let vehicle = Vehicle::new(VehicleKind::Car);
    let trans = Transform { position: vec3(0, 0, 0), dir: vec3(1000, 0, 0) };
    let obj = PhysicsObject {
        dir: vec2(1000, 0),
        speed: 0,
        radius: 1000,
        height: 0,
        group: PhysicsGroup::Vehicles,
        flag: 0,
    };
    let it = Itinerary::none();
    let other = car_at(10_000, -10_000, vec2(0, 1000), 0, 1000, 11);
    let neighs = vec![other];
    let (d, flag) = calc_front_dist(&vehicle, &trans, &obj, &it, &neighs, 0);
    assert_eq!(d, 50_000);
    assert_eq!(flag, 0);
}

#[test]
fn lane_narrows_cone_sideways() {
    // On a lane, a neighbour 4 m to the side at stationary speed is
    // outside the lateral bound only if beyond 3 + 0.3 * speed units.
    let mut it = Itinerary::none();
    it.travers = Some(Traversable { kind: TraverseKind::Lane(1) });
    let vehicle = Vehicle::new(VehicleKind::Car);
    let trans = Transform { position: vec3(0, 0, 0), dir: vec3(-1000, 0, 0) };
    let obj = PhysicsObject {
        dir: vec2(-1000, 0),
        speed: 0,
        radius: 1000,
        height: 0,
        group: PhysicsGroup::Vehicles,
        flag: 0,
    };
    // Ahead-left by 3.5 m laterally at 12 m ahead: still well inside the
    // bearing cone at speed 0, but outside the 3 m lateral bound.
    let side = car_at(-12_000, 3500, vec2(-1000, 0), 0, 1000, 5);
    let neighs = vec![side];
    let (d, _) = calc_front_dist(&vehicle, &trans, &obj, &it, &neighs, 0);
    assert_eq!(d, 50_000);
    // Without the lane constraint the same neighbour registers.
    let it2 = Itinerary::none();
    let (d2, _) = calc_front_dist(&vehicle, &trans, &obj, &it2, &neighs, 0);
    assert!(d2 < 50_000);
}
