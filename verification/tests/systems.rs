//! State machine transitions, the motion integrator, and the per-tick
//! orchestration.

use microtraffic::itinerary::{Itinerary, Traversable, TraverseKind};
use microtraffic::map::{Lane, ParkingSpot, TrafficControl, WorldMap};
use microtraffic::motion::physics;
use microtraffic::physics::{GameTime, Kinematics, PhysicsGroup, PhysicsObject, Transform};
use microtraffic::spline::Spline;
use microtraffic::systems::{danger_query_radius, vehicle_decision, vehicle_state_update, VehicleCommand};
use microtraffic::v2::{vec2, Vec2};
use microtraffic::v3::vec3;
use microtraffic::vehicle::{Vehicle, VehicleKind, VehicleState};

fn park_spline() -> Spline {
    Spline {
        from: vec3(0, 0, 0),
        to: vec3(10_000, 0, 0),
        from_derivative: vec3(3000, 0, 0),
        to_derivative: vec3(3000, 0, 0),
    }
}

#[test]
fn road_to_park_completes_and_detaches_collider() {
    let map = WorldMap::new();
    let time = GameTime { delta: 1000, seconds: 0 };
    let mut vehicle = Vehicle::new(VehicleKind::Car);
    vehicle.state = VehicleState::RoadToPark(park_spline(), 900, 5);
    let mut trans = Transform { position: vec3(0, 0, 0), dir: vec3(1000, 0, 0) };
    let mut kin = Kinematics { velocity: vec3(2000, 0, 0), speed: 2000 };
    let cmd = vehicle_state_update(&mut vehicle, &mut trans, &mut kin, &time, &map);
    assert_eq!(cmd, Some(VehicleCommand::DetachCollider));
    assert!(matches!(vehicle.state, VehicleState::Parked(5)));
    assert_eq!(kin.velocity, vec3(0, 0, 0));
    assert_eq!(kin.speed, 0);
}

#[test]
fn road_to_park_advances_progress() {
    let map = WorldMap::new();
    let time = GameTime { delta: 1000, seconds: 0 };
    let mut vehicle = Vehicle::new(VehicleKind::Car);
    vehicle.state = VehicleState::RoadToPark(park_spline(), 100, 5);
    let mut trans = Transform { position: vec3(0, 0, 0), dir: vec3(1000, 0, 0) };
    let mut kin = Kinematics { velocity: vec3(0, 0, 0), speed: 0 };
    let cmd = vehicle_state_update(&mut vehicle, &mut trans, &mut kin, &time, &map);
    assert_eq!(cmd, None);
    // One second of a four-second glide: a quarter of the way further.
    assert!(matches!(vehicle.state, VehicleState::RoadToPark(_, 350, 5)));
}

#[test]
fn parked_snaps_to_spot_and_dies_without_one() {
    let mut map = WorldMap::new();
    let spot_trans = Transform { position: vec3(7000, 8000, 0), dir: vec3(0, 1000, 0) };
    map.add_spot(5, ParkingSpot { trans: spot_trans });
    let time = GameTime { delta: 50, seconds: 0 };
    let mut vehicle = Vehicle::new(VehicleKind::Car);
    vehicle.state = VehicleState::Parked(5);
    let mut trans = Transform { position: vec3(0, 0, 0), dir: vec3(1000, 0, 0) };
    let mut kin = Kinematics { velocity: vec3(0, 0, 0), speed: 0 };
    let cmd = vehicle_state_update(&mut vehicle, &mut trans, &mut kin, &time, &map);
    assert_eq!(cmd, None);
    assert_eq!(trans, spot_trans);
    // The spot disappearing under the vehicle is answered by destruction.
    map.remove_spot(5);
    let cmd = vehicle_state_update(&mut vehicle, &mut trans, &mut kin, &time, &map);
    assert_eq!(cmd, Some(VehicleCommand::Destroy));
}

#[test]
fn driving_state_is_left_alone_by_state_update() {
    let map = WorldMap::new();
    let time = GameTime { delta: 50, seconds: 0 };
    let mut vehicle = Vehicle::new(VehicleKind::Car);
    let mut trans = Transform { position: vec3(0, 0, 0), dir: vec3(1000, 0, 0) };
    let mut kin = Kinematics { velocity: vec3(0, 0, 0), speed: 0 };
    let cmd = vehicle_state_update(&mut vehicle, &mut trans, &mut kin, &time, &map);
    assert_eq!(cmd, None);
    assert!(matches!(vehicle.state, VehicleState::Driving));
}

#[test]
fn integrator_accelerates_toward_desired_speed() {
    let map = WorldMap::new();
    let time = GameTime { delta: 1000, seconds: 0 };
    let mut vehicle = Vehicle::new(VehicleKind::Car);
    let mut trans = Transform { position: vec3(0, 0, 0), dir: vec3(1000, 0, 0) };
    let mut kin = Kinematics { velocity: vec3(0, 0, 0), speed: 0 };
    let obj = PhysicsObject {
        dir: vec2(1000, 0),
        speed: 0,
        radius: 1000,
        height: 0,
        group: PhysicsGroup::Vehicles,
        flag: 0,
    };
    physics(&mut trans, &mut kin, &mut vehicle, &time, &obj, &map, 12_000, vec3(1000, 0, 0));
    // One second at 3 m/s^2: speed 3 m/s, already aligned.
    assert_eq!(kin.speed, 3000);
    assert_eq!(kin.velocity, vec3(3000, 0, 0));
    assert_eq!(trans.dir, vec3(1000, 0, 0));
}

#[test]
fn integrator_brakes_no_harder_than_deceleration() {
    let map = WorldMap::new();
    let time = GameTime { delta: 1000, seconds: 0 };
    let mut vehicle = Vehicle::new(VehicleKind::Car);
    let mut trans = Transform { position: vec3(0, 0, 0), dir: vec3(1000, 0, 0) };
    let mut kin = Kinematics { velocity: vec3(10_000, 0, 0), speed: 10_000 };
    let obj = PhysicsObject {
        dir: vec2(1000, 0),
        speed: 10_000,
        radius: 1000,
        height: 0,
        group: PhysicsGroup::Vehicles,
        flag: 0,
    };
    physics(&mut trans, &mut kin, &mut vehicle, &time, &obj, &map, 0, vec3(1000, 0, 0));
    // One second at 4 m/s^2 of braking from 10 m/s.
    assert_eq!(kin.speed, 6000);
}

#[test]
fn integrator_turns_no_faster_than_limits_allow() {
    let map = WorldMap::new();
    let time = GameTime { delta: 1000, seconds: 0 };
    let mut vehicle = Vehicle::new(VehicleKind::Car);
    let mut trans = Transform { position: vec3(0, 0, 0), dir: vec3(1000, 0, 0) };
    let mut kin = Kinematics { velocity: vec3(0, 0, 0), speed: 0 };
    let obj = PhysicsObject {
        dir: vec2(1000, 0),
        speed: 0,
        radius: 1000,
        height: 0,
        group: PhysicsGroup::Vehicles,
        flag: 0,
    };
    // Ask for a right-angle turn at rest: angular velocity is limited by
    // the turn-rate ceiling from (new) speed, so the heading moves but
    // does not reach the target in one tick.
    physics(&mut trans, &mut kin, &mut vehicle, &time, &obj, &map, 12_000, vec3(0, 1000, 0));
    assert_ne!(trans.dir, vec3(0, 1000, 0));
    assert!(trans.dir.y > 0, "turn started: {:?}", trans.dir);
    assert!(vehicle.ang_velocity > 0);
    assert!(vehicle.ang_velocity <= 3000);
}

#[test]
fn integrator_snaps_parked_vehicle_to_spot() {
    let mut map = WorldMap::new();
    let spot_trans = Transform { position: vec3(7000, 8000, 0), dir: vec3(0, 1000, 0) };
    map.add_spot(9, ParkingSpot { trans: spot_trans });
    let time = GameTime { delta: 50, seconds: 0 };
    let mut vehicle = Vehicle::new(VehicleKind::Car);
    vehicle.state = VehicleState::Parked(9);
    let mut trans = Transform { position: vec3(0, 0, 0), dir: vec3(1000, 0, 0) };
    let mut kin = Kinematics { velocity: vec3(0, 0, 0), speed: 0 };
    let obj = PhysicsObject {
        dir: vec2(1000, 0),
        speed: 0,
        radius: 1000,
        height: 0,
        group: PhysicsGroup::Vehicles,
        flag: 0,
    };
    physics(&mut trans, &mut kin, &mut vehicle, &time, &obj, &map, 0, vec3(0, 0, 0));
    assert_eq!(trans, spot_trans);
}

#[test]
fn integrator_rides_the_spline_while_parking() {
    let map = WorldMap::new();
    let time = GameTime { delta: 50, seconds: 0 };
    let mut vehicle = Vehicle::new(VehicleKind::Car);
    vehicle.state = VehicleState::RoadToPark(park_spline(), 500, 5);
    let mut trans = Transform { position: vec3(0, 0, 0), dir: vec3(0, 1000, 0) };
    let mut kin = Kinematics { velocity: vec3(0, 0, 0), speed: 0 };
    let obj = PhysicsObject {
        dir: vec2(0, 1000),
        speed: 0,
        radius: 1000,
        height: 0,
        group: PhysicsGroup::Vehicles,
        flag: 0,
    };
    physics(&mut trans, &mut kin, &mut vehicle, &time, &obj, &map, 0, vec3(0, 0, 0));
    assert_eq!(trans.position, vec3(5000, 0, 0));
    // The heading follows the path tangent.
    assert_eq!(trans.dir, vec3(1000, 0, 0));
}

#[test]
fn query_radius_grows_with_braking_distance() {
    // At rest the base radius; at 8 m/s with a 4 m/s^2 car, 8 m more.
    assert_eq!(danger_query_radius(0, VehicleKind::Car), 12_000);
    assert_eq!(danger_query_radius(8000, VehicleKind::Car), 20_000);
    // The danger term is capped at 100 units.
    assert_eq!(danger_query_radius(100_000, VehicleKind::Car), 112_000);
}

#[test]
fn whole_tick_drives_toward_objective() {
    let map = WorldMap::new();
    let time = GameTime { delta: 1000, seconds: 0 };
    let me: u64 = 42;
    let it = Itinerary { point: Some(vec3(20_000, 0, 0)), travers: None, terminal: None };
    let mut trans = Transform { position: vec3(0, 0, 0), dir: vec3(1000, 0, 0) };
    let mut kin = Kinematics { velocity: vec3(0, 0, 0), speed: 0 };
    let mut vehicle = Vehicle::new(VehicleKind::Car);
    let obj = PhysicsObject {
        dir: vec2(1000, 0),
        speed: 0,
        radius: 1000,
        height: 0,
        group: PhysicsGroup::Vehicles,
        flag: 0,
    };
    let neighs: Vec<(Vec2, PhysicsObject)> = Vec::new();
    vehicle_decision(&map, &time, me, &it, &mut trans, &mut kin, &mut vehicle, &obj, &neighs);
    // No lane: default cruise 9 m/s, reached at 3 m/s^2 over a second.
    assert_eq!(kin.speed, 3000);
    assert_eq!(kin.velocity, vec3(3000, 0, 0));
    assert!(matches!(vehicle.state, VehicleState::Driving));
}

#[test]
fn sync_object_publishes_transform_and_flag() {
    let trans = Transform { position: vec3(4000, 5000, 600), dir: vec3(0, 1000, 0) };
    let kin = Kinematics { velocity: vec3(0, 7000, 0), speed: 7000 };
    let mut po = PhysicsObject {
        dir: vec2(1000, 0),
        speed: 0,
        radius: 900,
        height: 0,
        group: PhysicsGroup::Vehicles,
        flag: 0,
    };
    microtraffic::physics::sync_object(&mut po, &trans, &kin, Some(13));
    assert_eq!(po.dir, vec2(0, 1000));
    assert_eq!(po.speed, 7000);
    assert_eq!(po.height, 600);
    assert_eq!(po.flag, 13);
    assert_eq!(po.radius, 900);
    // Without a vehicle the flag is left as it was.
    microtraffic::physics::sync_object(&mut po, &trans, &kin, None);
    assert_eq!(po.flag, 13);
}

#[test]
fn car_accelerates_then_stops_before_red_light() {
    // A car on a straight lane with a permanently red light 30 m ahead:
    // over many ticks it gets moving, brakes, and ends at rest without
    // ever passing the light point.
    let mut map = WorldMap::new();
    map.add_lane(
        1,
        Lane {
            speed_limit: 12_000,
            control_point: vec3(30_000, 0, 0),
            control: TrafficControl::Light { green: 1, orange: 1, red: 10_000_000, offset: 2 },
        },
    );
    let me: u64 = 1;
    let it = Itinerary {
        point: Some(vec3(60_000, 0, 0)),
        travers: Some(Traversable { kind: TraverseKind::Lane(1) }),
        terminal: None,
    };
    let mut trans = Transform { position: vec3(0, 0, 0), dir: vec3(1000, 0, 0) };
    let mut kin = Kinematics { velocity: vec3(0, 0, 0), speed: 0 };
    let mut vehicle = Vehicle::new(VehicleKind::Car);
    let mut obj = PhysicsObject {
        dir: vec2(1000, 0),
        speed: 0,
        radius: 1000,
        height: 0,
        group: PhysicsGroup::Vehicles,
        flag: 0,
    };
    let delta: i64 = 50;
    let mut seconds: i64 = 0;
    let mut top_speed: i64 = 0;
    let neighs: Vec<(Vec2, PhysicsObject)> = Vec::new();
    for _ in 0..400 {
        let time = GameTime { delta, seconds };
        microtraffic::physics::sync_object(&mut obj, &trans, &kin, Some(vehicle.flag));
        vehicle_decision(&map, &time, me, &it, &mut trans, &mut kin, &mut vehicle, &obj, &neighs);
        // The kinematics collaborator advances the position.
        trans.position.x += kin.velocity.x * delta / 1000;
        trans.position.y += kin.velocity.y * delta / 1000;
        if kin.speed > top_speed {
            top_speed = kin.speed;
        }
        assert!(trans.position.x < 30_000, "passed the red light at {}", trans.position.x);
        seconds += delta;
    }
    assert!(top_speed >= 9000, "never got up to speed: {top_speed}");
    assert_eq!(kin.speed, 0);
    // It stopped inside the inflated red margin of the light.
    assert!(trans.position.x > 20_000, "stopped too early at {}", trans.position.x);
}
