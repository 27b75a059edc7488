//! The decision algorithm end to end on concrete situations.

use microtraffic::itinerary::{Itinerary, Traversable, TraverseKind};
use microtraffic::map::{Lane, TrafficBehavior, TrafficControl, WorldMap};
use microtraffic::decision::calc_decision;
use microtraffic::physics::{GameTime, PhysicsGroup, PhysicsObject, Transform};
use microtraffic::v2::{vec2, Vec2};
use microtraffic::v3::vec3;
use microtraffic::vehicle::{Vehicle, VehicleKind, VehicleState};

fn ego_east(speed: i64) -> (Transform, PhysicsObject) {
    let trans = Transform { position: vec3(0, 0, 0), dir: vec3(1000, 0, 0) };
    let obj = PhysicsObject {
        dir: vec2(1000, 0),
        speed,
        radius: 1000,
        height: 0,
        group: PhysicsGroup::Vehicles,
        flag: 0,
    };
    (trans, obj)
}

fn red_light() -> TrafficControl {
    // One milli-second of green and orange each, then a long red; at
    // time zero with offset two the light sits in the red phase.
    TrafficControl::Light { green: 1, orange: 1, red: 10_000_000, offset: 2 }
}

#[test]
fn scenario_red_light_brakes_to_stop() {
    // Approaching a red light 10 m ahead at 8 m/s with 4 m/s^2 braking:
    // the stopping distance is 8 m, the light is inside the inflated
    // margin, so the decision is a full stop toward the objective.
    let mut map = WorldMap::new();
    map.add_lane(
        1,
        Lane { speed_limit: 12_000, control_point: vec3(10_000, 0, 0), control: red_light() },
    );
    let time = GameTime { delta: 50, seconds: 0 };
    let (trans, obj) = ego_east(8000);
    let mut vehicle = Vehicle::new(VehicleKind::Car);
    let it = Itinerary {
        point: Some(vec3(20_000, 0, 0)),
        travers: Some(Traversable { kind: TraverseKind::Lane(1) }),
        terminal: None,
    };
    let neighs: Vec<(Vec2, PhysicsObject)> = Vec::new();
    let (speed, dir) = calc_decision(42, &mut vehicle, &map, &time, &trans, &obj, &it, &neighs);
    assert_eq!(speed, 0);
    assert_eq!(dir, vec3(1000, 0, 0));
    assert!(matches!(vehicle.state, VehicleState::Driving));
}

#[test]
fn scenario_empty_road_cruises_at_lane_speed() {
    // Aligned with the objective on an uncontrolled lane with a 12 m/s
    // limit: the decision is full cruise toward the next point.
    let mut map = WorldMap::new();
    map.add_lane(
        1,
        Lane {
            speed_limit: 12_000,
            control_point: vec3(50_000, 0, 0),
            control: TrafficControl::Always,
        },
    );
    let time = GameTime { delta: 50, seconds: 0 };
    let (trans, obj) = ego_east(0);
    let mut vehicle = Vehicle::new(VehicleKind::Car);
    let it = Itinerary {
        point: Some(vec3(20_000, 0, 0)),
        travers: Some(Traversable { kind: TraverseKind::Lane(1) }),
        terminal: None,
    };
    let neighs: Vec<(Vec2, PhysicsObject)> = Vec::new();
    let (speed, dir) = calc_decision(42, &mut vehicle, &map, &time, &trans, &obj, &it, &neighs);
    assert_eq!(speed, 12_000);
    assert_eq!(dir, vec3(1000, 0, 0));
    assert_eq!(vehicle.flag, 0);
}

#[test]
fn scenario_own_flag_back_triggers_panic() {
    // At rest with an obstacle half a metre ahead carrying this agent's
    // own token: the blocking chain has come full circle, so the vehicle
    // panics and holds its heading.
    let map = WorldMap::new();
    let time = GameTime { delta: 50, seconds: 7000 };
    let trans = Transform { position: vec3(0, 0, 0), dir: vec3(-1000, 0, 0) };
    let obj = PhysicsObject {
        dir: vec2(-1000, 0),
        speed: 0,
        radius: 0,
        height: 0,
        group: PhysicsGroup::Vehicles,
        flag: 0,
    };
    let mut vehicle = Vehicle::new(VehicleKind::Car);
    let it = Itinerary { point: Some(vec3(-20_000, 0, 0)), travers: None, terminal: None };
    let blocker = (
        vec2(-500, 0),
        PhysicsObject {
            dir: vec2(-1000, 0),
            speed: 0,
            radius: 0,
            height: 0,
            group: PhysicsGroup::Vehicles,
            flag: 42,
        },
    );
    let neighs = vec![blocker];
    let (speed, dir) = calc_decision(42, &mut vehicle, &map, &time, &trans, &obj, &it, &neighs);
    assert_eq!(speed, 0);
    assert_eq!(dir, vec3(-1000, 0, 0));
    assert!(matches!(vehicle.state, VehicleState::Panicking(7000)));
    assert_eq!(vehicle.flag, 42);
}

#[test]
fn foreign_flag_is_adopted_with_backoff() {
    let map = WorldMap::new();
    let time = GameTime { delta: 50, seconds: 0 };
    let trans = Transform { position: vec3(-1234, 0, 0), dir: vec3(-1000, 0, 0) };
    let obj = PhysicsObject {
        dir: vec2(-1000, 0),
        speed: 0,
        radius: 0,
        height: 0,
        group: PhysicsGroup::Vehicles,
        flag: 0,
    };
    let mut vehicle = Vehicle::new(VehicleKind::Car);
    let it = Itinerary { point: Some(vec3(-20_000, 0, 0)), travers: None, terminal: None };
    let blocker = (
        vec2(-1734, 0),
        PhysicsObject {
            dir: vec2(-1000, 0),
            speed: 0,
            radius: 0,
            height: 0,
            group: PhysicsGroup::Vehicles,
            flag: 7,
        },
    );
    let neighs = vec![blocker];
    let (speed, _) = calc_decision(42, &mut vehicle, &map, &time, &trans, &obj, &it, &neighs);
    assert_eq!(speed, 0);
    // The blocker's token is adopted so the chain can be traced.
    assert_eq!(vehicle.flag, 7);
    assert!(matches!(vehicle.state, VehicleState::Driving));
    // The back-off wait derives from the position: |x| mod 1000 halved.
    assert_eq!(vehicle.wait_time, 117);
}

#[test]
fn wait_time_burns_before_anything_else() {
    let map = WorldMap::new();
    let time = GameTime { delta: 50, seconds: 0 };
    let (trans, obj) = ego_east(0);
    let mut vehicle = Vehicle::new(VehicleKind::Car);
    vehicle.wait_time = 120;
    let it = Itinerary { point: Some(vec3(20_000, 0, 0)), travers: None, terminal: None };
    let neighs: Vec<(Vec2, PhysicsObject)> = Vec::new();
    let (speed, dir) = calc_decision(42, &mut vehicle, &map, &time, &trans, &obj, &it, &neighs);
    assert_eq!(speed, 0);
    assert_eq!(dir, vec3(1000, 0, 0));
    assert_eq!(vehicle.wait_time, 70);
}

#[test]
fn no_objective_holds_position() {
    let map = WorldMap::new();
    let time = GameTime { delta: 50, seconds: 0 };
    let (trans, obj) = ego_east(5000);
    let mut vehicle = Vehicle::new(VehicleKind::Car);
    let it = Itinerary::none();
    let neighs: Vec<(Vec2, PhysicsObject)> = Vec::new();
    let (speed, dir) = calc_decision(42, &mut vehicle, &map, &time, &trans, &obj, &it, &neighs);
    assert_eq!(speed, 0);
    assert_eq!(dir, vec3(1000, 0, 0));
}

#[test]
fn obstacle_within_braking_margin_stops() {
    let map = WorldMap::new();
    let time = GameTime { delta: 50, seconds: 0 };
    let trans = Transform { position: vec3(0, 0, 0), dir: vec3(-1000, 0, 0) };
    let obj = PhysicsObject {
        dir: vec2(-1000, 0),
        speed: 2000,
        radius: 500,
        height: 0,
        group: PhysicsGroup::Vehicles,
        flag: 0,
    };
    let mut vehicle = Vehicle::new(VehicleKind::Car);
    let it = Itinerary { point: Some(vec3(-20_000, 0, 0)), travers: None, terminal: None };
    // Stop distance at 2 m/s is 0.5 m; an obstacle 1.6 m ahead is inside
    // the 0.8 m + stopping margin.
    let blocker = (
        vec2(-1600, 0),
        PhysicsObject {
            dir: vec2(-1000, 0),
            speed: 0,
            radius: 0,
            height: 0,
            group: PhysicsGroup::Vehicles,
            flag: 0,
        },
    );
    let neighs = vec![blocker];
    let (speed, dir) = calc_decision(42, &mut vehicle, &map, &time, &trans, &obj, &it, &neighs);
    assert_eq!(speed, 0);
    // Steering still aims at the objective while braking.
    assert_eq!(dir, vec3(-1000, 0, 0));
    assert!(matches!(vehicle.state, VehicleState::Driving));
}

#[test]
fn terminal_point_stops_the_vehicle() {
    let map = WorldMap::new();
    let time = GameTime { delta: 50, seconds: 0 };
    let (trans, obj) = ego_east(0);
    let mut vehicle = Vehicle::new(VehicleKind::Car);
    let it = Itinerary {
        point: Some(vec3(5000, 0, 0)),
        travers: None,
        terminal: Some(vec3(900, 0, 0)),
    };
    let neighs: Vec<(Vec2, PhysicsObject)> = Vec::new();
    let (speed, _) = calc_decision(42, &mut vehicle, &map, &time, &trans, &obj, &it, &neighs);
    assert_eq!(speed, 0);
}

#[test]
fn stop_sign_margin_is_tighter_than_red() {
    let mut map = WorldMap::new();
    map.add_lane(
        1,
        Lane {
            speed_limit: 12_000,
            control_point: vec3(2800, 0, 0),
            control: TrafficControl::StopSign,
        },
    );
    let time = GameTime { delta: 50, seconds: 0 };
    let (trans, obj) = ego_east(0);
    let mut vehicle = Vehicle::new(VehicleKind::Car);
    let it = Itinerary {
        point: Some(vec3(20_000, 0, 0)),
        travers: Some(Traversable { kind: TraverseKind::Lane(1) }),
        terminal: None,
    };
    let neighs: Vec<(Vec2, PhysicsObject)> = Vec::new();
    // At rest the stop margin is 2.85 m: a sign 2.8 m ahead stops.
    let (speed, _) = calc_decision(42, &mut vehicle, &map, &time, &trans, &obj, &it, &neighs);
    assert_eq!(speed, 0);
    // The same sign 3 m ahead does not.
    let mut map2 = WorldMap::new();
    map2.add_lane(
        1,
        Lane {
            speed_limit: 12_000,
            control_point: vec3(3000, 0, 0),
            control: TrafficControl::StopSign,
        },
    );
    let mut vehicle2 = Vehicle::new(VehicleKind::Car);
    let (speed2, _) = calc_decision(42, &mut vehicle2, &map2, &time, &trans, &obj, &it, &neighs);
    assert_eq!(speed2, 12_000);
}

#[test]
fn green_light_is_passed_through() {
    let mut map = WorldMap::new();
    map.add_lane(
        1,
        Lane {
            speed_limit: 10_000,
            control_point: vec3(4000, 0, 0),
            control: TrafficControl::Light { green: 10_000, orange: 1000, red: 1000, offset: 0 },
        },
    );
    let time = GameTime { delta: 50, seconds: 100 };
    let (trans, obj) = ego_east(0);
    let mut vehicle = Vehicle::new(VehicleKind::Car);
    let it = Itinerary {
        point: Some(vec3(20_000, 0, 0)),
        travers: Some(Traversable { kind: TraverseKind::Lane(1) }),
        terminal: None,
    };
    let neighs: Vec<(Vec2, PhysicsObject)> = Vec::new();
    let (speed, _) = calc_decision(42, &mut vehicle, &map, &time, &trans, &obj, &it, &neighs);
    assert_eq!(speed, 10_000);
}

#[test]
fn misaligned_heading_requests_turning_speed() {
    // Objective to the north while heading east: the dot product is
    // zero, far below the alignment threshold.
    let mut map = WorldMap::new();
    map.add_lane(
        1,
        Lane {
            speed_limit: 12_000,
            control_point: vec3(50_000, 0, 0),
            control: TrafficControl::Always,
        },
    );
    let time = GameTime { delta: 50, seconds: 0 };
    let (trans, obj) = ego_east(0);
    let mut vehicle = Vehicle::new(VehicleKind::Car);
    let it = Itinerary {
        point: Some(vec3(0, 20_000, 0)),
        travers: Some(Traversable { kind: TraverseKind::Lane(1) }),
        terminal: None,
    };
    let neighs: Vec<(Vec2, PhysicsObject)> = Vec::new();
    let (speed, dir) = calc_decision(42, &mut vehicle, &map, &time, &trans, &obj, &it, &neighs);
    assert_eq!(speed, 6000);
    assert_eq!(dir, vec3(0, 1000, 0));
}

#[test]
fn panic_times_out_after_five_seconds() {
    let map = WorldMap::new();
    let (trans, obj) = ego_east(5000);
    let mut vehicle = Vehicle::new(VehicleKind::Car);
    vehicle.state = VehicleState::Panicking(1000);
    let it = Itinerary { point: Some(vec3(20_000, 0, 0)), travers: None, terminal: None };
    let neighs: Vec<(Vec2, PhysicsObject)> = Vec::new();
    // Within the timeout the vehicle stays panicked.
    let time = GameTime { delta: 50, seconds: 5000 };
    calc_decision(42, &mut vehicle, &map, &time, &trans, &obj, &it, &neighs);
    assert!(matches!(vehicle.state, VehicleState::Panicking(1000)));
    // Past it, the vehicle reverts to driving unconditionally.
    let time = GameTime { delta: 50, seconds: 6001 };
    calc_decision(42, &mut vehicle, &map, &time, &trans, &obj, &it, &neighs);
    assert!(matches!(vehicle.state, VehicleState::Driving));
}

#[test]
fn traffic_behavior_phases() {
    let light = TrafficControl::Light { green: 10_000, orange: 2000, red: 8000, offset: 0 };
    assert_eq!(light.get_behavior(0), TrafficBehavior::GREEN);
    assert_eq!(light.get_behavior(9999), TrafficBehavior::GREEN);
    assert_eq!(light.get_behavior(10_000), TrafficBehavior::ORANGE);
    assert_eq!(light.get_behavior(12_000), TrafficBehavior::RED);
    assert_eq!(light.get_behavior(19_999), TrafficBehavior::RED);
    assert_eq!(light.get_behavior(20_000), TrafficBehavior::GREEN);
    assert_eq!(TrafficControl::StopSign.get_behavior(5), TrafficBehavior::STOP);
    assert_eq!(TrafficControl::Always.get_behavior(5), TrafficBehavior::GREEN);
}
