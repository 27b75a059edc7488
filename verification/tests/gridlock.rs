//! Gridlock convergence: two stationary vehicles closing on each other
//! nearly head-on (each drifting slightly to its left, so their forward
//! rays cross ahead and neither wins right of way) resolve through flag
//! propagation into a panic within a few ticks.  A perfectly head-on
//! pair never detects each other: the front cone excludes oncoming
//! vehicles and exactly parallel rays have no conflict point.

use microtraffic::map::WorldMap;
use microtraffic::decision::calc_decision;
use microtraffic::physics::{GameTime, PhysicsGroup, PhysicsObject, Transform};
use microtraffic::v2::vec2;
use microtraffic::v3::vec3;
use microtraffic::vehicle::{Vehicle, VehicleState};

#[test]
fn head_on_deadlock_panics_within_bounded_time() {
    let map = WorldMap::new();
    let delta: i64 = 200;

    // A at the origin heading west, B 1.2 m to its west heading east,
    // both angled a few degrees leftward: their forward rays meet ahead
    // and the speed-discounted comparison denies both the right of way.
    let a_pos = vec3(0, 0, 0);
    let b_pos = vec3(-1200, 0, 0);
    let a_trans = Transform { position: a_pos, dir: vec3(-1000, 100, 0) };
    let b_trans = Transform { position: b_pos, dir: vec3(1000, 100, 0) };
    let mut a = Vehicle::new(microtraffic::vehicle::VehicleKind::Car);
    let mut b = Vehicle::new(microtraffic::vehicle::VehicleKind::Car);
    let a_id: u64 = 42;
    let b_id: u64 = 7;

    let a_it = microtraffic::itinerary::Itinerary {
        point: Some(vec3(-20_000, 0, 0)),
        travers: None,
        terminal: None,
    };
    let b_it = microtraffic::itinerary::Itinerary {
        point: Some(vec3(20_000, 0, 0)),
        travers: None,
        terminal: None,
    };

    let mut seconds: i64 = 0;
    let mut panicked = false;
    for _ in 0..10 {
        let time = GameTime { delta, seconds };
        // The physics-sync phase publishes last tick's flags before any
        // decision reads them.
        let a_obj = PhysicsObject {
            dir: vec2(-1000, 100),
            speed: 0,
            radius: 0,
            height: 0,
            group: PhysicsGroup::Vehicles,
            flag: a.flag,
        };
        let b_obj = PhysicsObject {
            dir: vec2(1000, 100),
            speed: 0,
            radius: 0,
            height: 0,
            group: PhysicsGroup::Vehicles,
            flag: b.flag,
        };
        let a_neighs = vec![(vec2(b_pos.x, b_pos.y), b_obj)];
        let b_neighs = vec![(vec2(a_pos.x, a_pos.y), a_obj)];
        calc_decision(a_id, &mut a, &map, &time, &a_trans, &a_obj, &a_it, &a_neighs);
        calc_decision(b_id, &mut b, &map, &time, &b_trans, &b_obj, &b_it, &b_neighs);
        if matches!(a.state, VehicleState::Panicking(_))
            || matches!(b.state, VehicleState::Panicking(_))
        {
            panicked = true;
            break;
        }
        seconds += delta;
    }
    assert!(panicked, "no vehicle panicked: a {a:?} b {b:?}");
}
