//! Scalar kernel edges and the map registry.

use microtraffic::map::{Lane, TrafficControl, WorldMap};
use microtraffic::num::{div_i64, iabs, iclamp, imax, imin, isqrt_i64};
use microtraffic::v3::vec3;

#[test]
fn isqrt_edges() {
    assert_eq!(isqrt_i64(0), 0);
    assert_eq!(isqrt_i64(1), 1);
    assert_eq!(isqrt_i64(3), 1);
    assert_eq!(isqrt_i64(4), 2);
    assert_eq!(isqrt_i64(999_999), 999);
    assert_eq!(isqrt_i64(1_000_000), 1000);
    assert_eq!(isqrt_i64(i64::MAX), 3_037_000_499);
}

#[test]
fn division_truncates_toward_zero() {
    assert_eq!(div_i64(7, 2), 3);
    assert_eq!(div_i64(-7, 2), -3);
    assert_eq!(div_i64(0, 5), 0);
    assert_eq!(div_i64(-1, 1000), 0);
}

#[test]
fn scalar_helpers() {
    assert_eq!(imin(3, -4), -4);
    assert_eq!(imax(3, -4), 3);
    assert_eq!(iabs(-9), 9);
    assert_eq!(iabs(9), 9);
    assert_eq!(iclamp(5, 0, 3), 3);
    assert_eq!(iclamp(-5, 0, 3), 0);
    assert_eq!(iclamp(2, 0, 3), 2);
}

#[test]
fn map_registry_round_trip() {
    let mut map = WorldMap::new();
    assert!(map.get_lane(1).is_none());
    map.add_lane(
        1,
        Lane {
            speed_limit: 9000,
            control_point: vec3(0, 0, 0),
            control: TrafficControl::Always,
        },
    );
    let l = map.get_lane(1).unwrap();
    assert_eq!(l.speed_limit, 9000);
    assert_eq!(l.control_point(), vec3(0, 0, 0));
    assert!(map.get_lane(2).is_none());
    assert!(map.get_spot(5).is_none());
}
