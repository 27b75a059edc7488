//! Input identifiers, combinations, building kinds and pylon placement.

use microtraffic::building::BuildingKind;
use microtraffic::input::{KeyCode, MouseButton};
use microtraffic::inputmap::{InputAction, InputCombination, InputCombinations, UnitInput};
use microtraffic::pylon::{inter_pylon, road_pylons, PylonPosition};
use microtraffic::v3::vec3;

#[test]
fn modifiers_are_exactly_the_six() {
    assert!(KeyCode::LShift.is_modifier());
    assert!(KeyCode::RShift.is_modifier());
    assert!(KeyCode::LControl.is_modifier());
    assert!(KeyCode::RControl.is_modifier());
    assert!(KeyCode::LAlt.is_modifier());
    assert!(KeyCode::RAlt.is_modifier());
    assert!(!KeyCode::A.is_modifier());
    assert!(!KeyCode::Space.is_modifier());
    assert!(!KeyCode::LWin.is_modifier());
}

#[test]
fn combination_matches_only_when_fully_held() {
    let rotate = InputCombination::new(vec![
        UnitInput::Key(KeyCode::LControl),
        UnitInput::WheelUp,
    ]);
    let held_both = vec![UnitInput::WheelUp, UnitInput::Key(KeyCode::LControl)];
    let held_one = vec![UnitInput::Key(KeyCode::LControl)];
    assert!(rotate.matches_held(&held_both));
    assert!(!rotate.matches_held(&held_one));
    assert!(!rotate.matches_held(&Vec::new()));
}

#[test]
fn alternative_combinations_fire_independently() {
    let close = InputCombinations::new(vec![
        InputCombination::new(vec![UnitInput::Key(KeyCode::Escape)]),
        InputCombination::new(vec![UnitInput::Mouse(MouseButton::Right)]),
    ]);
    assert!(close.any_matches(&vec![UnitInput::Key(KeyCode::Escape)]));
    assert!(close.any_matches(&vec![UnitInput::Mouse(MouseButton::Right)]));
    assert!(!close.any_matches(&vec![UnitInput::Mouse(MouseButton::Left)]));
    let _ = InputAction::CameraRotate;
}

#[test]
fn building_kinds() {
    assert!(BuildingKind::House.is_house());
    assert!(!BuildingKind::Company(3).is_house());
    assert_ne!(BuildingKind::Company(3), BuildingKind::Company(4));
}

#[test]
fn road_pylons_one_per_position() {
    let positions = vec![
        PylonPosition { terrain_height: 0, pos: vec3(0, 0, 5000), dir: vec3(1000, 0, 0) },
        PylonPosition { terrain_height: 100, pos: vec3(9000, 0, 5000), dir: vec3(1000, 0, 0) },
    ];
    let out = road_pylons(&positions, 9000);
    assert_eq!(out.len(), 2);
    assert_eq!(out[0], (4500, positions[0]));
    assert_eq!(out[1], (4500, positions[1]));
}

#[test]
fn inter_pylon_appears_only_over_a_gap() {
    let roads = vec![(8000, vec3(2000, 0, 5000)), (12_000, vec3(0, 2000, 5000))];
    // Terrain close under the deck: no pylon.
    assert_eq!(inter_pylon(Some(4000), vec3(0, 0, 5000), &roads), None);
    // Unknown terrain: no pylon.
    assert_eq!(inter_pylon(None, vec3(0, 0, 5000), &roads), None);
    // A raised deck: one pylon, as wide as the widest half road, at the
    // average interface point.
    let got = inter_pylon(Some(0), vec3(0, 0, 5000), &roads).unwrap();
    assert_eq!(got.0, 6000);
    assert_eq!(got.1.terrain_height, 0);
    assert_eq!(got.1.pos, vec3(1000, 1000, 5000));
}

#[test]
fn inter_pylon_with_no_roads_uses_the_intersection() {
    let roads: Vec<(i64, microtraffic::v3::Vec3)> = Vec::new();
    let got = inter_pylon(Some(0), vec3(300, 400, 5000), &roads).unwrap();
    // The minimum width applies.
    assert_eq!(got.0, 3000);
    assert_eq!(got.1.pos, vec3(300, 400, 5000));
}
