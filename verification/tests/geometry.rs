use hexcore::engine::{resolve_combat, test_roll};
use hexcore::map::{distance, MapPath};
use hexcore::types::MapPos;

fn pos(x: i32, y: i32) -> MapPos {
    MapPos { x, y }
}

#[test]
fn distance_along_axes() {
    assert_eq!(distance(&pos(0, 0), &pos(2, 0)), 2);
    assert_eq!(distance(&pos(0, 0), &pos(0, 3)), 3);
    assert_eq!(distance(&pos(5, 2), &pos(5, 2)), 0);
    assert_eq!(distance(&pos(0, 0), &pos(6, 0)), 6);
}

#[test]
fn distance_diagonals() {
    // one hex step along the shared axial diagonal
    assert_eq!(distance(&pos(0, 0), &pos(1, -1)), 1);
    // two steps around a corner
    assert_eq!(distance(&pos(0, 0), &pos(-1, -1)), 2);
    assert_eq!(distance(&pos(0, 0), &pos(2, -1)), 2);
    // symmetry
    assert_eq!(distance(&pos(3, -2), &pos(0, 0)), distance(&pos(0, 0), &pos(3, -2)));
}

#[test]
fn path_keeps_waypoints() {
    let nodes = vec![pos(0, 0), pos(1, 0), pos(2, 0)];
    let path = MapPath::new(nodes.clone());
    assert_eq!(path.nodes().len(), 3);
    assert_eq!(path.nodes()[0], pos(0, 0));
    assert_eq!(path.nodes()[2], pos(2, 0));
    let copy = path.clone();
    assert_eq!(copy.nodes().len(), 3);
    assert_eq!(copy.nodes()[1], pos(1, 0));
}

#[test]
fn threshold_test_is_strict() {
    assert!(test_roll(4, 5));
    assert!(!test_roll(5, 5));
    assert!(test_roll(-5, -4));
    assert!(!test_roll(-5, -5));
}

#[test]
fn combat_needs_all_three_tests() {
    assert!(resolve_combat(5, 5, 5, 4, 4, 4));
    assert!(!resolve_combat(5, 5, 5, 5, 4, 4));
    assert!(!resolve_combat(5, 5, 5, 4, 5, 4));
    assert!(!resolve_combat(5, 5, 5, 4, 4, 5));
    assert!(!resolve_combat(-1, 5, 5, -1, 4, 4));
    assert!(resolve_combat(0, 0, 0, -1, -2, -3));
}
