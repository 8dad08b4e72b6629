use hexcore::engine::Core;
use hexcore::event::{Command, CoreEvent};
use hexcore::object::ObjectTypes;
use hexcore::types::{MapPos, PlayerId, UnitId};
use hexcore::unit::{UnitClass, UnitType, WeaponType, WeaponTypeId};

fn pos(x: i32, y: i32) -> MapPos {
    MapPos { x, y }
}

/// A registry whose default ("soldier") unit type kills its own kind for
/// sure: every combat target number is 5, and the dice stay below 5.
fn soldier_types() -> ObjectTypes {
    let mut types = ObjectTypes::empty();
    let gun = types.add_weapon_type(WeaponType {
        name: "sure gun".to_owned(),
        damage: 5,
        ap: 1,
        accuracy: 10,
        max_distance: 5,
    });
    types.add_unit_type(UnitType {
        name: "soldier".to_owned(),
        class: UnitClass::Infantry,
        size: 5,
        count: 3,
        armor: 1,
        toughness: 0,
        weapon_skill: 5,
        weapon_type_id: gun,
        move_points: 3,
        attack_points: 2,
    });
    types
}

const P0: PlayerId = PlayerId { id: 0 };

#[test]
fn default_scenario_layout() {
    let core = Core::new();
    assert_eq!(core.player_id().id, 0);
    assert!(!core.player().is_ai);
    assert_eq!(core.map_size().w, 10);
    assert_eq!(core.map_size().h, 8);
    let units = core.units_list();
    assert_eq!(units.len(), 12);
    for (i, u) in units.iter().enumerate() {
        assert_eq!(u.id.id, i as i32);
        assert_eq!(u.player_id.id, if i < 6 { 0 } else { 1 });
        assert_eq!(u.pos.x, if i < 6 { 0 } else { 9 });
    }
    // tanks on the flanks, soldiers in the middle, on both sides
    let tank = core.object_types().get_unit_type_id("tank");
    let soldier = core.object_types().get_unit_type_id("soldier");
    for &i in &[0usize, 4, 5, 6, 10, 11] {
        assert_eq!(units[i].type_id, tank);
    }
    for &i in &[1usize, 2, 3, 7, 8, 9] {
        assert_eq!(units[i].type_id, soldier);
    }
    // a created unit starts with its type's full count
    assert_eq!(units[0].count, 1);
    assert_eq!(units[1].count, 4);
    // the tank cannon outranges the rifle
    assert_eq!(core.get_weapon_type(&WeaponTypeId { id: 0 }).max_distance, 5);
    assert_eq!(core.get_weapon_type(&WeaponTypeId { id: 1 }).max_distance, 3);
}

#[test]
fn end_turn_alternates_and_round_trips() {
    let mut core = Core::new();
    assert_eq!(core.player_id().id, 0);
    assert!(core.do_command(Command::EndTurn).is_ok());
    assert_eq!(core.player_id().id, 1);
    assert!(core.do_command(Command::EndTurn).is_ok());
    assert_eq!(core.player_id().id, 0);
    // an even number of turn ends always comes back to the same player
    for _ in 0..4 {
        assert!(core.do_command(Command::EndTurn).is_ok());
    }
    assert_eq!(core.player_id().id, 0);
}

#[test]
fn created_unit_ids_are_never_reused() {
    let mut core = Core::with_object_types(soldier_types());
    assert!(core.do_command(Command::CreateUnit { pos: pos(0, 0) }).is_ok());
    assert!(core.do_command(Command::CreateUnit { pos: pos(5, 0) }).is_ok());
    assert_eq!(core.units_list().len(), 2);
    assert_eq!(core.get_unit(&UnitId { id: 0 }).count, 3);
    assert_eq!(core.get_unit(&UnitId { id: 0 }).player_id, P0);
    // remove the unit with the highest id through a guaranteed kill
    assert!(core
        .do_command(Command::AttackUnit {
            attacker_id: UnitId { id: 0 },
            defender_id: UnitId { id: 1 },
        })
        .is_ok());
    assert_eq!(core.units_list().len(), 1);
    // the dead unit's id is not handed out again
    assert!(core.do_command(Command::CreateUnit { pos: pos(1, 0) }).is_ok());
    let ids: Vec<i32> = core.units_list().iter().map(|u| u.id.id).collect();
    assert_eq!(ids, vec![0, 2]);
}

#[test]
fn events_reach_every_player_in_order() {
    let mut core = Core::with_object_types(soldier_types());
    let soldier = core.object_types().get_unit_type_id("soldier");
    core.add_unit(&pos(0, 0), &soldier, &PlayerId { id: 0 });
    core.add_unit(&pos(9, 0), &soldier, &PlayerId { id: 1 });

    // the current player (0) drains its queue: both creations, in order
    match core.get_event() {
        Some(CoreEvent::CreateUnit { unit_id, player_id, .. }) => {
            assert_eq!(unit_id.id, 0);
            assert_eq!(player_id.id, 0);
        }
        _ => panic!("expected the first creation event"),
    }
    match core.get_event() {
        Some(CoreEvent::CreateUnit { unit_id, player_id, .. }) => {
            assert_eq!(unit_id.id, 1);
            assert_eq!(player_id.id, 1);
        }
        _ => panic!("expected the second creation event"),
    }
    assert!(core.get_event().is_none());

    // hand the turn over; player 1 sees the same events in the same order,
    // followed by the turn handover itself
    assert!(core.do_command(Command::EndTurn).is_ok());
    assert_eq!(core.player_id().id, 1);
    match core.get_event() {
        Some(CoreEvent::CreateUnit { unit_id, .. }) => assert_eq!(unit_id.id, 0),
        _ => panic!("expected the first creation event for the other player"),
    }
    match core.get_event() {
        Some(CoreEvent::CreateUnit { unit_id, .. }) => assert_eq!(unit_id.id, 1),
        _ => panic!("expected the second creation event for the other player"),
    }
    match core.get_event() {
        Some(CoreEvent::EndTurn { old_id, new_id }) => {
            assert_eq!(old_id.id, 0);
            assert_eq!(new_id.id, 1);
        }
        _ => panic!("expected the turn handover event"),
    }
    assert!(core.get_event().is_none());
}

#[test]
fn end_turn_restores_attack_points() {
    let mut core = Core::with_object_types(soldier_types());
    let soldier = core.object_types().get_unit_type_id("soldier");
    core.add_unit(&pos(0, 0), &soldier, &PlayerId { id: 0 });
    core.add_unit(&pos(20, 0), &soldier, &PlayerId { id: 1 });
    assert_eq!(core.get_unit(&UnitId { id: 0 }).attack_points, 2);
    // firing consumes one attack point
    core.add_unit(&pos(2, 0), &soldier, &PlayerId { id: 1 });
    assert!(core
        .do_command(Command::AttackUnit {
            attacker_id: UnitId { id: 0 },
            defender_id: UnitId { id: 2 },
        })
        .is_ok());
    assert_eq!(core.get_unit(&UnitId { id: 0 }).attack_points, 1);
    // the attack points come back when the turn returns to player 0
    assert!(core.do_command(Command::EndTurn).is_ok());
    assert!(core.do_command(Command::EndTurn).is_ok());
    assert_eq!(core.get_unit(&UnitId { id: 0 }).attack_points, 2);
}
