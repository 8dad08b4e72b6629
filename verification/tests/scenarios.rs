use hexcore::engine::Core;
use hexcore::event::{Command, CoreEvent, FireMode};
use hexcore::map::MapPath;
use hexcore::object::ObjectTypes;
use hexcore::types::{MapPos, PlayerId, UnitId};
use hexcore::unit::{UnitClass, UnitType, UnitTypeId, WeaponType, WeaponTypeId};

fn pos(x: i32, y: i32) -> MapPos {
    MapPos { x, y }
}

fn weapon(name: &str, damage: i32, ap: i32, accuracy: i32, max_distance: i32) -> WeaponType {
    WeaponType { name: name.to_owned(), damage, ap, accuracy, max_distance }
}

fn unit_type(
    name: &str,
    size: i32,
    count: i32,
    armor: i32,
    toughness: i32,
    weapon_skill: i32,
    weapon_type_id: WeaponTypeId,
    attack_points: i32,
) -> UnitType {
    UnitType {
        name: name.to_owned(),
        class: UnitClass::Infantry,
        size,
        count,
        armor,
        toughness,
        weapon_skill,
        weapon_type_id,
        move_points: 3,
        attack_points,
    }
}

struct Setup {
    core: Core,
    shooter: UnitTypeId,
    sure_kill: UnitTypeId,
    soft_target: UnitTypeId,
    hard_target: UnitTypeId,
    idle_type: UnitTypeId,
    short_range: UnitTypeId,
}

/// A registry with deterministic combat outcomes. Dice run from -5 to 4, so a
/// target number of 5 always passes and one of -5 or lower never does.
///
/// - `sure_kill` attacking `soft_target`: all three target numbers are 5.
/// - anything attacking `hard_target`: the wound target is -8, never passed.
fn setup() -> Setup {
    let mut types = ObjectTypes::empty();
    // range 5, always lethal against soft_target
    let killer_gun = types.add_weapon_type(weapon("killer gun", 5, 1, 10, 5));
    // range 5, never wounds hard_target (toughness 10)
    let weak_gun = types.add_weapon_type(weapon("weak gun", 2, 1, 10, 5));
    // range 3 rifle for plain shooters
    let rifle = types.add_weapon_type(weapon("short rifle", 2, 1, 5, 3));
    // range 1 weapon for units that should almost never reach
    let knife = types.add_weapon_type(weapon("knife", 2, 1, 5, 1));
    let shooter = types.add_unit_type(unit_type("shooter", 4, 1, 1, 2, 5, rifle, 2));
    let sure_kill = types.add_unit_type(unit_type("lethal shooter", 4, 1, 1, 2, 5, killer_gun, 2));
    // size 5, armor 1, toughness 0: all targets of killer_gun reach 5
    let soft_target = types.add_unit_type(unit_type("soft target", 5, 3, 1, 0, 5, weak_gun, 2));
    // toughness 10: wound target of every gun here is far below -5
    let hard_target = types.add_unit_type(unit_type("hard target", 4, 2, 1, 10, 5, weak_gun, 2));
    // no attack points at all: never fires reactively
    let idle_type = types.add_unit_type(unit_type("idle", 4, 1, 1, 2, 5, rifle, 0));
    let short_range = types.add_unit_type(unit_type("blade carrier", 4, 1, 1, 2, 5, knife, 2));
    Setup {
        core: Core::with_object_types(types),
        shooter,
        sure_kill,
        soft_target,
        hard_target,
        idle_type,
        short_range,
    }
}

const P0: PlayerId = PlayerId { id: 0 };
const P1: PlayerId = PlayerId { id: 1 };

#[test]
fn attack_within_range_resolves_to_one_event() {
    // two units at hex distance 2, weapon max distance 3: exactly one event
    let mut s = setup();
    s.core.add_unit(&pos(0, 0), &s.shooter, &P0);
    s.core.add_unit(&pos(2, 0), &s.idle_type, &P1);
    let events = s.core.command_to_event(Command::AttackUnit {
        attacker_id: UnitId { id: 0 },
        defender_id: UnitId { id: 1 },
    });
    assert_eq!(events.len(), 1);
    match &events[0] {
        CoreEvent::AttackUnit { attacker_id, defender_id, mode, .. } => {
            assert_eq!(attacker_id.id, 0);
            assert_eq!(defender_id.id, 1);
            assert!(matches!(mode, FireMode::Active));
        }
        _ => panic!("expected an attack event"),
    }
    assert!(s
        .core
        .do_command(Command::AttackUnit {
            attacker_id: UnitId { id: 0 },
            defender_id: UnitId { id: 1 },
        })
        .is_ok());
}

#[test]
fn attack_beyond_range_is_rejected() {
    // attacker at distance 6 with weapon max distance 5: zero events
    let mut s = setup();
    s.core.add_unit(&pos(0, 0), &s.sure_kill, &P0);
    s.core.add_unit(&pos(6, 0), &s.soft_target, &P1);
    let events = s.core.command_to_event(Command::AttackUnit {
        attacker_id: UnitId { id: 0 },
        defender_id: UnitId { id: 1 },
    });
    assert_eq!(events.len(), 0);
    let r = s.core.do_command(Command::AttackUnit {
        attacker_id: UnitId { id: 0 },
        defender_id: UnitId { id: 1 },
    });
    assert!(r.is_err());
    // a rejected command leaves the world untouched
    assert_eq!(s.core.units_list().len(), 2);
}

#[test]
fn move_interrupted_at_third_waypoint() {
    // waypoint 3 of 5 is the only one a hostile blade carrier (range 1)
    // reaches: the move is truncated there, one reactive shot follows
    let mut s = setup();
    s.core.add_unit(&pos(0, 0), &s.shooter, &P0);
    s.core.add_unit(&pos(10, 0), &s.short_range, &P1);
    let path = MapPath::new(vec![pos(0, 0), pos(5, 0), pos(9, 0), pos(6, 0), pos(7, 0)]);
    let events = s.core.command_to_event(Command::Move { unit_id: UnitId { id: 0 }, path });
    assert_eq!(events.len(), 2);
    match &events[0] {
        CoreEvent::Move { unit_id, path } => {
            assert_eq!(unit_id.id, 0);
            assert_eq!(path.nodes().len(), 3);
            assert_eq!(path.nodes()[0], pos(0, 0));
            assert_eq!(path.nodes()[1], pos(5, 0));
            assert_eq!(path.nodes()[2], pos(9, 0));
        }
        _ => panic!("expected a truncated move event first"),
    }
    match &events[1] {
        CoreEvent::AttackUnit { attacker_id, defender_id, mode, .. } => {
            assert_eq!(attacker_id.id, 1);
            assert_eq!(defender_id.id, 0);
            assert!(matches!(mode, FireMode::Reactive));
        }
        _ => panic!("expected one reactive attack after the truncated move"),
    }
    // applying the command leaves the mover at the interrupt point (unless
    // the reactive shot destroyed it) and costs the reactor one attack point
    let path = MapPath::new(vec![pos(0, 0), pos(5, 0), pos(9, 0), pos(6, 0), pos(7, 0)]);
    assert!(s.core.do_command(Command::Move { unit_id: UnitId { id: 0 }, path }).is_ok());
    if s.core.units_list().iter().any(|u| u.id.id == 0) {
        assert_eq!(s.core.get_unit(&UnitId { id: 0 }).pos, pos(9, 0));
    }
    assert_eq!(s.core.get_unit(&UnitId { id: 1 }).attack_points, 1);
}

#[test]
fn move_out_of_all_ranges_passes_unchanged() {
    // no waypoint is within any hostile weapon range: one full move event
    let mut s = setup();
    s.core.add_unit(&pos(0, 0), &s.shooter, &P0);
    s.core.add_unit(&pos(100, 0), &s.shooter, &P1);
    let nodes = vec![pos(0, 0), pos(1, 0), pos(2, 0), pos(3, 0)];
    let path = MapPath::new(nodes.clone());
    let events = s.core.command_to_event(Command::Move { unit_id: UnitId { id: 0 }, path });
    assert_eq!(events.len(), 1);
    match &events[0] {
        CoreEvent::Move { unit_id, path } => {
            assert_eq!(unit_id.id, 0);
            assert_eq!(path.nodes().as_slice(), nodes.as_slice());
        }
        _ => panic!("expected exactly the full move event"),
    }
    // applying it puts the mover on the final waypoint
    assert!(s
        .core
        .do_command(Command::Move { unit_id: UnitId { id: 0 }, path: MapPath::new(nodes) })
        .is_ok());
    assert_eq!(s.core.get_unit(&UnitId { id: 0 }).pos, pos(3, 0));
}

#[test]
fn lethal_attack_draws_no_reaction_fire() {
    // the defender dies: its nearby ally gets no reactive shot at the attacker
    let mut s = setup();
    s.core.add_unit(&pos(0, 0), &s.sure_kill, &P0);
    s.core.add_unit(&pos(2, 0), &s.soft_target, &P1);
    s.core.add_unit(&pos(1, 0), &s.shooter, &P1);
    let events = s.core.command_to_event(Command::AttackUnit {
        attacker_id: UnitId { id: 0 },
        defender_id: UnitId { id: 1 },
    });
    assert_eq!(events.len(), 1);
    match &events[0] {
        CoreEvent::AttackUnit { mode, killed, .. } => {
            assert!(matches!(mode, FireMode::Active));
            assert!(*killed);
        }
        _ => panic!("expected a lethal active attack"),
    }
}

#[test]
fn killed_defender_vanishes_from_enumeration() {
    // after a lethal attack is applied the defender is gone for good
    let mut s = setup();
    s.core.add_unit(&pos(0, 0), &s.sure_kill, &P0);
    s.core.add_unit(&pos(2, 0), &s.soft_target, &P1);
    assert!(s
        .core
        .do_command(Command::AttackUnit {
            attacker_id: UnitId { id: 0 },
            defender_id: UnitId { id: 1 },
        })
        .is_ok());
    assert_eq!(s.core.units_list().len(), 1);
    assert!(s.core.units_list().iter().all(|u| u.id.id != 1));
}

#[test]
fn survived_attack_draws_reaction_fire() {
    // the defender survives for sure; its ally in range of the attacker's own
    // position answers with exactly one reactive shot
    let mut s = setup();
    s.core.add_unit(&pos(0, 0), &s.shooter, &P0);
    s.core.add_unit(&pos(2, 0), &s.hard_target, &P1);
    s.core.add_unit(&pos(1, 0), &s.shooter, &P1);
    // the hard target itself also reacts (it has attack points and range):
    // registry order puts it first
    let events = s.core.command_to_event(Command::AttackUnit {
        attacker_id: UnitId { id: 0 },
        defender_id: UnitId { id: 1 },
    });
    assert!(events.len() >= 2);
    match &events[0] {
        CoreEvent::AttackUnit { mode, killed, .. } => {
            assert!(matches!(mode, FireMode::Active));
            assert!(!*killed);
        }
        _ => panic!("expected a surviving active attack first"),
    }
    for e in &events[1..] {
        match e {
            CoreEvent::AttackUnit { defender_id, mode, .. } => {
                assert_eq!(defender_id.id, 0);
                assert!(matches!(mode, FireMode::Reactive));
            }
            _ => panic!("expected only reactive attacks after the active one"),
        }
    }
}

#[test]
fn survived_attack_single_reactor() {
    // exactly one hostile is in range of the attacker's position
    let mut s = setup();
    s.core.add_unit(&pos(0, 0), &s.shooter, &P0);
    s.core.add_unit(&pos(2, 0), &s.hard_target, &P1);
    s.core.add_unit(&pos(20, 0), &s.shooter, &P1);
    let events = s.core.command_to_event(Command::AttackUnit {
        attacker_id: UnitId { id: 0 },
        defender_id: UnitId { id: 1 },
    });
    // the hard target itself is the one reactor (weak gun, range 5)
    assert_eq!(events.len(), 2);
    match &events[1] {
        CoreEvent::AttackUnit { attacker_id, defender_id, mode, .. } => {
            assert_eq!(attacker_id.id, 1);
            assert_eq!(defender_id.id, 0);
            assert!(matches!(mode, FireMode::Reactive));
        }
        _ => panic!("expected the defender's reactive shot"),
    }
}

#[test]
fn reaction_fire_skips_own_and_idle_units() {
    // an own-side unit in range and a hostile with no attack points left
    // never produce reaction fire
    let mut s = setup();
    s.core.add_unit(&pos(0, 0), &s.shooter, &P0);
    s.core.add_unit(&pos(1, 0), &s.shooter, &P0);
    s.core.add_unit(&pos(2, 0), &s.idle_type, &P1);
    let events = s.core.reaction_fire(&UnitId { id: 0 }, &pos(0, 0));
    assert_eq!(events.len(), 0);
}

#[test]
fn lethal_outcome_is_forced_by_stats() {
    // the dice lie in -5..5: a target number of 5 passes for every draw
    for _ in 0..25 {
        let mut s = setup();
        s.core.add_unit(&pos(0, 0), &s.sure_kill, &P0);
        s.core.add_unit(&pos(2, 0), &s.soft_target, &P1);
        let events = s.core.command_to_event(Command::AttackUnit {
            attacker_id: UnitId { id: 0 },
            defender_id: UnitId { id: 1 },
        });
        assert_eq!(events.len(), 1);
        match &events[0] {
            CoreEvent::AttackUnit { killed, .. } => assert!(*killed),
            _ => panic!("expected an attack event"),
        }
    }
}

#[test]
fn hopeless_wound_roll_is_forced_by_stats() {
    // a wound target of -8 can never be passed by a draw from -5..5
    for _ in 0..25 {
        let mut s = setup();
        s.core.add_unit(&pos(0, 0), &s.shooter, &P0);
        s.core.add_unit(&pos(2, 0), &s.hard_target, &P1);
        let events = s.core.command_to_event(Command::AttackUnit {
            attacker_id: UnitId { id: 0 },
            defender_id: UnitId { id: 1 },
        });
        match &events[0] {
            CoreEvent::AttackUnit { killed, .. } => assert!(!*killed),
            _ => panic!("expected an attack event"),
        }
    }
}
