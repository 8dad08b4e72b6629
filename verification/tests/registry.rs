use hexcore::object::ObjectTypes;
use hexcore::types::{MapPos, PlayerId, UnitId};
use hexcore::unit::{Unit, UnitClass, UnitType, WeaponType};

fn builtin() -> ObjectTypes {
    ObjectTypes::new()
}

#[test]
fn builtin_weapon_stats() {
    let types = builtin();
    let cannon = types.get_weapon_type_id("cannon");
    let rifle = types.get_weapon_type_id("rifle");
    assert_eq!(cannon.id, 0);
    assert_eq!(rifle.id, 1);
    let c = &types.weapon_types[cannon.id as usize];
    assert_eq!(c.damage, 9);
    assert_eq!(c.ap, 9);
    assert_eq!(c.accuracy, 5);
    assert_eq!(c.max_distance, 5);
    let r = &types.weapon_types[rifle.id as usize];
    assert_eq!(r.damage, 2);
    assert_eq!(r.ap, 1);
    assert_eq!(r.accuracy, 5);
    assert_eq!(r.max_distance, 3);
}

#[test]
fn builtin_unit_stats() {
    let types = builtin();
    let tank = types.get_unit_type_id("tank");
    let soldier = types.get_unit_type_id("soldier");
    assert_eq!(tank.id, 0);
    assert_eq!(soldier.id, 1);
    let t = types.get_unit_type(&tank);
    assert!(matches!(t.class, UnitClass::Vehicle));
    assert_eq!(t.size, 6);
    assert_eq!(t.count, 1);
    assert_eq!(t.armor, 11);
    assert_eq!(t.toughness, 9);
    assert_eq!(t.weapon_skill, 5);
    assert_eq!(t.move_points, 5);
    assert_eq!(t.attack_points, 2);
    let s = types.get_unit_type(&soldier);
    assert!(matches!(s.class, UnitClass::Infantry));
    assert_eq!(s.size, 4);
    assert_eq!(s.count, 4);
    assert_eq!(s.armor, 1);
    assert_eq!(s.toughness, 2);
    assert_eq!(s.weapon_skill, 5);
    assert_eq!(s.move_points, 3);
    assert_eq!(s.attack_points, 2);
}

#[test]
fn unknown_name_gives_none() {
    let types = builtin();
    assert!(types.get_unit_type_id_opt("dragon").is_none());
    assert!(types.get_unit_type_id_opt("tank").is_some());
}

#[test]
fn max_attack_dist_follows_weapon() {
    let types = builtin();
    let tank = types.get_unit_type_id("tank");
    let unit = Unit {
        id: UnitId { id: 7 },
        pos: MapPos { x: 0, y: 0 },
        type_id: tank,
        player_id: PlayerId { id: 0 },
        count: 1,
        attack_points: 2,
        attached_unit_id: None,
    };
    assert_eq!(types.get_unit_max_attack_dist(&unit), 5);
}

#[test]
fn added_types_get_successive_ids() {
    let mut types = ObjectTypes::empty();
    let w = types.add_weapon_type(WeaponType {
        name: "bow".to_owned(),
        damage: 1,
        ap: 0,
        accuracy: 2,
        max_distance: 4,
    });
    assert_eq!(w.id, 0);
    let u = types.add_unit_type(UnitType {
        name: "archer".to_owned(),
        class: UnitClass::Infantry,
        size: 3,
        count: 2,
        armor: 0,
        toughness: 1,
        weapon_skill: 4,
        weapon_type_id: w,
        move_points: 3,
        attack_points: 1,
    });
    assert_eq!(u.id, 0);
    assert_eq!(types.get_unit_type_id("archer").id, 0);
    assert_eq!(types.get_weapon_type_id("bow").id, 0);
}
