//! Units, unit types and weapon types: the records the static registry hands
//! out and the mutable unit record the world state owns.

use vstd::prelude::*;

use crate::types::{MapPos, PlayerId, UnitId, ZInt};

verus! {

/// Broad class of a unit type.
#[derive(Clone, Copy, PartialEq, Eq, Structural, Debug)]
pub enum UnitClass {
    Vehicle,
    Infantry,
}

/// Index into the registry's list of unit types.
#[derive(Clone, Copy, PartialEq, Eq, Structural, Debug)]
pub struct UnitTypeId {
    pub id: ZInt,
}

/// Index into the registry's list of weapon types.
#[derive(Clone, Copy, PartialEq, Eq, Structural, Debug)]
pub struct WeaponTypeId {
    pub id: ZInt,
}

/// Static statistics of a weapon type.
#[derive(Clone, Debug)]
pub struct WeaponType {
    pub name: String,
    pub damage: ZInt,
    pub ap: ZInt,
    pub accuracy: ZInt,
    pub max_distance: ZInt,
}

/// Static statistics of a unit type.
#[derive(Clone, Debug)]
pub struct UnitType {
    pub name: String,
    pub class: UnitClass,
    pub size: ZInt,
    pub count: ZInt,
    pub armor: ZInt,
    pub toughness: ZInt,
    pub weapon_skill: ZInt,
    pub weapon_type_id: WeaponTypeId,
    pub move_points: ZInt,
    pub attack_points: ZInt,
}

/// A living unit of the world state. Mutated only by event application.
#[derive(Clone, Copy, Debug)]
pub struct Unit {
    pub id: UnitId,
    pub pos: MapPos,
    pub type_id: UnitTypeId,
    pub player_id: PlayerId,
    pub count: ZInt,
    pub attack_points: ZInt,
    pub attached_unit_id: Option<UnitId>,
}

} // verus!
