//! The static registry of unit and weapon types. Loaded once at startup from
//! fixed built-in data; read-only afterwards. Lookups by name or by index.

use vstd::prelude::*;

use crate::types::ZInt;
use crate::unit::{Unit, UnitClass, UnitType, UnitTypeId, WeaponType, WeaponTypeId};

verus! {

/// There is a unit type of this name in the registry.
pub open spec fn has_unit_type_named(ts: Seq<UnitType>, name: Seq<char>) -> bool {
    exists|i: int| 0 <= i < ts.len() && ts[i].name@ == name
}

/// `i` is the first registry index whose unit type bears this name.
pub open spec fn first_unit_type_named(ts: Seq<UnitType>, name: Seq<char>, i: int) -> bool {
    &&& 0 <= i < ts.len()
    &&& ts[i].name@ == name
    &&& forall|k: int| 0 <= k < i ==> ts[k].name@ != name
}

/// There is a weapon type of this name in the registry.
pub open spec fn has_weapon_type_named(ws: Seq<WeaponType>, name: Seq<char>) -> bool {
    exists|i: int| 0 <= i < ws.len() && ws[i].name@ == name
}

/// `i` is the first registry index whose weapon type bears this name.
pub open spec fn first_weapon_type_named(ws: Seq<WeaponType>, name: Seq<char>, i: int) -> bool {
    &&& 0 <= i < ws.len()
    &&& ws[i].name@ == name
    &&& forall|k: int| 0 <= k < i ==> ws[k].name@ != name
}

/// The built-in weapon list: a tank cannon and an infantry rifle.
pub open spec fn builtin_weapon_types(ws: Seq<WeaponType>) -> bool {
    &&& ws.len() == 2
    &&& ws[0].name@ == "cannon"@
    &&& ws[0].damage == 9 && ws[0].ap == 9 && ws[0].accuracy == 5 && ws[0].max_distance == 5
    &&& ws[1].name@ == "rifle"@
    &&& ws[1].damage == 2 && ws[1].ap == 1 && ws[1].accuracy == 5 && ws[1].max_distance == 3
}

/// The built-in unit type list: a tank and a soldier stack.
pub open spec fn builtin_unit_types(ts: Seq<UnitType>) -> bool {
    &&& ts.len() == 2
    &&& ts[0].name@ == "tank"@
    &&& ts[0].class == UnitClass::Vehicle && ts[0].size == 6 && ts[0].count == 1
    &&& ts[0].armor == 11 && ts[0].toughness == 9 && ts[0].weapon_skill == 5
    &&& ts[0].weapon_type_id.id == 0 && ts[0].move_points == 5 && ts[0].attack_points == 2
    &&& ts[1].name@ == "soldier"@
    &&& ts[1].class == UnitClass::Infantry && ts[1].size == 4 && ts[1].count == 4
    &&& ts[1].armor == 1 && ts[1].toughness == 2 && ts[1].weapon_skill == 5
    &&& ts[1].weapon_type_id.id == 1 && ts[1].move_points == 3 && ts[1].attack_points == 2
}

/// The static registry: unit types and weapon types, indexed by the ids that
/// `UnitTypeId` and `WeaponTypeId` carry.
pub struct ObjectTypes {
    pub unit_types: Vec<UnitType>,
    pub weapon_types: Vec<WeaponType>,
}

impl ObjectTypes {
    /// The unit type list, for spec-level statements.
    pub open spec fn spec_unit_types(&self) -> Seq<UnitType> {
        self.unit_types@
    }

    /// Every unit type refers to a weapon type that exists, has at least one
    /// model in a full stack, and carries a non-negative attack budget; both
    /// lists stay indexable by `ZInt`.
    pub open spec fn wf(&self) -> bool {
        &&& self.spec_unit_types().len() <= 0x7fff_ffff
        &&& self.weapon_types@.len() <= 0x7fff_ffff
        &&& forall|i: int|
            0 <= i < self.spec_unit_types().len() ==> {
                &&& 0 <= (#[trigger] self.spec_unit_types()[i]).weapon_type_id.id
                    < self.weapon_types@.len()
                &&& self.spec_unit_types()[i].attack_points >= 0
                &&& self.spec_unit_types()[i].count >= 1
            }
    }

    pub open spec fn valid_unit_type_id(&self, id: UnitTypeId) -> bool {
        0 <= id.id < self.spec_unit_types().len()
    }

    pub open spec fn spec_unit_type(&self, id: UnitTypeId) -> UnitType {
        self.spec_unit_types()[id.id as int]
    }

    pub open spec fn valid_weapon_type_id(&self, id: WeaponTypeId) -> bool {
        0 <= id.id < self.weapon_types@.len()
    }

    pub open spec fn spec_weapon_type(&self, id: WeaponTypeId) -> WeaponType {
        self.weapon_types@[id.id as int]
    }

    /// The weapon range of a unit: the maximum distance of its type's weapon.
    pub open spec fn spec_max_attack_dist(&self, unit: Unit) -> int {
        self.spec_weapon_type(self.spec_unit_type(unit.type_id).weapon_type_id).max_distance as int
    }

    /// Builds the registry and loads the fixed built-in data into it.
    pub fn new() -> (r: ObjectTypes)
        ensures
            r.wf(),
            builtin_weapon_types(r.weapon_types@),
            builtin_unit_types(r.spec_unit_types()),
    {
        let mut object_types = ObjectTypes { unit_types: Vec::new(), weapon_types: Vec::new() };
        object_types.get_weapon_types();
        proof {
            assert(object_types.weapon_types@.skip(0) =~= object_types.weapon_types@);
        }
        object_types.get_unit_types();
        proof {
            reveal_strlit("cannon");
            reveal_strlit("rifle");
            assert(object_types.spec_unit_types().skip(0) =~= object_types.spec_unit_types());
            assert("cannon"@.len() == 6 && "rifle"@.len() == 5);
            assert(object_types.spec_unit_types()[0].weapon_type_id.id == 0);
            assert(object_types.spec_unit_types()[1].weapon_type_id.id == 1);
        }
        object_types
    }

    /// An empty registry, to be filled through `add_weapon_type` and
    /// `add_unit_type` (for example from external configuration).
    pub fn empty() -> (r: ObjectTypes)
        ensures
            r.wf(),
            r.spec_unit_types().len() == 0,
            r.weapon_types@.len() == 0,
    {
        ObjectTypes { unit_types: Vec::new(), weapon_types: Vec::new() }
    }

    /// Appends a weapon type; its id is the index it lands on.
    pub fn add_weapon_type(&mut self, wt: WeaponType) -> (id: WeaponTypeId)
        requires
            old(self).weapon_types@.len() < 0x7fff_ffff,
        ensures
            final(self).weapon_types@ == old(self).weapon_types@.push(wt),
            final(self).spec_unit_types() == old(self).spec_unit_types(),
            id.id == old(self).weapon_types@.len(),
            old(self).wf() ==> final(self).wf(),
    {
        let id = WeaponTypeId { id: self.weapon_types.len() as ZInt };
        self.weapon_types.push(wt);
        id
    }

    /// Appends a unit type; its id is the index it lands on. The type must
    /// refer to a weapon that is already registered.
    pub fn add_unit_type(&mut self, ut: UnitType) -> (id: UnitTypeId)
        requires
            old(self).spec_unit_types().len() < 0x7fff_ffff,
            0 <= ut.weapon_type_id.id < old(self).weapon_types@.len(),
            ut.attack_points >= 0,
            ut.count >= 1,
        ensures
            final(self).spec_unit_types() == old(self).spec_unit_types().push(ut),
            final(self).weapon_types@ == old(self).weapon_types@,
            id.id == old(self).spec_unit_types().len(),
            old(self).wf() ==> final(self).wf(),
    {
        let id = UnitTypeId { id: self.unit_types.len() as ZInt };
        self.unit_types.push(ut);
        id
    }

    /// Loads the built-in weapon types, appending them to the list.
    pub fn get_weapon_types(&mut self)
        requires
            old(self).weapon_types@.len() + 2 <= 0x7fff_ffff,
        ensures
            final(self).spec_unit_types() == old(self).spec_unit_types(),
            final(self).weapon_types@.len() == old(self).weapon_types@.len() + 2,
            final(self).weapon_types@.subrange(0, old(self).weapon_types@.len() as int) == old(
                self,
            ).weapon_types@,
            builtin_weapon_types(
                final(self).weapon_types@.skip(old(self).weapon_types@.len() as int),
            ),
            old(self).wf() ==> final(self).wf(),
    {
        self.add_weapon_type(
            WeaponType {
                name: "cannon".to_owned(),
                damage: 9,
                ap: 9,
                accuracy: 5,
                max_distance: 5,
            },
        );
        self.add_weapon_type(
            WeaponType { name: "rifle".to_owned(), damage: 2, ap: 1, accuracy: 5, max_distance: 3 },
        );
        proof {
            assert(self.weapon_types@.subrange(0, old(self).weapon_types@.len() as int) =~= old(
                self,
            ).weapon_types@);
            assert(self.weapon_types@.skip(old(self).weapon_types@.len() as int) =~= self
                .weapon_types@.subrange(
                old(self).weapon_types@.len() as int,
                self.weapon_types@.len() as int,
            ));
        }
    }

    /// Loads the built-in unit types, appending them to the list. The built-in
    /// weapons they use must already be registered.
    pub fn get_unit_types(&mut self)
        requires
            old(self).spec_unit_types().len() + 2 <= 0x7fff_ffff,
            old(self).weapon_types@.len() <= 0x7fff_ffff,
            has_weapon_type_named(old(self).weapon_types@, "cannon"@),
            has_weapon_type_named(old(self).weapon_types@, "rifle"@),
        ensures
            final(self).weapon_types@ == old(self).weapon_types@,
            final(self).spec_unit_types().len() == old(self).spec_unit_types().len() + 2,
            final(self).spec_unit_types().subrange(0, old(self).spec_unit_types().len() as int)
                == old(self).spec_unit_types(),
            builtin_unit_types_at(
                final(self).spec_unit_types().skip(old(self).spec_unit_types().len() as int),
                old(self).weapon_types@,
            ),
            old(self).wf() ==> final(self).wf(),
    {
        let cannon_id = self.get_weapon_type_id("cannon");
        let rifle_id = self.get_weapon_type_id("rifle");
        self.add_unit_type(
            UnitType {
                name: "tank".to_owned(),
                class: UnitClass::Vehicle,
                size: 6,
                count: 1,
                armor: 11,
                toughness: 9,
                weapon_skill: 5,
                weapon_type_id: cannon_id,
                move_points: 5,
                attack_points: 2,
            },
        );
        self.add_unit_type(
            UnitType {
                name: "soldier".to_owned(),
                class: UnitClass::Infantry,
                size: 4,
                count: 4,
                armor: 1,
                toughness: 2,
                weapon_skill: 5,
                weapon_type_id: rifle_id,
                move_points: 3,
                attack_points: 2,
            },
        );
        proof {
            assert(self.spec_unit_types().subrange(0, old(self).spec_unit_types().len() as int)
                =~= old(self).spec_unit_types());
            assert(self.spec_unit_types().skip(old(self).spec_unit_types().len() as int) =~= self
                .spec_unit_types().subrange(
                old(self).spec_unit_types().len() as int,
                self.spec_unit_types().len() as int,
            ));
        }
    }

    /// Finds the id of the unit type with this name, or `None` if the name is
    /// not registered.
    pub fn get_unit_type_id_opt(&self, name: &str) -> (r: Option<UnitTypeId>)
        requires
            self.spec_unit_types().len() <= 0x7fff_ffff,
        ensures
            match r {
                Some(id) => first_unit_type_named(self.spec_unit_types(), name@, id.id as int),
                None => !has_unit_type_named(self.spec_unit_types(), name@),
            },
    {
        let name_owned: String = name.to_owned();
        let n = self.unit_types.len();
        let mut i: usize = 0;
        while i < n
            invariant
                n == self.spec_unit_types().len(),
                n <= 0x7fff_ffff,
                0 <= i <= n,
                name_owned@ == name@,
                forall|k: int| 0 <= k < i ==> self.spec_unit_types()[k].name@ != name@,
            decreases n - i,
        {
            if self.unit_types[i].name == name_owned {
                return Some(UnitTypeId { id: i as ZInt });
            }
            i += 1;
        }
        None
    }

    /// The unit type stored under this id.
    pub fn get_unit_type(&self, unit_type_id: &UnitTypeId) -> (r: &UnitType)
        requires
            self.valid_unit_type_id(*unit_type_id),
        ensures
            *r == self.spec_unit_type(*unit_type_id),
    {
        &self.unit_types[unit_type_id.id as usize]
    }

    /// The id of the unit type with this name; the name must be registered.
    pub fn get_unit_type_id(&self, name: &str) -> (r: UnitTypeId)
        requires
            self.spec_unit_types().len() <= 0x7fff_ffff,
            has_unit_type_named(self.spec_unit_types(), name@),
        ensures
            first_unit_type_named(self.spec_unit_types(), name@, r.id as int),
    {
        let id_opt = self.get_unit_type_id_opt(name);
        match id_opt {
            Some(id) => id,
            None => {
                proof {
                    assert(false);
                }
                UnitTypeId { id: 0 }
            },
        }
    }

    /// The id of the weapon type with this name; the name must be registered.
    pub fn get_weapon_type_id(&self, name: &str) -> (r: WeaponTypeId)
        requires
            self.weapon_types@.len() <= 0x7fff_ffff,
            has_weapon_type_named(self.weapon_types@, name@),
        ensures
            first_weapon_type_named(self.weapon_types@, name@, r.id as int),
    {
        let name_owned: String = name.to_owned();
        let n = self.weapon_types.len();
        let mut i: usize = 0;
        while i < n
            invariant
                n == self.weapon_types@.len(),
                n <= 0x7fff_ffff,
                0 <= i <= n,
                name_owned@ == name@,
                has_weapon_type_named(self.weapon_types@, name@),
                forall|k: int| 0 <= k < i ==> self.weapon_types@[k].name@ != name@,
            decreases n - i,
        {
            if self.weapon_types[i].name == name_owned {
                return WeaponTypeId { id: i as ZInt };
            }
            i += 1;
        }
        proof {
            assert(false);
        }
        WeaponTypeId { id: 0 }
    }

    /// The weapon range of a unit: the maximum distance of its type's weapon.
    pub fn get_unit_max_attack_dist(&self, unit: &Unit) -> (r: ZInt)
        requires
            self.wf(),
            self.valid_unit_type_id(unit.type_id),
        ensures
            r == self.spec_max_attack_dist(*unit),
    {
        let attacker_type = self.get_unit_type(&unit.type_id);
        let weapon_type = &self.weapon_types[attacker_type.weapon_type_id.id as usize];
        weapon_type.max_distance
    }
}

/// The built-in unit types, with weapon ids resolved against `ws` by name.
pub open spec fn builtin_unit_types_at(ts: Seq<UnitType>, ws: Seq<WeaponType>) -> bool {
    &&& ts.len() == 2
    &&& ts[0].name@ == "tank"@
    &&& ts[0].class == UnitClass::Vehicle && ts[0].size == 6 && ts[0].count == 1
    &&& ts[0].armor == 11 && ts[0].toughness == 9 && ts[0].weapon_skill == 5
    &&& first_weapon_type_named(ws, "cannon"@, ts[0].weapon_type_id.id as int)
    &&& ts[0].move_points == 5 && ts[0].attack_points == 2
    &&& ts[1].name@ == "soldier"@
    &&& ts[1].class == UnitClass::Infantry && ts[1].size == 4 && ts[1].count == 4
    &&& ts[1].armor == 1 && ts[1].toughness == 2 && ts[1].weapon_skill == 5
    &&& first_weapon_type_named(ws, "rifle"@, ts[1].weapon_type_id.id as int)
    &&& ts[1].move_points == 3 && ts[1].attack_points == 2
}

} // verus!
