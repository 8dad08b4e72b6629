//! The world state store: the canonical unit registry and the map size.
//! Events are the only mutation channel; `apply_event` carries out exactly
//! the change an event describes and nothing else.

use vstd::prelude::*;

use crate::event::{CoreEvent, CoreEventV};
use crate::object::ObjectTypes;
use crate::types::{PlayerId, Size2, UnitId, ZInt};
use crate::unit::Unit;

verus! {

/// `u` is one of the units of `s`.
pub open spec fn is_one_of(u: Unit, s: Seq<Unit>) -> bool {
    exists|j: int| 0 <= j < s.len() && s[j] == u
}

/// Some living unit carries this id.
pub open spec fn has_unit(units: Seq<Unit>, id: UnitId) -> bool {
    exists|i: int| 0 <= i < units.len() && units[i].id == id
}

/// The index of the unit with this id (meaningful under `unique_ids`).
pub open spec fn unit_index(units: Seq<Unit>, id: UnitId) -> int {
    choose|i: int| 0 <= i < units.len() && units[i].id == id
}

/// The unit with this id (meaningful under `unique_ids` and `has_unit`).
pub open spec fn spec_unit(units: Seq<Unit>, id: UnitId) -> Unit {
    units[unit_index(units, id)]
}

/// No two living units share an id.
pub open spec fn unique_ids(units: Seq<Unit>) -> bool {
    forall|i: int, j: int|
        0 <= i < j < units.len() ==> (#[trigger] units[i]).id != (#[trigger] units[j]).id
}

/// Every living unit refers to a registered type, belongs to one of the two
/// players, has at least one model left (a stack reaching zero is removed),
/// and carries a non-negative attack budget and a non-negative id.
pub open spec fn units_wf(units: Seq<Unit>, types: ObjectTypes) -> bool {
    forall|i: int|
        0 <= i < units.len() ==> {
            &&& types.valid_unit_type_id((#[trigger] units[i]).type_id)
            &&& 0 <= units[i].player_id.id < crate::player_count()
            &&& units[i].attack_points >= 0
            &&& units[i].count >= 1
            &&& 0 <= units[i].id.id
        }
}

/// A fresh unit as a `CreateUnit` event inserts it: full starting count and
/// attack points from its type, nothing attached.
pub open spec fn new_unit(
    types: ObjectTypes,
    unit_id: UnitId,
    pos: crate::types::MapPos,
    type_id: crate::unit::UnitTypeId,
    player_id: PlayerId,
) -> Unit {
    Unit {
        id: unit_id,
        pos: pos,
        type_id: type_id,
        player_id: player_id,
        count: types.spec_unit_type(type_id).count,
        attack_points: types.spec_unit_type(type_id).attack_points,
        attached_unit_id: None,
    }
}

/// A `CreateUnit` event is applicable when its id is fresh and representable
/// and it refers to a registered type and a real player.
pub open spec fn create_applicable(
    units: Seq<Unit>,
    types: ObjectTypes,
    unit_id: UnitId,
    type_id: crate::unit::UnitTypeId,
    player_id: PlayerId,
) -> bool {
    &&& !has_unit(units, unit_id)
    &&& types.valid_unit_type_id(type_id)
    &&& 0 <= unit_id.id < 0x7fff_ffff
    &&& 0 <= player_id.id < crate::player_count()
}

/// One attack point is consumed by firing; the budget never goes below zero.
pub open spec fn consume_attack_point(units: Seq<Unit>, id: UnitId) -> Seq<Unit> {
    if has_unit(units, id) {
        let i = unit_index(units, id);
        let u = units[i];
        let ap = if u.attack_points > 0 {
            (u.attack_points - 1) as ZInt
        } else {
            u.attack_points
        };
        units.update(i, Unit { attack_points: ap, ..u })
    } else {
        units
    }
}

/// Removes the unit with this id, if it lives.
pub open spec fn remove_unit(units: Seq<Unit>, id: UnitId) -> Seq<Unit> {
    if has_unit(units, id) {
        units.remove(unit_index(units, id))
    } else {
        units
    }
}

/// Removes a killed unit and, in cascade, the unit attached to it.
pub open spec fn remove_unit_cascading(units: Seq<Unit>, id: UnitId) -> Seq<Unit> {
    if has_unit(units, id) {
        let attached = spec_unit(units, id).attached_unit_id;
        let rest = remove_unit(units, id);
        match attached {
            Some(aid) => remove_unit(rest, aid),
            None => rest,
        }
    } else {
        units
    }
}

/// Restores the full attack-point budget of every unit of `player`.
pub open spec fn reset_attack_points(
    units: Seq<Unit>,
    types: ObjectTypes,
    player: PlayerId,
) -> Seq<Unit> {
    units.map(
        |i: int, u: Unit|
            if u.player_id == player && types.valid_unit_type_id(u.type_id) {
                Unit { attack_points: types.spec_unit_type(u.type_id).attack_points, ..u }
            } else {
                u
            },
    )
}

/// What applying one event does to the unit registry.
///
/// - `Move`: the unit stands at the path's final waypoint.
/// - `CreateUnit`: inserts the fresh unit record.
/// - `AttackUnit`: the attacker pays one attack point; a killed defender is
///   removed together with any attached unit.
/// - `EndTurn`: the incoming player's units get their attack points back.
///
/// Events generated by the command resolver always satisfy the guards; the
/// guards only make the function total.
pub open spec fn apply_event_spec(units: Seq<Unit>, types: ObjectTypes, e: CoreEventV) -> Seq<
    Unit,
> {
    match e {
        CoreEventV::Move { unit_id, path } => {
            if has_unit(units, unit_id) && path.len() > 0 {
                let i = unit_index(units, unit_id);
                units.update(i, Unit { pos: path.last(), ..units[i] })
            } else {
                units
            }
        },
        CoreEventV::EndTurn { old_id: _, new_id } => reset_attack_points(units, types, new_id),
        CoreEventV::CreateUnit { unit_id, pos, type_id, player_id } => {
            if create_applicable(units, types, unit_id, type_id, player_id) {
                units.push(new_unit(types, unit_id, pos, type_id, player_id))
            } else {
                units
            }
        },
        CoreEventV::AttackUnit { attacker_id, defender_id, mode: _, killed } => {
            let after_cost = consume_attack_point(units, attacker_id);
            if killed {
                remove_unit_cascading(after_cost, defender_id)
            } else {
                after_cost
            }
        },
    }
}

/// The canonical world state: the living units (in creation order) and the
/// fixed map size.
pub struct InternalState {
    pub units: Vec<Unit>,
    pub map_size: Size2,
}

/// Finds the index of the unit with this id, scanning in registry order.
pub fn find_unit_index(units: &Vec<Unit>, id: UnitId) -> (r: Option<usize>)
    ensures
        match r {
            Some(i) => {
                &&& i < units@.len()
                &&& units@[i as int].id == id
                &&& has_unit(units@, id)
                &&& unique_ids(units@) ==> i as int == unit_index(units@, id)
            },
            None => !has_unit(units@, id),
        },
{
    let n = units.len();
    let mut i: usize = 0;
    while i < n
        invariant
            n == units@.len(),
            0 <= i <= n,
            forall|k: int| 0 <= k < i ==> (#[trigger] units@[k]).id != id,
        decreases n - i,
    {
        if units[i].id == id {
            proof {
                assert(units@[i as int].id == id);
                if unique_ids(units@) {
                    let j = unit_index(units@, id);
                    assert(0 <= j < units@.len() && units@[j].id == id);
                    assert(j == i as int);
                }
            }
            return Some(i);
        }
        i += 1;
    }
    None
}

impl InternalState {
    /// An empty world of the given size.
    pub fn new(map_size: &Size2) -> (r: InternalState)
        ensures
            r.units@.len() == 0,
            r.map_size == *map_size,
    {
        InternalState { units: Vec::new(), map_size: *map_size }
    }

    /// Applies one event to the unit registry, exactly as `apply_event_spec`
    /// describes. Never fails: events the resolver generates are always
    /// applicable, and an inapplicable event leaves the state unchanged.
    pub fn apply_event(&mut self, object_types: &ObjectTypes, event: &CoreEvent)
        requires
            unique_ids(old(self).units@),
        ensures
            final(self).units@ == apply_event_spec(
                old(self).units@,
                *object_types,
                event.deep_view(),
            ),
            final(self).map_size == old(self).map_size,
    {
        match event {
            CoreEvent::Move { unit_id, path } => {
                if path.nodes().len() > 0 {
                    if let Some(i) = find_unit_index(&self.units, *unit_id) {
                        let last_pos = path.nodes()[path.nodes().len() - 1];
                        let mut u = self.units[i];
                        u.pos = last_pos;
                        self.units[i] = u;
                    }
                }
            },
            CoreEvent::EndTurn { old_id: _, new_id } => {
                self.reset_player_attack_points(object_types, *new_id);
            },
            CoreEvent::CreateUnit { unit_id, pos, type_id, player_id } => {
                let fresh = find_unit_index(&self.units, *unit_id).is_none();
                let valid_type = type_id.id >= 0 && (type_id.id as usize)
                    < object_types.unit_types.len();
                let valid_player = player_id.id >= 0 && player_id.id < 2;
                let small_id = unit_id.id >= 0 && unit_id.id < 0x7fff_ffff;
                if fresh && valid_type && valid_player && small_id {
                    let ut = object_types.get_unit_type(type_id);
                    let count = ut.count;
                    let attack_points = ut.attack_points;
                    self.units.push(
                        Unit {
                            id: *unit_id,
                            pos: *pos,
                            type_id: *type_id,
                            player_id: *player_id,
                            count: count,
                            attack_points: attack_points,
                            attached_unit_id: None,
                        },
                    );
                }
            },
            CoreEvent::AttackUnit { attacker_id, defender_id, mode: _, killed } => {
                if let Some(i) = find_unit_index(&self.units, *attacker_id) {
                    let mut u = self.units[i];
                    if u.attack_points > 0 {
                        u.attack_points = u.attack_points - 1;
                    }
                    self.units[i] = u;
                }
                proof {
                    lemma_update_preserves_unique(old(self).units@, self.units@);
                }
                if *killed {
                    if let Some(i) = find_unit_index(&self.units, *defender_id) {
                        let attached = self.units[i].attached_unit_id;
                        let ghost mid = self.units@;
                        self.units.remove(i);
                        proof {
                            lemma_remove_preserves_unique(mid, i as int);
                        }
                        if let Some(aid) = attached {
                            if let Some(k) = find_unit_index(&self.units, aid) {
                                self.units.remove(k);
                            }
                        }
                    }
                }
            },
        }
    }

    /// Restores the attack points of every unit of `player` from its type.
    fn reset_player_attack_points(&mut self, object_types: &ObjectTypes, player: PlayerId)
        ensures
            final(self).units@ == reset_attack_points(old(self).units@, *object_types, player),
            final(self).map_size == old(self).map_size,
    {
        let n = self.units.len();
        let mut i: usize = 0;
        while i < n
            invariant
                n == self.units@.len(),
                0 <= i <= n,
                self.map_size == old(self).map_size,
                self.units@.len() == old(self).units@.len(),
                forall|k: int|
                    i <= k < n ==> self.units@[k] == old(self).units@[k],
                forall|k: int|
                    0 <= k < i ==> self.units@[k] == reset_attack_points(
                        old(self).units@,
                        *object_types,
                        player,
                    )[k],
            decreases n - i,
        {
            let u = self.units[i];
            if u.player_id.id == player.id && u.type_id.id >= 0 && (u.type_id.id as usize)
                < object_types.unit_types.len() {
                let ut = object_types.get_unit_type(&u.type_id);
                let mut nu = u;
                nu.attack_points = ut.attack_points;
                self.units[i] = nu;
            }
            i += 1;
        }
        proof {
            assert(self.units@ =~= reset_attack_points(old(self).units@, *object_types, player));
        }
    }
}

/// Applying any event to a well-formed unit registry yields a well-formed
/// registry: ids stay unique, every unit still refers to a registered type
/// and keeps non-negative budgets, and no unit id appears that was not
/// already living or introduced by the event itself.
pub proof fn lemma_apply_event_preserves_wf(units: Seq<Unit>, types: ObjectTypes, e: CoreEventV)
    requires
        unique_ids(units),
        units_wf(units, types),
        types.wf(),
    ensures
        unique_ids(apply_event_spec(units, types, e)),
        units_wf(apply_event_spec(units, types, e), types),
        forall|i: int|
            0 <= i < apply_event_spec(units, types, e).len() ==> has_unit(
                units,
                (#[trigger] apply_event_spec(units, types, e)[i]).id,
            ) || (match e {
                CoreEventV::CreateUnit { unit_id, .. } => apply_event_spec(units, types, e)[i].id
                    == unit_id,
                _ => false,
            }),
{
    lemma_apply_event_preserves_wf_inner(units, types, e);
}

proof fn lemma_apply_event_preserves_wf_inner(units: Seq<Unit>, types: ObjectTypes, e: CoreEventV)
    requires
        unique_ids(units),
        units_wf(units, types),
        types.wf(),
    ensures
        unique_ids(apply_event_spec(units, types, e)),
        units_wf(apply_event_spec(units, types, e), types),
        forall|i: int|
            0 <= i < apply_event_spec(units, types, e).len() ==> has_unit(
                units,
                (#[trigger] apply_event_spec(units, types, e)[i]).id,
            ) || (match e {
                CoreEventV::CreateUnit { unit_id, .. } => apply_event_spec(units, types, e)[i].id
                    == unit_id,
                _ => false,
            }),
{
    let r = apply_event_spec(units, types, e);
    match e {
        CoreEventV::Move { unit_id, path } => {
            if has_unit(units, unit_id) && path.len() > 0 {
                lemma_update_preserves_unique(units, r);
                assert forall|i: int| 0 <= i < r.len() implies has_unit(
                    units,
                    (#[trigger] r[i]).id,
                ) by {
                    assert(r[i].id == units[i].id);
                }
            }
        },
        CoreEventV::EndTurn { old_id: _, new_id } => {
            assert(r.len() == units.len());
            assert forall|i: int| 0 <= i < r.len() implies (#[trigger] r[i]).id == units[i].id
                && types.valid_unit_type_id(r[i].type_id) && 0 <= r[i].player_id.id
                < crate::player_count() && r[i].attack_points >= 0 && r[i].count >= 1 && 0 <= r[
                i
            ].id.id by {
                assert(units_wf_at(units, types, i));
            }
            lemma_update_preserves_unique(units, r);
            assert forall|i: int| 0 <= i < r.len() implies has_unit(
                units,
                (#[trigger] r[i]).id,
            ) by {
                assert(r[i].id == units[i].id);
            }
        },
        CoreEventV::CreateUnit { unit_id, pos, type_id, player_id } => {
            if create_applicable(units, types, unit_id, type_id, player_id) {
                let nu = new_unit(types, unit_id, pos, type_id, player_id);
                assert(types.spec_unit_type(type_id).attack_points >= 0);
                assert(types.spec_unit_type(type_id).count >= 1);
                assert forall|i: int, j: int| 0 <= i < j < r.len() implies (#[trigger] r[i]).id != (
                #[trigger] r[j]).id by {
                    if j == r.len() - 1 {
                        assert(r[i] == units[i]);
                        assert(r[j] == nu);
                        assert(!has_unit(units, unit_id));
                    }
                }
                assert forall|i: int| 0 <= i < r.len() implies has_unit(units, (#[trigger] r[i]).id)
                    || r[i].id == unit_id by {
                    if i < r.len() - 1 {
                        assert(r[i] == units[i]);
                    }
                }
            }
        },
        CoreEventV::AttackUnit { attacker_id, defender_id, mode: _, killed } => {
            let mid = consume_attack_point(units, attacker_id);
            assert(mid.len() == units.len());
            assert forall|i: int| 0 <= i < mid.len() implies (#[trigger] mid[i]).id == units[i].id
                && types.valid_unit_type_id(mid[i].type_id) && 0 <= mid[i].player_id.id
                < crate::player_count() && mid[i].attack_points >= 0 && mid[i].count >= 1 && 0
                <= mid[i].id.id by {
                assert(units_wf_at(units, types, i));
            }
            lemma_update_preserves_unique(units, mid);
            if killed {
                lemma_remove_cascading_wf(mid, types, defender_id);
                assert forall|i: int| 0 <= i < r.len() implies has_unit(
                    units,
                    (#[trigger] r[i]).id,
                ) by {
                    assert(is_one_of(r[i], mid));
                    let j = choose|j: int| 0 <= j < mid.len() && mid[j] == r[i];
                    assert(mid[j].id == units[j].id);
                    assert(units[j].id == r[i].id);
                }
            } else {
                assert forall|i: int| 0 <= i < r.len() implies has_unit(
                    units,
                    (#[trigger] r[i]).id,
                ) by {
                    assert(r[i].id == units[i].id);
                }
            }
        },
    }
}

/// The well-formedness clause of one unit, for pointwise reasoning.
pub open spec fn units_wf_at(units: Seq<Unit>, types: ObjectTypes, i: int) -> bool {
    0 <= i < units.len() ==> {
        &&& types.valid_unit_type_id(units[i].type_id)
        &&& 0 <= units[i].player_id.id < crate::player_count()
        &&& units[i].attack_points >= 0
        &&& units[i].count >= 1
        &&& 0 <= units[i].id.id
    }
}

/// Removing a unit (and, in cascade, its attached unit) keeps ids unique and
/// units well formed, and every remaining unit was already there.
proof fn lemma_remove_cascading_wf(units: Seq<Unit>, types: ObjectTypes, id: UnitId)
    requires
        unique_ids(units),
        units_wf(units, types),
    ensures
        unique_ids(remove_unit_cascading(units, id)),
        units_wf(remove_unit_cascading(units, id), types),
        forall|i: int|
            0 <= i < remove_unit_cascading(units, id).len() ==> is_one_of(
                #[trigger] remove_unit_cascading(units, id)[i],
                units,
            ),
{
    if has_unit(units, id) {
        let k = unit_index(units, id);
        let rest = units.remove(k);
        lemma_remove_wf(units, types, k);
        match spec_unit(units, id).attached_unit_id {
            Some(aid) => {
                if has_unit(rest, aid) {
                    let k2 = unit_index(rest, aid);
                    let rest2 = rest.remove(k2);
                    lemma_remove_wf(rest, types, k2);
                    assert forall|i: int| 0 <= i < rest2.len() implies is_one_of(
                        #[trigger] rest2[i],
                        units,
                    ) by {
                        assert(is_one_of(rest2[i], rest));
                        let j1 = choose|j1: int| 0 <= j1 < rest.len() && rest[j1] == rest2[i];
                        assert(is_one_of(rest[j1], units));
                    }
                }
            },
            None => {},
        }
    }
}

/// Removing one unit keeps ids unique and units well formed; every remaining
/// unit is one of the original units.
proof fn lemma_remove_wf(s: Seq<Unit>, types: ObjectTypes, i: int)
    requires
        unique_ids(s),
        units_wf(s, types),
        0 <= i < s.len(),
    ensures
        unique_ids(s.remove(i)),
        units_wf(s.remove(i), types),
        forall|a: int|
            0 <= a < s.remove(i).len() ==> is_one_of(#[trigger] s.remove(i)[a], s),
{
    lemma_remove_preserves_unique(s, i);
    let r = s.remove(i);
    assert forall|a: int| 0 <= a < r.len() implies is_one_of(#[trigger] r[a], s)
        && types.valid_unit_type_id(r[a].type_id) && 0 <= r[a].player_id.id
        < crate::player_count() && r[a].attack_points >= 0 && r[a].count >= 1 && 0 <= r[
        a
    ].id.id by {
        if a < i {
            assert(0 <= a < s.len() && s[a] == r[a]);
        } else {
            assert(0 <= a + 1 < s.len() && s[a + 1] == r[a]);
        }
    }
}

/// Updating one element in place cannot introduce a duplicate id when the
/// update keeps the id.
proof fn lemma_update_preserves_unique(before: Seq<Unit>, after: Seq<Unit>)
    requires
        unique_ids(before),
        after.len() == before.len(),
        forall|i: int| 0 <= i < before.len() ==> (#[trigger] after[i]).id == before[i].id,
    ensures
        unique_ids(after),
{
}

/// Removing an element keeps the remaining ids distinct.
proof fn lemma_remove_preserves_unique(s: Seq<Unit>, i: int)
    requires
        unique_ids(s),
        0 <= i < s.len(),
    ensures
        unique_ids(s.remove(i)),
{
    let r = s.remove(i);
    assert forall|a: int, b: int| 0 <= a < b < r.len() implies (#[trigger] r[a]).id != (
    #[trigger] r[b]).id by {
        let sa = if a < i {
            a
        } else {
            a + 1
        };
        let sb = if b < i {
            b
        } else {
            b + 1
        };
        assert(r[a] == s[sa]);
        assert(r[b] == s[sb]);
    }
}

} // verus!
