//! The engine: canonical state ownership, command resolution, combat,
//! reaction fire, turn sequencing and per-player event distribution.

use vstd::prelude::*;

use crate::event::{event_killed, is_attack_by, Command, CommandV, CoreEvent, CoreEventV, FireMode};
use crate::map::{distance, spec_distance, MapPath};
use crate::types::MapPos;
use crate::object::{builtin_unit_types, builtin_weapon_types, ObjectTypes};
use crate::player_count;
use crate::state::{
    apply_event_spec, has_unit, new_unit, spec_unit, unique_ids, unit_index, units_wf,
    InternalState,
};
use crate::types::{Player, PlayerId, Size2, UnitId, ZInt};
use crate::unit::{Unit, UnitType, UnitTypeId, WeaponType};

verus! {

/// The player index that follows `cur` when a turn ends, cycling through the
/// fixed player list.
pub open spec fn next_player_id(cur: int, n: int) -> int {
    if cur + 1 == n {
        0
    } else {
        cur + 1
    }
}

/// How the current player changes when an event is applied: only an
/// `EndTurn` naming the current player as the outgoing one moves the turn to
/// the incoming player.
pub open spec fn turn_update(cur: PlayerId, e: CoreEventV) -> PlayerId {
    match e {
        CoreEventV::EndTurn { old_id, new_id } => {
            if 0 <= new_id.id < player_count() && cur == old_id {
                new_id
            } else {
                cur
            }
        },
        _ => cur,
    }
}

/// How the id allocator advances when an event is applied: past every unit id
/// a `CreateUnit` introduces.
pub open spec fn next_id_update(next: int, e: CoreEventV) -> int {
    match e {
        CoreEventV::CreateUnit { unit_id, .. } => {
            if unit_id.id >= next {
                unit_id.id + 1
            } else {
                next
            }
        },
        _ => next,
    }
}

/// The unit registry after a whole event sequence, applied in order.
pub open spec fn apply_events_spec(
    units: Seq<Unit>,
    types: ObjectTypes,
    evs: Seq<CoreEventV>,
) -> Seq<Unit>
    decreases evs.len(),
{
    if evs.len() == 0 {
        units
    } else {
        apply_events_spec(apply_event_spec(units, types, evs[0]), types, evs.skip(1))
    }
}

/// The current player after a whole event sequence, applied in order.
pub open spec fn turn_update_seq(cur: PlayerId, evs: Seq<CoreEventV>) -> PlayerId
    decreases evs.len(),
{
    if evs.len() == 0 {
        cur
    } else {
        turn_update_seq(turn_update(cur, evs[0]), evs.skip(1))
    }
}

/// Appending one event to a sequence applies it after the rest.
pub proof fn lemma_apply_events_snoc(
    units: Seq<Unit>,
    types: ObjectTypes,
    evs: Seq<CoreEventV>,
    e: CoreEventV,
)
    ensures
        apply_events_spec(units, types, evs.push(e)) == apply_event_spec(
            apply_events_spec(units, types, evs),
            types,
            e,
        ),
    decreases evs.len(),
{
    let p = evs.push(e);
    if evs.len() == 0 {
        assert(p[0] == e);
        assert(p.skip(1) =~= Seq::<CoreEventV>::empty());
        assert(apply_events_spec(units, types, p) == apply_events_spec(
            apply_event_spec(units, types, e),
            types,
            p.skip(1),
        ));
        assert(apply_events_spec(apply_event_spec(units, types, e), types, p.skip(1))
            == apply_event_spec(units, types, e));
        assert(apply_events_spec(units, types, evs) == units);
    } else {
        assert(p[0] == evs[0]);
        assert(p.skip(1) =~= evs.skip(1).push(e));
        let mid = apply_event_spec(units, types, evs[0]);
        lemma_apply_events_snoc(mid, types, evs.skip(1), e);
        assert(apply_events_spec(units, types, p) == apply_events_spec(mid, types, p.skip(1)));
        assert(apply_events_spec(mid, types, evs.skip(1).push(e)) == apply_event_spec(
            apply_events_spec(mid, types, evs.skip(1)),
            types,
            e,
        ));
        assert(apply_events_spec(units, types, evs) == apply_events_spec(mid, types, evs.skip(1)));
    }
}

/// Appending one event to a sequence updates the turn after the rest.
pub proof fn lemma_turn_update_snoc(cur: PlayerId, evs: Seq<CoreEventV>, e: CoreEventV)
    ensures
        turn_update_seq(cur, evs.push(e)) == turn_update(turn_update_seq(cur, evs), e),
    decreases evs.len(),
{
    let p = evs.push(e);
    if evs.len() == 0 {
        assert(p[0] == e);
        assert(p.skip(1) =~= Seq::<CoreEventV>::empty());
        assert(turn_update_seq(cur, p) == turn_update_seq(turn_update(cur, e), p.skip(1)));
        assert(turn_update_seq(turn_update(cur, e), p.skip(1)) == turn_update(cur, e));
        assert(turn_update_seq(cur, evs) == cur);
    } else {
        assert(p[0] == evs[0]);
        assert(p.skip(1) =~= evs.skip(1).push(e));
        let mid = turn_update(cur, evs[0]);
        lemma_turn_update_snoc(mid, evs.skip(1), e);
        assert(turn_update_seq(cur, p) == turn_update_seq(mid, p.skip(1)));
        assert(turn_update_seq(cur, evs) == turn_update_seq(mid, evs.skip(1)));
    }
}

/// The hit-test target number: how far below the threshold a die must fall
/// for the shot to connect.
pub open spec fn hit_target(attacker_type: UnitType, defender_type: UnitType, weapon: WeaponType) -> int {
    -15 + defender_type.size + weapon.accuracy + attacker_type.weapon_skill
}

/// The penetration-test target number.
pub open spec fn pierce_target(defender_type: UnitType, weapon: WeaponType) -> int {
    5 - defender_type.armor + weapon.ap
}

/// The wound-test target number.
pub open spec fn wound_target(defender_type: UnitType, weapon: WeaponType) -> int {
    -defender_type.toughness + weapon.damage
}

/// The unit type of a living unit.
pub open spec fn spec_unit_type_of(core: Core, id: UnitId) -> UnitType {
    core.types().spec_unit_type(spec_unit(core.units(), id).type_id)
}

/// The weapon that a living unit's type carries.
pub open spec fn spec_weapon_of(core: Core, id: UnitId) -> WeaponType {
    core.types().spec_weapon_type(spec_unit_type_of(core, id).weapon_type_id)
}

/// Relies on rand's `Rng::gen_range` on the thread-local generator: it
/// returns a value that lies within the given half-open range, here `-5..5`.
#[verifier::external_body]
fn roll_die() -> (r: i64)
    ensures
        -5 <= r < 5,
{
    rand::Rng::gen_range(&mut rand::thread_rng(), -5i64..5i64)
}

/// One threshold test of the combat resolver: a die passes when it is
/// strictly below the target number.
pub fn test_roll(roll: i64, needed: i64) -> (r: bool)
    ensures
        r == (roll < needed),
{
    roll < needed
}

/// The combat resolver on given dice: an attack kills exactly when the hit,
/// penetration and wound dice each fall strictly below their target numbers.
pub fn resolve_combat(
    hit_v: i64,
    pierce_v: i64,
    wound_v: i64,
    hit_roll: i64,
    pierce_roll: i64,
    wound_roll: i64,
) -> (killed: bool)
    ensures
        killed == (hit_roll < hit_v && pierce_roll < pierce_v && wound_roll < wound_v),
{
    if !test_roll(hit_roll, hit_v) {
        return false;
    }
    if !test_roll(pierce_roll, pierce_v) {
        return false;
    }
    if !test_roll(wound_roll, wound_v) {
        return false;
    }
    true
}

/// Whether an attack event reports its defender dead; the event must be an
/// attack.
fn is_target_dead(event: &CoreEvent) -> (r: bool)
    requires
        event.deep_view() matches CoreEventV::AttackUnit { .. },
    ensures
        r == event_killed(event.deep_view()),
{
    match event {
        CoreEvent::AttackUnit { killed, .. } => *killed,
        _ => {
            proof {
                assert(false);
            }
            false
        },
    }
}

/// A unit that interrupts with reaction fire: it belongs to a player other
/// than the acting one, still has attack points, and its weapon reaches the
/// triggering position.
pub open spec fn is_reactor(u: Unit, types: ObjectTypes, cur: PlayerId, pos: MapPos) -> bool {
    &&& u.player_id != cur
    &&& u.attack_points > 0
    &&& spec_distance(u.pos, pos) <= types.spec_max_attack_dist(u)
}

/// The reacting units, in registry (creation) order.
pub open spec fn reactors(units: Seq<Unit>, types: ObjectTypes, cur: PlayerId, pos: MapPos) -> Seq<
    Unit,
> {
    units.filter(|u: Unit| is_reactor(u, types, cur, pos))
}

/// Some unit reacts to the triggering position.
pub open spec fn has_reactor(units: Seq<Unit>, types: ObjectTypes, cur: PlayerId, pos: MapPos) -> bool {
    reactors(units, types, cur, pos).len() > 0
}

/// What one attack order resolves to: nothing when the target position is
/// out of the attacker's weapon range, otherwise exactly one attack event by
/// the attacker on the defender in the given fire mode, whose `killed` flag
/// the dice decide.
pub open spec fn attack_events_ok(
    units: Seq<Unit>,
    types: ObjectTypes,
    attacker_id: UnitId,
    defender_id: UnitId,
    pos: MapPos,
    mode: FireMode,
    evs: Seq<CoreEventV>,
) -> bool {
    let a = spec_unit(units, attacker_id);
    let d = spec_unit(units, defender_id);
    let at = types.spec_unit_type(a.type_id);
    let dt = types.spec_unit_type(d.type_id);
    let w = types.spec_weapon_type(at.weapon_type_id);
    let hits_possible = spec_distance(a.pos, d.pos) <= w.max_distance;
    if spec_distance(a.pos, pos) <= types.spec_max_attack_dist(a) {
        &&& evs.len() == 1
        &&& is_attack_by(evs[0], attacker_id, defender_id, mode)
        &&& (event_killed(evs[0]) ==> hits_possible && hit_target(at, dt, w) > -5
            && pierce_target(dt, w) > -5 && wound_target(dt, w) > -5)
        &&& ((hits_possible && hit_target(at, dt, w) >= 5 && pierce_target(dt, w) >= 5
            && wound_target(dt, w) >= 5) ==> event_killed(evs[0]))
    } else {
        evs.len() == 0
    }
}

/// What a single-position reaction-fire check returns: one reactive attack on
/// the target per reactor, in registry order, stopping right after the first
/// lethal one. Which attacks are lethal depends on the dice, so the events
/// are characterized rather than computed: a strict prefix of the reactors
/// fires only when the last shot fired was lethal.
pub open spec fn reaction_events_ok(
    units: Seq<Unit>,
    types: ObjectTypes,
    cur: PlayerId,
    target: UnitId,
    pos: MapPos,
    evs: Seq<CoreEventV>,
) -> bool {
    let rs = reactors(units, types, cur, pos);
    &&& evs.len() <= rs.len()
    &&& forall|j: int|
        0 <= j < evs.len() ==> is_attack_by(#[trigger] evs[j], rs[j].id, target, FireMode::Reactive)
    &&& forall|j: int| 0 <= j < evs.len() - 1 ==> !event_killed(#[trigger] evs[j])
    &&& evs.len() < rs.len() ==> evs.len() > 0 && event_killed(evs.last())
}

/// Filtering a one-element sequence keeps or drops that element.
proof fn lemma_filter_singleton(u: Unit, pred: spec_fn(Unit) -> bool)
    ensures
        seq![u].filter(pred) == if pred(u) {
            seq![u]
        } else {
            Seq::<Unit>::empty()
        },
{
    reveal(Seq::filter);
    let s = seq![u];
    assert(s.drop_last() =~= Seq::<Unit>::empty());
    assert(Seq::<Unit>::empty().filter(pred) == Seq::<Unit>::empty());
    if pred(u) {
        assert(Seq::<Unit>::empty().push(u) =~= s);
    }
}

/// Extending the scanned prefix by one unit extends the reactor list by that
/// unit exactly when it reacts.
proof fn lemma_reactors_take_push(
    units: Seq<Unit>,
    types: ObjectTypes,
    cur: PlayerId,
    pos: MapPos,
    i: int,
)
    requires
        0 <= i < units.len(),
    ensures
        reactors(units.take(i + 1), types, cur, pos) == reactors(units.take(i), types, cur, pos)
            + (if is_reactor(units[i], types, cur, pos) {
            seq![units[i]]
        } else {
            Seq::<Unit>::empty()
        }),
{
    let pred = |u: Unit| is_reactor(u, types, cur, pos);
    assert(units.take(i + 1) =~= units.take(i) + seq![units[i]]);
    Seq::filter_distributes_over_add(units.take(i), seq![units[i]], pred);
    lemma_filter_singleton(units[i], pred);
}

/// The reactors of a scanned prefix are a prefix of all reactors.
proof fn lemma_reactors_prefix(
    units: Seq<Unit>,
    types: ObjectTypes,
    cur: PlayerId,
    pos: MapPos,
    i: int,
)
    requires
        0 <= i <= units.len(),
    ensures
        reactors(units.take(i), types, cur, pos).len() <= reactors(units, types, cur, pos).len(),
        forall|j: int|
            0 <= j < reactors(units.take(i), types, cur, pos).len() ==> #[trigger] reactors(
                units,
                types,
                cur,
                pos,
            )[j] == reactors(units.take(i), types, cur, pos)[j],
{
    let pred = |u: Unit| is_reactor(u, types, cur, pos);
    assert(units.take(i) + units.skip(i) =~= units);
    Seq::filter_distributes_over_add(units.take(i), units.skip(i), pred);
}

/// Every fired reaction event comes from a unit of the list that reacts: a
/// hostile unit with attack points left whose weapon reaches the position.
pub open spec fn reactor_attacker_ok(
    units: Seq<Unit>,
    types: ObjectTypes,
    cur: PlayerId,
    pos: MapPos,
    e: CoreEventV,
) -> bool {
    exists|k: int|
        0 <= k < units.len() && (#[trigger] units[k]).id == crate::event::event_attacker(e)
            && is_reactor(units[k], types, cur, pos)
}

/// Every element of a filtered sequence is an element of the original.
proof fn lemma_filter_element_of(s: Seq<Unit>, pred: spec_fn(Unit) -> bool, j: int)
    requires
        0 <= j < s.filter(pred).len(),
    ensures
        crate::state::is_one_of(s.filter(pred)[j], s),
        pred(s.filter(pred)[j]),
    decreases s.len(),
{
    reveal(Seq::filter);
    s.lemma_filter_pred(pred, j);
    let f = s.filter(pred);
    let fd = s.drop_last().filter(pred);
    if j < fd.len() {
        lemma_filter_element_of(s.drop_last(), pred, j);
        let k = choose|k: int| 0 <= k < s.drop_last().len() && s.drop_last()[k] == fd[j];
        assert(s[k] == fd[j]);
        assert(f[j] == fd[j]);
        assert(crate::state::is_one_of(f[j], s));
    } else {
        assert(pred(s.last()));
        assert(f[j] == s.last());
        assert(s[s.len() - 1] == s.last());
    }
}

/// Reaction fire never fires on behalf of the acting player's own units, and
/// never on a unit with zero remaining attack points: every event of a
/// reaction-fire result is the shot of a hostile unit that still had attack
/// points and was in range.
pub proof fn lemma_reaction_fire_only_idle_hostiles(
    units: Seq<Unit>,
    types: ObjectTypes,
    cur: PlayerId,
    target: UnitId,
    pos: MapPos,
    evs: Seq<CoreEventV>,
)
    requires
        reaction_events_ok(units, types, cur, target, pos, evs),
    ensures
        forall|j: int|
            0 <= j < evs.len() ==> reactor_attacker_ok(units, types, cur, pos, #[trigger] evs[j]),
{
    let pred = |u: Unit| is_reactor(u, types, cur, pos);
    let rs = reactors(units, types, cur, pos);
    assert forall|j: int| 0 <= j < evs.len() implies reactor_attacker_ok(
        units,
        types,
        cur,
        pos,
        #[trigger] evs[j],
    ) by {
        lemma_filter_element_of(units, pred, j);
        let k = choose|k: int| 0 <= k < units.len() && units[k] == rs[j];
        assert(units[k].id == crate::event::event_attacker(evs[j]));
    }
}

/// The first waypoint index at or after `i` (starting past the origin) where
/// some hostile unit reacts, or the path length when the whole path is safe.
pub open spec fn first_interrupt_idx(
    units: Seq<Unit>,
    types: ObjectTypes,
    cur: PlayerId,
    path: Seq<MapPos>,
    i: int,
) -> int
    decreases path.len() - i,
{
    if i < 1 || i >= path.len() {
        path.len() as int
    } else if has_reactor(units, types, cur, path[i]) {
        i
    } else {
        first_interrupt_idx(units, types, cur, path, i + 1)
    }
}

/// Pins `first_interrupt_idx` down from a scan: no reactor before `k`, and a
/// reactor at `k` unless the path is exhausted.
proof fn lemma_first_interrupt(
    units: Seq<Unit>,
    types: ObjectTypes,
    cur: PlayerId,
    path: Seq<MapPos>,
    lo: int,
    k: int,
)
    requires
        1 <= lo <= k <= path.len(),
        forall|j: int| lo <= j < k ==> !has_reactor(units, types, cur, #[trigger] path[j]),
        k < path.len() ==> has_reactor(units, types, cur, path[k]),
    ensures
        first_interrupt_idx(units, types, cur, path, lo) == if k < path.len() {
            k
        } else {
            path.len() as int
        },
    decreases k - lo,
{
    if lo < k {
        lemma_first_interrupt(units, types, cur, path, lo + 1, k);
    }
}

/// What resolving a move command yields. The walk starts at the waypoint past
/// the origin; the first waypoint within reach of any hostile reactor becomes
/// the interrupt point: the move is truncated there and the reaction shots
/// follow it. A path that triggers no reaction fire yields nothing here (the
/// resolver then emits the untruncated move).
pub open spec fn reaction_fire_move_ok(
    units: Seq<Unit>,
    types: ObjectTypes,
    cur: PlayerId,
    unit_id: UnitId,
    path: Seq<MapPos>,
    evs: Seq<CoreEventV>,
) -> bool {
    let k = first_interrupt_idx(units, types, cur, path, 1);
    if k == path.len() {
        evs.len() == 0
    } else {
        &&& evs.len() >= 2
        &&& evs[0] == CoreEventV::Move { unit_id: unit_id, path: path.take(k + 1) }
        &&& reaction_events_ok(units, types, cur, unit_id, path[k], evs.skip(1))
    }
}

/// A `CreateUnit` event's id is representable; true of any other event.
pub open spec fn create_event_id_small(e: CoreEventV) -> bool {
    match e {
        CoreEventV::CreateUnit { unit_id, .. } => 0 <= unit_id.id < 0x7fff_ffff,
        _ => true,
    }
}

/// The id allocator after a whole event sequence, applied in order.
pub open spec fn next_id_update_seq(next: int, evs: Seq<CoreEventV>) -> int
    decreases evs.len(),
{
    if evs.len() == 0 {
        next
    } else {
        next_id_update_seq(next_id_update(next, evs[0]), evs.skip(1))
    }
}

/// The set of ever-allocated ids after one event.
pub open spec fn ever_ids_update(ever: Set<int>, e: CoreEventV) -> Set<int> {
    match e {
        CoreEventV::CreateUnit { unit_id, .. } => ever.insert(unit_id.id as int),
        _ => ever,
    }
}

/// The set of ever-allocated ids after a whole event sequence.
pub open spec fn ever_ids_update_seq(ever: Set<int>, evs: Seq<CoreEventV>) -> Set<int>
    decreases evs.len(),
{
    if evs.len() == 0 {
        ever
    } else {
        ever_ids_update_seq(ever_ids_update(ever, evs[0]), evs.skip(1))
    }
}

/// Appending one event to a sequence advances the allocator after the rest.
pub proof fn lemma_next_id_update_snoc(next: int, evs: Seq<CoreEventV>, e: CoreEventV)
    ensures
        next_id_update_seq(next, evs.push(e)) == next_id_update(next_id_update_seq(next, evs), e),
    decreases evs.len(),
{
    let p = evs.push(e);
    if evs.len() == 0 {
        assert(p[0] == e);
        assert(p.skip(1) =~= Seq::<CoreEventV>::empty());
        assert(next_id_update_seq(next_id_update(next, e), p.skip(1)) == next_id_update(next, e));
        assert(next_id_update_seq(next, evs) == next);
    } else {
        assert(p[0] == evs[0]);
        assert(p.skip(1) =~= evs.skip(1).push(e));
        let mid = next_id_update(next, evs[0]);
        lemma_next_id_update_snoc(mid, evs.skip(1), e);
        assert(next_id_update_seq(next, p) == next_id_update_seq(mid, p.skip(1)));
        assert(next_id_update_seq(next, evs) == next_id_update_seq(mid, evs.skip(1)));
    }
}

/// Appending one event to a sequence extends the ever-allocated set after the
/// rest.
pub proof fn lemma_ever_ids_update_snoc(ever: Set<int>, evs: Seq<CoreEventV>, e: CoreEventV)
    ensures
        ever_ids_update_seq(ever, evs.push(e)) == ever_ids_update(
            ever_ids_update_seq(ever, evs),
            e,
        ),
    decreases evs.len(),
{
    let p = evs.push(e);
    if evs.len() == 0 {
        assert(p[0] == e);
        assert(p.skip(1) =~= Seq::<CoreEventV>::empty());
        assert(ever_ids_update_seq(ever_ids_update(ever, e), p.skip(1)) == ever_ids_update(
            ever,
            e,
        ));
        assert(ever_ids_update_seq(ever, evs) == ever);
    } else {
        assert(p[0] == evs[0]);
        assert(p.skip(1) =~= evs.skip(1).push(e));
        let mid = ever_ids_update(ever, evs[0]);
        lemma_ever_ids_update_snoc(mid, evs.skip(1), e);
        assert(ever_ids_update_seq(ever, p) == ever_ids_update_seq(mid, p.skip(1)));
        assert(ever_ids_update_seq(ever, evs) == ever_ids_update_seq(mid, evs.skip(1)));
    }
}

/// Folding a single event is one step.
pub proof fn lemma_fold_singleton(
    units: Seq<Unit>,
    types: ObjectTypes,
    cur: PlayerId,
    next: int,
    ever: Set<int>,
    e: CoreEventV,
)
    ensures
        apply_events_spec(units, types, seq![e]) == apply_event_spec(units, types, e),
        turn_update_seq(cur, seq![e]) == turn_update(cur, e),
        next_id_update_seq(next, seq![e]) == next_id_update(next, e),
        ever_ids_update_seq(ever, seq![e]) == ever_ids_update(ever, e),
{
    let s = seq![e];
    assert(s[0] == e);
    assert(s.skip(1) =~= Seq::<CoreEventV>::empty());
    assert(apply_events_spec(units, types, s) == apply_events_spec(
        apply_event_spec(units, types, e),
        types,
        s.skip(1),
    ));
    assert(apply_events_spec(apply_event_spec(units, types, e), types, s.skip(1))
        == apply_event_spec(units, types, e));
    assert(turn_update_seq(turn_update(cur, e), s.skip(1)) == turn_update(cur, e));
    assert(next_id_update_seq(next_id_update(next, e), s.skip(1)) == next_id_update(next, e));
    assert(ever_ids_update_seq(ever_ids_update(ever, e), s.skip(1)) == ever_ids_update(ever, e));
}

/// The scan for an interrupt point never lands before its starting waypoint
/// or past the path's end.
pub proof fn lemma_first_interrupt_range(
    units: Seq<Unit>,
    types: ObjectTypes,
    cur: PlayerId,
    path: Seq<MapPos>,
    i: int,
)
    requires
        1 <= i,
    ensures
        i <= first_interrupt_idx(units, types, cur, path, i)
            || first_interrupt_idx(units, types, cur, path, i) == path.len(),
        first_interrupt_idx(units, types, cur, path, i) <= path.len(),
    decreases path.len() - i,
{
    if 1 <= i < path.len() {
        lemma_first_interrupt_range(units, types, cur, path, i + 1);
    }
}

/// The id allocator never moves backwards.
pub proof fn lemma_next_id_update_seq_monotonic(next: int, evs: Seq<CoreEventV>)
    ensures
        next_id_update_seq(next, evs) >= next,
    decreases evs.len(),
{
    if evs.len() > 0 {
        lemma_next_id_update_seq_monotonic(next_id_update(next, evs[0]), evs.skip(1));
    }
}

/// The player that a finished turn hands over to.
pub open spec fn spec_next_player(core: Core) -> PlayerId {
    PlayerId {
        id: next_player_id(
            core.cur_player().id as int,
            core.spec_players().len() as int,
        ) as ZInt,
    }
}

/// When a command is well formed against the current state: its unit
/// references live, a move has at least its origin waypoint, and unit
/// creation can be served by the registry and the id allocator. Looking up a
/// dangling reference is a programmer error, which the core rejects at this
/// boundary rather than resolving to nonsense.
pub open spec fn command_ok(core: Core, cmd: CommandV) -> bool {
    match cmd {
        CommandV::EndTurn => true,
        CommandV::CreateUnit { .. } => {
            &&& crate::object::has_unit_type_named(core.types().spec_unit_types(), "soldier"@)
            &&& core.spec_next_unit_id() < 0x7fff_ffff
        },
        CommandV::Move { unit_id, path } => has_unit(core.units(), unit_id) && path.len() >= 1,
        CommandV::AttackUnit { attacker_id, defender_id } => {
            &&& has_unit(core.units(), attacker_id)
            &&& has_unit(core.units(), defender_id)
        },
    }
}

/// What resolving one command yields, read against the state the resolver
/// saw.
///
/// - `EndTurn`: one turn-handover event to the next player in the cycle.
/// - `CreateUnit`: one creation event with a freshly allocated id and the
///   default ("soldier") unit type, owned by the acting player.
/// - `Move`: the untruncated move when no waypoint draws reaction fire,
///   otherwise the truncated move followed by the reaction shots.
/// - `AttackUnit`: nothing when the defender is out of range (a rejected
///   command); otherwise one active attack, followed — only when the defender
///   survives — by reaction fire against the attacker's own position.
pub open spec fn command_events_rel(core: Core, cmd: CommandV, evs: Seq<CoreEventV>) -> bool {
    match cmd {
        CommandV::EndTurn => evs == seq![
            CoreEventV::EndTurn { old_id: core.cur_player(), new_id: spec_next_player(core) },
        ],
        CommandV::CreateUnit { pos } => {
            &&& evs.len() == 1
            &&& match evs[0] {
                CoreEventV::CreateUnit { unit_id, pos: p, type_id, player_id } => {
                    &&& unit_id.id == core.spec_next_unit_id()
                    &&& p == pos
                    &&& player_id == core.cur_player()
                    &&& crate::object::first_unit_type_named(
                        core.types().spec_unit_types(),
                        "soldier"@,
                        type_id.id as int,
                    )
                },
                _ => false,
            }
        },
        CommandV::Move { unit_id, path } => {
            let k = first_interrupt_idx(core.units(), core.types(), core.cur_player(), path, 1);
            if k == path.len() {
                evs == seq![CoreEventV::Move { unit_id: unit_id, path: path }]
            } else {
                reaction_fire_move_ok(
                    core.units(),
                    core.types(),
                    core.cur_player(),
                    unit_id,
                    path,
                    evs,
                )
            }
        },
        CommandV::AttackUnit { attacker_id, defender_id } => {
            let a = spec_unit(core.units(), attacker_id);
            let d = spec_unit(core.units(), defender_id);
            let at = core.types().spec_unit_type(a.type_id);
            let dt = core.types().spec_unit_type(d.type_id);
            let w = core.types().spec_weapon_type(at.weapon_type_id);
            if spec_distance(a.pos, d.pos) <= core.types().spec_max_attack_dist(a) {
                &&& evs.len() >= 1
                &&& is_attack_by(evs[0], attacker_id, defender_id, FireMode::Active)
                &&& (event_killed(evs[0]) ==> hit_target(at, dt, w) > -5 && pierce_target(dt, w)
                    > -5 && wound_target(dt, w) > -5)
                &&& ((hit_target(at, dt, w) >= 5 && pierce_target(dt, w) >= 5 && wound_target(
                    dt,
                    w,
                ) >= 5) ==> event_killed(evs[0]))
                &&& (event_killed(evs[0]) ==> evs.len() == 1)
                &&& (!event_killed(evs[0]) ==> reaction_events_ok(
                    core.units(),
                    core.types(),
                    core.cur_player(),
                    attacker_id,
                    a.pos,
                    evs.skip(1),
                ))
            } else {
                evs.len() == 0
            }
        },
    }
}

/// The active player after `k` turn handovers among `n` players.
pub open spec fn iterate_next_player(p: int, n: int, k: nat) -> int
    decreases k,
{
    if k == 0 {
        p
    } else {
        iterate_next_player(next_player_id(p, n), n, (k - 1) as nat)
    }
}

/// Ending the turn always alternates between exactly the two configured
/// players: after any even number of consecutive turn handovers, the player
/// active before them is active again.
pub proof fn lemma_end_turn_alternates(p: int, k: nat)
    requires
        0 <= p < 2,
        k % 2 == 0,
    ensures
        iterate_next_player(p, 2, k) == p,
    decreases k,
{
    if k >= 2 {
        let q = next_player_id(p, 2);
        assert(next_player_id(q, 2) == p);
        assert(iterate_next_player(p, 2, k) == iterate_next_player(q, 2, (k - 1) as nat));
        assert(iterate_next_player(q, 2, (k - 1) as nat) == iterate_next_player(
            p,
            2,
            (k - 2) as nat,
        ));
        lemma_end_turn_alternates(p, (k - 2) as nat);
    }
}

/// An attack event that reports its defender killed removes the defender:
/// after application, no unit with the defender's id remains in the registry,
/// so the defender is absent from any subsequent unit enumeration.
pub proof fn lemma_killed_defender_removed(
    units: Seq<Unit>,
    types: ObjectTypes,
    attacker_id: UnitId,
    defender_id: UnitId,
    mode: FireMode,
)
    requires
        unique_ids(units),
    ensures
        !has_unit(
            apply_event_spec(
                units,
                types,
                CoreEventV::AttackUnit {
                    attacker_id: attacker_id,
                    defender_id: defender_id,
                    mode: mode,
                    killed: true,
                },
            ),
            defender_id,
        ),
{
    let mid = crate::state::consume_attack_point(units, attacker_id);
    assert(mid.len() == units.len());
    assert forall|a: int| 0 <= a < mid.len() implies (#[trigger] mid[a]).id == units[a].id by {}
    assert forall|a: int, b: int| 0 <= a < b < mid.len() implies (#[trigger] mid[a]).id != (
    #[trigger] mid[b]).id by {
        assert(units[a].id != units[b].id);
    }
    if has_unit(mid, defender_id) {
        let k = unit_index(mid, defender_id);
        let rest = mid.remove(k);
        assert forall|a: int| 0 <= a < rest.len() implies (#[trigger] rest[a]).id
            != defender_id by {
            if a < k {
                assert(rest[a] == mid[a]);
            } else {
                assert(rest[a] == mid[a + 1]);
            }
        }
        assert(!has_unit(rest, defender_id));
        match crate::state::spec_unit(mid, defender_id).attached_unit_id {
            Some(aid) => {
                if has_unit(rest, aid) {
                    let k2 = unit_index(rest, aid);
                    let rest2 = rest.remove(k2);
                    assert forall|a: int| 0 <= a < rest2.len() implies (#[trigger] rest2[a]).id
                        != defender_id by {
                        if a < k2 {
                            assert(rest2[a] == rest[a]);
                        } else {
                            assert(rest2[a] == rest[a + 1]);
                        }
                    }
                    assert(!has_unit(rest2, defender_id));
                }
            },
            None => {},
        }
    }
}

/// A move command whose path never comes within reach of any hostile reactor
/// resolves to exactly one move event carrying the full, unchanged path.
pub proof fn lemma_move_unhindered(
    core: Core,
    unit_id: UnitId,
    path: Seq<MapPos>,
    evs: Seq<CoreEventV>,
)
    requires
        command_events_rel(core, CommandV::Move { unit_id: unit_id, path: path }, evs),
        forall|j: int|
            1 <= j < path.len() ==> !has_reactor(
                core.units(),
                core.types(),
                core.cur_player(),
                #[trigger] path[j],
            ),
    ensures
        evs == seq![CoreEventV::Move { unit_id: unit_id, path: path }],
{
    if path.len() >= 1 {
        lemma_first_interrupt(
            core.units(),
            core.types(),
            core.cur_player(),
            path,
            1,
            path.len() as int,
        );
    }
    assert(first_interrupt_idx(core.units(), core.types(), core.cur_player(), path, 1)
        == path.len());
}


/// Every `CreateUnit` event a command resolves to carries a representable,
/// non-negative unit id: the freshly allocated one.
proof fn lemma_resolved_create_ids_small(core: Core, cmdv: CommandV, evsv: Seq<CoreEventV>)
    requires
        core.wf(),
        command_ok(core, cmdv),
        command_events_rel(core, cmdv, evsv),
    ensures
        forall|j: int| 0 <= j < evsv.len() ==> create_event_id_small(#[trigger] evsv[j]),
{
    assert forall|j: int| 0 <= j < evsv.len() implies create_event_id_small(
        #[trigger] evsv[j],
    ) by {
        match cmdv {
            CommandV::CreateUnit { .. } => {
                assert(evsv.len() == 1);
                match evsv[0] {
                    CoreEventV::CreateUnit { unit_id, .. } => {
                        assert(unit_id.id == core.spec_next_unit_id());
                        assert(0 <= unit_id.id < 0x7fff_ffff);
                    },
                    _ => {},
                }
            },
            CommandV::Move { unit_id, path } => {
                let k = first_interrupt_idx(core.units(), core.types(), core.cur_player(), path, 1);
                if k == path.len() {
                    assert(evsv[j] == (CoreEventV::Move { unit_id: unit_id, path: path }));
                }
                if k < path.len() && j == 0 {
                    assert(evsv[j] == (CoreEventV::Move {
                        unit_id: unit_id,
                        path: path.take(k + 1),
                    }));
                }
                if k < path.len() && j >= 1 {
                    lemma_first_interrupt_range(
                        core.units(),
                        core.types(),
                        core.cur_player(),
                        path,
                        1,
                    );
                    assert(0 <= k < path.len());
                    assert(evsv.skip(1)[j - 1] == evsv[j]);
                    assert(is_attack_by(
                        evsv.skip(1)[j - 1],
                        reactors(core.units(), core.types(), core.cur_player(), path[k])[j - 1].id,
                        unit_id,
                        FireMode::Reactive,
                    ));
                }
            },
            CommandV::AttackUnit { attacker_id, defender_id } => {
                let a = spec_unit(core.units(), attacker_id);
                if j >= 1 {
                    assert(!event_killed(evsv[0]));
                    assert(evsv.skip(1)[j - 1] == evsv[j]);
                    assert(is_attack_by(
                        evsv.skip(1)[j - 1],
                        reactors(core.units(), core.types(), core.cur_player(), a.pos)[j - 1].id,
                        attacker_id,
                        FireMode::Reactive,
                    ));
                }
            },
            CommandV::EndTurn => {
                assert(evsv[j] == (CoreEventV::EndTurn {
                    old_id: core.cur_player(),
                    new_id: spec_next_player(core),
                }));
            },
        }
    }
}

/// The fixed starting deployment: twelve units, ids in creation order, six
/// per player along opposite map edges, tanks on the flanks and soldiers in
/// the middle.
pub open spec fn default_scenario_units(units: Seq<Unit>) -> bool {
    &&& units.len() == 12
    &&& forall|i: int| 0 <= i < 12 ==> (#[trigger] units[i]).id.id == i
    &&& forall|i: int| 0 <= i < 12 ==> (#[trigger] units[i]).player_id.id == (if i < 6 { 0int } else { 1int })
    &&& forall|i: int| 0 <= i < 12 ==> (#[trigger] units[i]).pos == default_unit_pos(i)
    &&& forall|i: int| 0 <= i < 12 ==> (#[trigger] units[i]).type_id.id == default_unit_type_index(i)
}

/// Where the starting unit with creation index `i` stands.
pub open spec fn default_unit_pos(i: int) -> MapPos {
    MapPos {
        x: if i < 6 { 0 as ZInt } else { 9 as ZInt },
        y: (if i < 6 { i + 1 } else { i - 5 }) as ZInt,
    }
}

/// Which built-in type the starting unit with creation index `i` has: tanks
/// on the flanks (type index 0), soldiers in the middle (type index 1).
pub open spec fn default_unit_type_index(i: int) -> int {
    if i == 0 || i == 4 || i == 5 || i == 6 || i == 10 || i == 11 {
        0
    } else {
        1
    }
}

/// The creation event that places the starting unit with creation index `i`.
pub open spec fn default_creation_event(i: int) -> CoreEventV {
    CoreEventV::CreateUnit {
        unit_id: UnitId { id: i as ZInt },
        pos: default_unit_pos(i),
        type_id: UnitTypeId { id: default_unit_type_index(i) as ZInt },
        player_id: PlayerId { id: if i < 6 { 0 as ZInt } else { 1 as ZInt } },
    }
}

/// The twelve creation events of the fixed starting scenario, in creation
/// order; both players' queues hold exactly these after construction.
pub open spec fn default_creation_events() -> Seq<CoreEventV> {
    Seq::new(12, |i: int| default_creation_event(i))
}

/// The authoritative simulation core: canonical world state, the static
/// registry, whose turn it is, and one outgoing event queue per player.
pub struct Core {
    state: InternalState,
    players: Vec<Player>,
    current_player_id: PlayerId,
    event_lists: Vec<Vec<CoreEvent>>,
    pub object_types: ObjectTypes,
    next_unit_id: ZInt,
    ever_ids: Ghost<Set<int>>,
}

/// The fixed player list: two human-driven players.
fn get_players_list() -> (r: Vec<Player>)
    ensures
        r@.len() == player_count(),
        forall|i: int| 0 <= i < r@.len() ==> (#[trigger] r@[i]).id.id == i,
        forall|i: int| 0 <= i < r@.len() ==> !(#[trigger] r@[i]).is_ai,
{
    let mut players: Vec<Player> = Vec::new();
    players.push(Player { id: PlayerId { id: 0 }, is_ai: false });
    players.push(Player { id: PlayerId { id: 1 }, is_ai: false });
    players
}

/// The event distributor: appends a copy of the event to every player's
/// queue, in the exact order events are applied to canonical state.
fn publish(event_lists: &mut Vec<Vec<CoreEvent>>, event: &CoreEvent)
    ensures
        final(event_lists)@.len() == old(event_lists)@.len(),
        forall|k: int|
            0 <= k < old(event_lists)@.len() ==> #[trigger] final(event_lists).deep_view()[k]
                == old(event_lists).deep_view()[k].push(event.deep_view()),
{
    let n = event_lists.len();
    let mut p: usize = 0;
    while p < n
        invariant
            n == event_lists@.len(),
            n == old(event_lists)@.len(),
            0 <= p <= n,
            forall|k: int|
                0 <= k < p ==> (#[trigger] event_lists@[k]).deep_view() == old(
                    event_lists,
                )@[k].deep_view().push(event.deep_view()),
            forall|k: int|
                p <= k < n ==> (#[trigger] event_lists@[k]) == old(event_lists)@[k],
        decreases n - p,
    {
        let ev = event.clone();
        event_lists[p].push(ev);
        proof {
            assert(event_lists@[p as int].deep_view() =~= old(event_lists)@[p as
                int].deep_view().push(event.deep_view()));
        }
        p += 1;
    }
}

/// One empty outgoing event queue per player.
fn get_event_lists() -> (r: Vec<Vec<CoreEvent>>)
    ensures
        r.deep_view().len() == player_count(),
        forall|i: int| 0 <= i < r.deep_view().len() ==> (#[trigger] r.deep_view()[i]).len() == 0,
{
    let mut lists: Vec<Vec<CoreEvent>> = Vec::new();
    lists.push(Vec::new());
    lists.push(Vec::new());
    lists
}

impl Core {
    /// The living units, in creation order.
    pub closed spec fn units(&self) -> Seq<Unit> {
        self.state.units@
    }

    /// The static registry the core resolves ids against.
    pub closed spec fn types(&self) -> ObjectTypes {
        self.object_types
    }

    /// Whose turn it is.
    pub closed spec fn cur_player(&self) -> PlayerId {
        self.current_player_id
    }

    /// The per-player outgoing event queues.
    pub closed spec fn queues(&self) -> Seq<Seq<CoreEventV>> {
        self.event_lists.deep_view()
    }

    /// The next unit id to be allocated.
    pub closed spec fn spec_next_unit_id(&self) -> int {
        self.next_unit_id as int
    }

    /// Every unit id ever allocated in this session.
    pub closed spec fn ever_ids(&self) -> Set<int> {
        self.ever_ids@
    }

    /// The fixed player list.
    pub closed spec fn spec_players(&self) -> Seq<Player> {
        self.players@
    }

    /// The map size.
    pub closed spec fn spec_map_size(&self) -> Size2 {
        self.state.map_size
    }

    /// The core's invariant: two players in index order, a queue per player,
    /// a well-formed registry and unit list, unique unit ids, and an id
    /// allocator strictly ahead of every id ever handed out.
    pub open spec fn wf(&self) -> bool {
        &&& self.spec_players().len() == player_count()
        &&& forall|i: int|
            0 <= i < self.spec_players().len() ==> (#[trigger] self.spec_players()[i]).id.id == i
        &&& 0 <= self.cur_player().id < player_count()
        &&& self.queues().len() == player_count()
        &&& self.types().wf()
        &&& units_wf(self.units(), self.types())
        &&& unique_ids(self.units())
        &&& 0 <= self.spec_next_unit_id() <= 0x7fff_ffff
        &&& forall|i: int|
            0 <= i < self.units().len() ==> (#[trigger] self.units()[i]).id.id
                < self.spec_next_unit_id()
        &&& forall|i: int|
            0 <= i < self.units().len() ==> self.ever_ids().contains(
                (#[trigger] self.units()[i]).id.id as int,
            )
        &&& forall|id: int| self.ever_ids().contains(id) ==> id < self.spec_next_unit_id()
    }

    /// Everything but the world state, the turn and the queues is frozen: the
    /// registry and the player list never change after construction.
    pub open spec fn same_frame(&self, other: &Core) -> bool {
        &&& other.types() == self.types()
        &&& other.spec_players() == self.spec_players()
        &&& other.spec_map_size() == self.spec_map_size()
        &&& other.queues().len() == self.queues().len()
    }

    /// The static registry.
    pub fn object_types(&self) -> (r: &ObjectTypes)
        ensures
            *r == self.types(),
    {
        &self.object_types
    }

    /// The map size.
    pub fn map_size(&self) -> (r: &Size2)
        ensures
            *r == self.spec_map_size(),
    {
        &self.state.map_size
    }

    /// The player whose turn it is.
    pub fn player(&self) -> (r: &Player)
        requires
            self.wf(),
        ensures
            *r == self.spec_players()[self.cur_player().id as int],
            r.id == self.cur_player(),
    {
        &self.players[self.current_player_id.id as usize]
    }

    /// The id of the player whose turn it is.
    pub fn player_id(&self) -> (r: &PlayerId)
        ensures
            *r == self.cur_player(),
    {
        &self.current_player_id
    }

    /// The living units, in creation order.
    pub fn units_list(&self) -> (r: &Vec<Unit>)
        ensures
            r@ == self.units(),
    {
        &self.state.units
    }

    /// The living unit with this id.
    pub fn get_unit(&self, id: &UnitId) -> (r: &Unit)
        requires
            self.wf(),
            has_unit(self.units(), *id),
        ensures
            *r == spec_unit(self.units(), *id),
            r.id == *id,
    {
        let r = crate::state::find_unit_index(&self.state.units, *id);
        match r {
            Some(i) => &self.state.units[i],
            None => {
                proof {
                    assert(false);
                }
                &self.state.units[0]
            },
        }
    }

    /// The weapon type stored under this id.
    pub fn get_weapon_type(&self, weapon_type_id: &crate::unit::WeaponTypeId) -> (r:
        &crate::unit::WeaponType)
        requires
            self.types().valid_weapon_type_id(*weapon_type_id),
        ensures
            *r == self.types().spec_weapon_type(*weapon_type_id),
    {
        &self.object_types.weapon_types[weapon_type_id.id as usize]
    }

    /// The id the next created unit will get: one past every id ever
    /// allocated, starting at zero in an empty world.
    fn get_new_unit_id(&self) -> (r: UnitId)
        ensures
            r.id == self.spec_next_unit_id(),
    {
        UnitId { id: self.next_unit_id }
    }

    /// Pops the oldest queued event for the current player, if any.
    pub fn get_event(&mut self) -> (r: Option<CoreEvent>)
        requires
            old(self).wf(),
        ensures
            final(self).wf(),
            old(self).same_frame(final(self)),
            final(self).units() == old(self).units(),
            final(self).cur_player() == old(self).cur_player(),
            final(self).spec_next_unit_id() == old(self).spec_next_unit_id(),
            final(self).ever_ids() == old(self).ever_ids(),
            ({
                let p = old(self).cur_player().id as int;
                let q = old(self).queues()[p];
                match r {
                    None => q.len() == 0 && final(self).queues() == old(self).queues(),
                    Some(e) => {
                        &&& q.len() > 0
                        &&& e.deep_view() == q[0]
                        &&& final(self).queues() =~= old(self).queues().update(p, q.skip(1))
                    },
                }
            }),
    {
        let idx = self.current_player_id.id as usize;
        if self.event_lists[idx].len() == 0 {
            None
        } else {
            let e = self.event_lists[idx].remove(0);
            proof {
                assert(self.ever_ids@ == old(self).ever_ids@);
                assert forall|id: int| self.ever_ids().contains(id) implies id
                    < self.spec_next_unit_id() by {
                    assert(old(self).ever_ids().contains(id));
                }
                assert(self.wf());
                let p = old(self).cur_player().id as int;
                let q = old(self).queues()[p];
                assert(self.event_lists@[p]@ =~= old(self).event_lists@[p]@.remove(0));
                assert(self.event_lists@[p].deep_view() =~= q.skip(1));
                assert(self.queues() =~= old(self).queues().update(p, q.skip(1)));
            }
            Some(e)
        }
    }

    /// Applies one event to the canonical state, updates the turn if it is an
    /// `EndTurn`, and fans the event out to every player's queue.
    fn do_core_event(&mut self, core_event: CoreEvent)
        requires
            old(self).wf(),
            core_event.deep_view() matches CoreEventV::CreateUnit { unit_id, .. } ==> 0 <= unit_id.id
                < 0x7fff_ffff,
        ensures
            final(self).wf(),
            old(self).same_frame(final(self)),
            final(self).units() == apply_event_spec(
                old(self).units(),
                old(self).types(),
                core_event.deep_view(),
            ),
            final(self).cur_player() == turn_update(old(self).cur_player(), core_event.deep_view()),
            final(self).spec_next_unit_id() == next_id_update(
                old(self).spec_next_unit_id(),
                core_event.deep_view(),
            ),
            final(self).ever_ids() == match core_event.deep_view() {
                CoreEventV::CreateUnit { unit_id, .. } => old(self).ever_ids().insert(
                    unit_id.id as int,
                ),
                _ => old(self).ever_ids(),
            },
            forall|p: int|
                0 <= p < old(self).queues().len() ==> final(self).queues()[p] == old(
                    self,
                ).queues()[p].push(core_event.deep_view()),
    {
        if let CoreEvent::EndTurn { old_id, new_id } = &core_event {
            self.handle_end_turn_event(old_id, new_id);
        }
        if let CoreEvent::CreateUnit { unit_id, .. } = &core_event {
            if unit_id.id >= self.next_unit_id {
                self.next_unit_id = unit_id.id + 1;
            }
            let ghost new_ever = self.ever_ids@.insert(unit_id.id as int);
            self.ever_ids = Ghost(new_ever);
        }
        self.state.apply_event(&self.object_types, &core_event);
        proof {
            crate::state::lemma_apply_event_preserves_wf(
                old(self).units(),
                old(self).types(),
                core_event.deep_view(),
            );
        }
        publish(&mut self.event_lists, &core_event);
        proof {
            let ev = core_event.deep_view();
            let u0 = old(self).units();
            let n0 = old(self).spec_next_unit_id();
            assert forall|i: int| 0 <= i < self.units().len() implies (#[trigger] self.units()[i]).id.id
                < self.spec_next_unit_id() && self.ever_ids().contains(
                self.units()[i].id.id as int,
            ) by {
                let uid = self.units()[i].id;
                if crate::state::has_unit(u0, uid) {
                    let j = choose|j: int| 0 <= j < u0.len() && u0[j].id == uid;
                    assert(u0[j].id.id < n0);
                    assert(old(self).ever_ids().contains(u0[j].id.id as int));
                }
            }
            assert forall|id: int| self.ever_ids().contains(id) implies id
                < self.spec_next_unit_id() by {
                if old(self).ever_ids().contains(id) {
                    assert(id < n0);
                }
            }
            assert(self.wf());
        }
    }

    /// Builds a core with the built-in registry and the fixed starting
    /// scenario: six units per player on opposite map edges.
    pub fn new() -> (r: Core)
        ensures
            r.wf(),
            r.cur_player().id == 0,
            builtin_weapon_types(r.types().weapon_types@),
            builtin_unit_types(r.types().spec_unit_types()),
            forall|i: int|
                0 <= i < r.spec_players().len() ==> !(#[trigger] r.spec_players()[i]).is_ai,
            default_scenario_units(r.units()),
            r.spec_next_unit_id() == 12,
            r.queues().len() == player_count(),
            forall|p: int|
                0 <= p < r.queues().len() ==> #[trigger] r.queues()[p]
                    == default_creation_events(),
    {
        let map_size = Size2 { w: 10, h: 8 };
        let mut core = Core {
            state: InternalState::new(&map_size),
            players: get_players_list(),
            current_player_id: PlayerId { id: 0 },
            event_lists: get_event_lists(),
            object_types: ObjectTypes::new(),
            next_unit_id: 0,
            ever_ids: Ghost(Set::empty()),
        };
        core.get_units();
        proof {
            assert forall|p: int| 0 <= p < core.queues().len() implies #[trigger] core.queues()[p]
                == default_creation_events() by {
                assert(core.queues()[p] =~= default_creation_events());
            }
        }
        core
    }

    /// Builds a core around a given registry, with no units on the map: the
    /// starting point for externally configured scenarios.
    pub fn with_object_types(object_types: ObjectTypes) -> (r: Core)
        requires
            object_types.wf(),
        ensures
            r.wf(),
            r.cur_player().id == 0,
            r.types() == object_types,
            r.units().len() == 0,
            r.spec_next_unit_id() == 0,
            r.ever_ids() == Set::<int>::empty(),
            forall|p: int| 0 <= p < r.queues().len() ==> (#[trigger] r.queues()[p]).len() == 0,
            forall|i: int|
                0 <= i < r.spec_players().len() ==> !(#[trigger] r.spec_players()[i]).is_ai,
    {
        let map_size = Size2 { w: 10, h: 8 };
        Core {
            state: InternalState::new(&map_size),
            players: get_players_list(),
            current_player_id: PlayerId { id: 0 },
            event_lists: get_event_lists(),
            object_types: object_types,
            next_unit_id: 0,
            ever_ids: Ghost(Set::empty()),
        }
    }

    /// Places the fixed starting units of both players.
    fn get_units(&mut self)
        requires
            old(self).wf(),
            builtin_unit_types(old(self).types().spec_unit_types()),
            old(self).units().len() == 0,
            old(self).spec_next_unit_id() == 0,
        ensures
            final(self).wf(),
            old(self).same_frame(final(self)),
            final(self).cur_player() == old(self).cur_player(),
            default_scenario_units(final(self).units()),
            final(self).spec_next_unit_id() == 12,
            forall|p: int|
                0 <= p < old(self).queues().len() ==> #[trigger] final(self).queues()[p] == old(
                    self,
                ).queues()[p] + default_creation_events(),
    {
        let tank_id = self.object_types.get_unit_type_id("tank");
        let soldier_id = self.object_types.get_unit_type_id("soldier");
        proof {
            reveal_strlit("tank");
            reveal_strlit("soldier");
            assert("tank"@.len() == 4 && "soldier"@.len() == 7);
            assert(tank_id.id == 0);
            assert(soldier_id.id == 1);
        }
        let p_id_0 = PlayerId { id: 0 };
        let p_id_1 = PlayerId { id: 1 };
        self.add_unit(&MapPos { x: 0, y: 1 }, &tank_id, &p_id_0);
        self.add_unit(&MapPos { x: 0, y: 2 }, &soldier_id, &p_id_0);
        self.add_unit(&MapPos { x: 0, y: 3 }, &soldier_id, &p_id_0);
        self.add_unit(&MapPos { x: 0, y: 4 }, &soldier_id, &p_id_0);
        self.add_unit(&MapPos { x: 0, y: 5 }, &tank_id, &p_id_0);
        self.add_unit(&MapPos { x: 0, y: 6 }, &tank_id, &p_id_0);
        self.add_unit(&MapPos { x: 9, y: 1 }, &tank_id, &p_id_1);
        self.add_unit(&MapPos { x: 9, y: 2 }, &soldier_id, &p_id_1);
        self.add_unit(&MapPos { x: 9, y: 3 }, &soldier_id, &p_id_1);
        self.add_unit(&MapPos { x: 9, y: 4 }, &soldier_id, &p_id_1);
        self.add_unit(&MapPos { x: 9, y: 5 }, &tank_id, &p_id_1);
        self.add_unit(&MapPos { x: 9, y: 6 }, &tank_id, &p_id_1);
        proof {
            assert forall|p: int| 0 <= p < old(self).queues().len() implies #[trigger] self
                .queues()[p] == old(self).queues()[p] + default_creation_events() by {
                assert(self.queues()[p] =~= old(self).queues()[p] + default_creation_events());
            }
        }
    }

    /// Creates one unit directly, as a `CreateUnit` event with a freshly
    /// allocated id; the event is applied and distributed like any other.
    /// The allocated id was never used before in this session.
    pub fn add_unit(&mut self, pos: &MapPos, type_id: &UnitTypeId, player_id: &PlayerId)
        requires
            old(self).wf(),
            old(self).types().valid_unit_type_id(*type_id),
            0 <= player_id.id < player_count(),
            old(self).spec_next_unit_id() < 0x7fff_ffff,
        ensures
            final(self).wf(),
            old(self).same_frame(final(self)),
            final(self).cur_player() == old(self).cur_player(),
            ({
                let nid = UnitId { id: old(self).spec_next_unit_id() as ZInt };
                let nu = new_unit(old(self).types(), nid, *pos, *type_id, *player_id);
                &&& !has_unit(old(self).units(), nid)
                &&& !old(self).ever_ids().contains(nid.id as int)
                &&& final(self).units() == old(self).units().push(nu)
                &&& final(self).ever_ids() == old(self).ever_ids().insert(nid.id as int)
                &&& final(self).spec_next_unit_id() == old(self).spec_next_unit_id() + 1
                &&& forall|p: int|
                    0 <= p < old(self).queues().len() ==> final(self).queues()[p] == old(
                        self,
                    ).queues()[p].push(
                        CoreEventV::CreateUnit {
                            unit_id: nid,
                            pos: *pos,
                            type_id: *type_id,
                            player_id: *player_id,
                        },
                    )
            }),
    {
        let unit_id = self.get_new_unit_id();
        proof {
            if has_unit(old(self).units(), unit_id) {
                let j = choose|j: int|
                    0 <= j < old(self).units().len() && old(self).units()[j].id == unit_id;
                assert(old(self).units()[j].id.id < old(self).spec_next_unit_id());
            }
        }
        let event = CoreEvent::CreateUnit {
            unit_id: unit_id,
            pos: *pos,
            type_id: *type_id,
            player_id: *player_id,
        };
        self.do_core_event(event);
    }

    /// The combat resolver's dice pipeline: rejects an out-of-range target,
    /// otherwise draws the three dice and applies the pure threshold tests.
    /// Whether the target dies depends on the dice alone; an out-of-range
    /// target is never hit.
    pub fn hit_test(&self, attacker_id: &UnitId, defender_id: &UnitId) -> (killed: bool)
        requires
            self.wf(),
            has_unit(self.units(), *attacker_id),
            has_unit(self.units(), *defender_id),
        ensures
            killed ==> spec_distance(
                spec_unit(self.units(), *attacker_id).pos,
                spec_unit(self.units(), *defender_id).pos,
            ) <= self.types().spec_max_attack_dist(spec_unit(self.units(), *attacker_id)),
            ({
                let at = spec_unit_type_of(*self, *attacker_id);
                let dt = spec_unit_type_of(*self, *defender_id);
                let w = spec_weapon_of(*self, *attacker_id);
                let in_range = spec_distance(
                    spec_unit(self.units(), *attacker_id).pos,
                    spec_unit(self.units(), *defender_id).pos,
                ) <= self.types().spec_max_attack_dist(spec_unit(self.units(), *attacker_id));
                &&& (killed ==> hit_target(at, dt, w) > -5 && pierce_target(dt, w) > -5
                    && wound_target(dt, w) > -5)
                &&& ((in_range && hit_target(at, dt, w) >= 5 && pierce_target(dt, w) >= 5
                    && wound_target(dt, w) >= 5) ==> killed)
            }),
    {
        let attacker = *self.get_unit(attacker_id);
        let defender = *self.get_unit(defender_id);
        proof {
            let i = unit_index(self.units(), *attacker_id);
            assert(crate::state::units_wf_at(self.units(), self.types(), i));
            let j = unit_index(self.units(), *defender_id);
            assert(crate::state::units_wf_at(self.units(), self.types(), j));
        }
        let attacker_type = self.object_types.get_unit_type(&attacker.type_id);
        let defender_type = self.object_types.get_unit_type(&defender.type_id);
        let weapon_type = self.get_weapon_type(&attacker_type.weapon_type_id);
        if distance(&attacker.pos, &defender.pos) > weapon_type.max_distance as i64 {
            return false;
        }
        let hit_v: i64 = -15 + defender_type.size as i64 + weapon_type.accuracy as i64
            + attacker_type.weapon_skill as i64;
        let pierce_v: i64 = 5 - defender_type.armor as i64 + weapon_type.ap as i64;
        let wound_v: i64 = -(defender_type.toughness as i64) + weapon_type.damage as i64;
        let hit_roll = roll_die();
        let pierce_roll = roll_die();
        let wound_roll = roll_die();
        resolve_combat(hit_v, pierce_v, wound_v, hit_roll, pierce_roll, wound_roll)
    }

    /// Resolves one attack order into events: nothing if the target position
    /// is beyond the attacker's weapon range, otherwise exactly one attack
    /// event whose outcome the dice decide.
    fn command_attack_unit_to_event(
        &self,
        attacker_id: UnitId,
        defender_id: UnitId,
        pos: &MapPos,
        fire_mode: FireMode,
    ) -> (events: Vec<CoreEvent>)
        requires
            self.wf(),
            has_unit(self.units(), attacker_id),
            has_unit(self.units(), defender_id),
        ensures
            attack_events_ok(
                self.units(),
                self.types(),
                attacker_id,
                defender_id,
                *pos,
                fire_mode,
                events.deep_view(),
            ),
    {
        let attacker = *self.get_unit(&attacker_id);
        proof {
            assert(crate::state::units_wf_at(
                self.units(),
                self.types(),
                unit_index(self.units(), attacker_id),
            ));
        }
        let attacker_type = self.object_types.get_unit_type(&attacker.type_id);
        let weapon_type = self.get_weapon_type(&attacker_type.weapon_type_id);
        let mut events: Vec<CoreEvent> = Vec::new();
        if distance(&attacker.pos, pos) <= weapon_type.max_distance as i64 {
            let hit = self.hit_test(&attacker_id, &defender_id);
            events.push(
                CoreEvent::AttackUnit {
                    attacker_id: attacker_id,
                    defender_id: defender_id,
                    killed: hit,
                    mode: fire_mode,
                },
            );
        }
        events
    }

    /// The single-position reaction-fire check: every hostile unit with
    /// attack points left whose weapon reaches `pos` fires once on the unit,
    /// in registry order, until one shot is lethal.
    pub fn reaction_fire(&self, unit_id: &UnitId, pos: &MapPos) -> (events: Vec<CoreEvent>)
        requires
            self.wf(),
            has_unit(self.units(), *unit_id),
        ensures
            reaction_events_ok(
                self.units(),
                self.types(),
                self.cur_player(),
                *unit_id,
                *pos,
                events.deep_view(),
            ),
            forall|j: int|
                0 <= j < events.deep_view().len() ==> reactor_attacker_ok(
                    self.units(),
                    self.types(),
                    self.cur_player(),
                    *pos,
                    #[trigger] events.deep_view()[j],
                ),
    {
        let ghost us = self.units();
        let ghost ts = self.types();
        let ghost cp = self.cur_player();
        let mut events: Vec<CoreEvent> = Vec::new();
        let n = self.state.units.len();
        proof {
            assert(us.take(n as int) =~= us);
        }
        let mut i: usize = 0;
        while i < n
            invariant_except_break
                self.wf(),
                has_unit(us, *unit_id),
                us == self.units(),
                ts == self.types(),
                cp == self.cur_player(),
                0 <= i <= n,
                n == us.len(),
                us.take(n as int) == us,
                events.deep_view().len() == reactors(us.take(i as int), ts, cp, *pos).len(),
                forall|j: int|
                    0 <= j < events.deep_view().len() ==> is_attack_by(
                        #[trigger] events.deep_view()[j],
                        reactors(us.take(i as int), ts, cp, *pos)[j].id,
                        *unit_id,
                        FireMode::Reactive,
                    ),
                forall|j: int|
                    0 <= j < events.deep_view().len() ==> !event_killed(
                        #[trigger] events.deep_view()[j],
                    ),
            ensures
                reaction_events_ok(us, ts, cp, *unit_id, *pos, events.deep_view()),
            decreases n - i,
        {
            proof {
                lemma_reactors_take_push(us, ts, cp, *pos, i as int);
                lemma_reactors_prefix(us, ts, cp, *pos, i as int + 1);
            }
            let enemy_unit = self.state.units[i];
            if enemy_unit.player_id.id == self.current_player_id.id {
                proof {
                    assert(!is_reactor(enemy_unit, ts, cp, *pos));
                    assert(reactors(us.take(i as int + 1), ts, cp, *pos) =~= reactors(
                        us.take(i as int),
                        ts,
                        cp,
                        *pos,
                    ));
                }
                i += 1;
                continue ;
            }
            if enemy_unit.attack_points <= 0 {
                proof {
                    assert(!is_reactor(enemy_unit, ts, cp, *pos));
                    assert(reactors(us.take(i as int + 1), ts, cp, *pos) =~= reactors(
                        us.take(i as int),
                        ts,
                        cp,
                        *pos,
                    ));
                }
                i += 1;
                continue ;
            }
            proof {
                assert(crate::state::units_wf_at(us, ts, i as int));
            }
            let max_distance = self.object_types.get_unit_max_attack_dist(&enemy_unit);
            if distance(&enemy_unit.pos, pos) > max_distance as i64 {
                proof {
                    assert(!is_reactor(enemy_unit, ts, cp, *pos));
                    assert(reactors(us.take(i as int + 1), ts, cp, *pos) =~= reactors(
                        us.take(i as int),
                        ts,
                        cp,
                        *pos,
                    ));
                }
                i += 1;
                continue ;
            }
            proof {
                assert(is_reactor(enemy_unit, ts, cp, *pos));
                assert(reactors(us.take(i as int + 1), ts, cp, *pos) =~= reactors(
                    us.take(i as int),
                    ts,
                    cp,
                    *pos,
                ).push(enemy_unit));
                assert(has_unit(us, enemy_unit.id));
                let k = unit_index(us, enemy_unit.id);
                assert(0 <= k < us.len() && us[k].id == enemy_unit.id);
                assert(k == i as int);
                assert(spec_unit(us, enemy_unit.id) == enemy_unit);
            }
            let mut e = self.command_attack_unit_to_event(
                enemy_unit.id,
                *unit_id,
                pos,
                FireMode::Reactive,
            );
            let killed = is_target_dead(&e[0]);
            let ghost evs_before = events.deep_view();
            let ghost shot = e.deep_view()[0];
            events.append(&mut e);
            proof {
                assert(events.deep_view() =~= evs_before.push(shot));
            }
            if killed {
                proof {
                    lemma_reactors_prefix(us, ts, cp, *pos, i as int + 1);
                    assert(reaction_events_ok(us, ts, cp, *unit_id, *pos, events.deep_view()));
                }
                break ;
            }
            i += 1;
        }
        proof {
            lemma_reaction_fire_only_idle_hostiles(us, ts, cp, *unit_id, *pos, events.deep_view());
        }
        events
    }

    /// Walks the path's waypoints past the origin and, at the first waypoint
    /// that draws reaction fire, emits the move truncated to that waypoint
    /// followed by the reaction shots. Returns nothing for an uninterrupted
    /// path.
    pub fn reaction_fire_move(&self, path: &MapPath, unit_id: &UnitId) -> (events: Vec<CoreEvent>)
        requires
            self.wf(),
            has_unit(self.units(), *unit_id),
        ensures
            reaction_fire_move_ok(
                self.units(),
                self.types(),
                self.cur_player(),
                *unit_id,
                path@,
                events.deep_view(),
            ),
    {
        let ghost us = self.units();
        let ghost ts = self.types();
        let ghost cp = self.cur_player();
        let mut events: Vec<CoreEvent> = Vec::new();
        let len = path.nodes().len();
        let mut i: usize = 1;
        while i < len
            invariant_except_break
                self.wf(),
                has_unit(us, *unit_id),
                us == self.units(),
                ts == self.types(),
                cp == self.cur_player(),
                1 <= i,
                len == path@.len(),
                events.deep_view().len() == 0,
                forall|j: int| 1 <= j < i ==> !has_reactor(us, ts, cp, #[trigger] path@[j]),
            ensures
                events.deep_view().len() == 0 ==> forall|j: int|
                    1 <= j < len ==> !has_reactor(us, ts, cp, #[trigger] path@[j]),
                events.deep_view().len() > 0 ==> reaction_fire_move_ok(
                    us,
                    ts,
                    cp,
                    *unit_id,
                    path@,
                    events.deep_view(),
                ),
            decreases len - i,
        {
            let pos = path.nodes()[i];
            let e = self.reaction_fire(unit_id, &pos);
            if e.len() > 0 {
                proof {
                    assert(reactors(us, ts, cp, pos).len() > 0);
                    assert(has_reactor(us, ts, cp, pos));
                    lemma_first_interrupt(us, ts, cp, path@, 1, i as int);
                }
                let mut new_nodes = path.nodes().clone();
                proof {
                    assert(new_nodes@ =~= path@);
                }
                new_nodes.truncate(i + 1);
                let ghost shots = e.deep_view();
                let mut e = e;
                events.push(
                    CoreEvent::Move { unit_id: *unit_id, path: MapPath::new(new_nodes) },
                );
                events.append(&mut e);
                proof {
                    assert(events.deep_view() =~~= seq![
                        CoreEventV::Move { unit_id: *unit_id, path: path@.take(i as int + 1) },
                    ] + shots);
                    assert(events.deep_view()[0] == CoreEventV::Move {
                        unit_id: *unit_id,
                        path: path@.take(i as int + 1),
                    });
                    assert(events.deep_view().skip(1) =~= shots);
                    assert(shots.len() >= 1);
                    assert(reaction_fire_move_ok(us, ts, cp, *unit_id, path@, events.deep_view()));
                }
                break ;
            }
            proof {
                assert(reaction_events_ok(us, ts, cp, *unit_id, pos, e.deep_view()));
                assert(e.deep_view().len() == 0);
                if has_reactor(us, ts, cp, pos) {
                    assert(reactors(us, ts, cp, pos).len() > 0);
                    assert(false);
                }
            }
            i += 1;
        }
        proof {
            if events.deep_view().len() == 0 {
                if len >= 1 {
                    lemma_first_interrupt(us, ts, cp, path@, 1, len as int);
                }
                assert(first_interrupt_idx(us, ts, cp, path@, 1) == path@.len());
            }
        }
        events
    }

    /// Resolves one player command into the ordered event sequence it stands
    /// for, reading canonical state without changing it. An empty result
    /// means the command was rejected.
    pub fn command_to_event(&self, command: Command) -> (events: Vec<CoreEvent>)
        requires
            self.wf(),
            command_ok(*self, command.deep_view()),
        ensures
            command_events_rel(*self, command.deep_view(), events.deep_view()),
    {
        let mut events: Vec<CoreEvent> = Vec::new();
        match command {
            Command::EndTurn => {
                let old_id = self.current_player_id.id;
                let max_id = self.players.len() as ZInt;
                let new_id: ZInt = if old_id + 1 == max_id {
                    0
                } else {
                    old_id + 1
                };
                events.push(
                    CoreEvent::EndTurn {
                        old_id: PlayerId { id: old_id },
                        new_id: PlayerId { id: new_id },
                    },
                );
                proof {
                    assert(events.deep_view() =~= seq![
                        CoreEventV::EndTurn {
                            old_id: self.cur_player(),
                            new_id: spec_next_player(*self),
                        },
                    ]);
                }
            },
            Command::CreateUnit { pos } => {
                let type_id = self.object_types.get_unit_type_id("soldier");
                events.push(
                    CoreEvent::CreateUnit {
                        unit_id: self.get_new_unit_id(),
                        pos: pos,
                        type_id: type_id,
                        player_id: self.current_player_id,
                    },
                );
            },
            Command::Move { unit_id, path } => {
                let mut e = self.reaction_fire_move(&path, &unit_id);
                if e.len() == 0 {
                    events.push(CoreEvent::Move { unit_id: unit_id, path: path });
                    proof {
                        assert(events.deep_view() =~~= seq![
                            CoreEventV::Move { unit_id: unit_id, path: path@ },
                        ]);
                    }
                } else {
                    let ghost shots = e.deep_view();
                    events.append(&mut e);
                    proof {
                        assert(events.deep_view() =~= shots);
                    }
                }
            },
            Command::AttackUnit { attacker_id, defender_id } => {
                let defender_pos = self.get_unit(&defender_id).pos;
                let mut e = self.command_attack_unit_to_event(
                    attacker_id,
                    defender_id,
                    &defender_pos,
                    FireMode::Active,
                );
                if e.len() > 0 {
                    let killed = is_target_dead(&e[0]);
                    let ghost first = e.deep_view();
                    events.append(&mut e);
                    proof {
                        assert(events.deep_view() =~= first);
                    }
                    if !killed {
                        let attacker_pos = self.get_unit(&attacker_id).pos;
                        let mut re = self.reaction_fire(&attacker_id, &attacker_pos);
                        let ghost shots = re.deep_view();
                        events.append(&mut re);
                        proof {
                            assert(events.deep_view() =~= first + shots);
                            assert(events.deep_view().skip(1) =~= shots);
                        }
                    }
                }
            },
        }
        events
    }

    /// The command submission surface: resolves one command for the current
    /// player and applies and distributes every resulting event, in order. A
    /// command that resolves to no event is rejected with a typed outcome and
    /// leaves the core untouched; only an out-of-range attack is rejected.
    ///
    /// A created unit gets an id never allocated before in this session, and
    /// starts with its type's full count and attack points.
    pub fn do_command(&mut self, command: Command) -> (r: Result<(), crate::event::RejectedCommand>)
        requires
            old(self).wf(),
            command_ok(*old(self), command.deep_view()),
        ensures
            final(self).wf(),
            old(self).same_frame(final(self)),
            final(self).spec_next_unit_id() >= old(self).spec_next_unit_id(),
            match r {
                Ok(()) => exists|evs: Seq<CoreEventV>|
                    {
                        &&& #[trigger] command_events_rel(*old(self), command.deep_view(), evs)
                        &&& evs.len() > 0
                        &&& final(self).units() == apply_events_spec(
                            old(self).units(),
                            old(self).types(),
                            evs,
                        )
                        &&& final(self).cur_player() == turn_update_seq(
                            old(self).cur_player(),
                            evs,
                        )
                        &&& final(self).spec_next_unit_id() == next_id_update_seq(
                            old(self).spec_next_unit_id(),
                            evs,
                        )
                        &&& final(self).ever_ids() == ever_ids_update_seq(
                            old(self).ever_ids(),
                            evs,
                        )
                        &&& forall|p: int|
                            0 <= p < old(self).queues().len()
                                ==> #[trigger] final(self).queues()[p] == old(self).queues()[p]
                                + evs
                    },
                Err(_) => {
                    &&& command_events_rel(
                        *old(self),
                        command.deep_view(),
                        Seq::<CoreEventV>::empty(),
                    )
                    &&& *final(self) == *old(self)
                },
            },
            command.deep_view() matches CommandV::EndTurn ==> {
                &&& r matches Ok(_)
                &&& final(self).cur_player() == spec_next_player(*old(self))
            },
            command.deep_view() matches CommandV::Move { .. } ==> r matches Ok(_),
            command.deep_view() matches CommandV::AttackUnit { attacker_id, defender_id } ==> {
                let a = spec_unit(old(self).units(), attacker_id);
                let d = spec_unit(old(self).units(), defender_id);
                (r matches Ok(_)) <==> spec_distance(a.pos, d.pos) <= old(
                    self,
                ).types().spec_max_attack_dist(a)
            },
            command.deep_view() matches CommandV::CreateUnit { pos } ==> {
                let nid = UnitId { id: old(self).spec_next_unit_id() as ZInt };
                &&& r matches Ok(_)
                &&& !has_unit(old(self).units(), nid)
                &&& !old(self).ever_ids().contains(nid.id as int)
                &&& final(self).ever_ids() == old(self).ever_ids().insert(nid.id as int)
                &&& final(self).spec_next_unit_id() == old(self).spec_next_unit_id() + 1
                &&& has_unit(final(self).units(), nid)
                &&& exists|tid: UnitTypeId|
                    {
                        &&& #[trigger] crate::object::first_unit_type_named(
                            old(self).types().spec_unit_types(),
                            "soldier"@,
                            tid.id as int,
                        )
                        &&& final(self).units() == old(self).units().push(
                            new_unit(
                                old(self).types(),
                                nid,
                                pos,
                                tid,
                                old(self).cur_player(),
                            ),
                        )
                        &&& spec_unit(final(self).units(), nid) == new_unit(
                            old(self).types(),
                            nid,
                            pos,
                            tid,
                            old(self).cur_player(),
                        )
                    }
            },
    {
        let ghost cmdv = command.deep_view();
        let events = self.command_to_event(command);
        let ghost evsv = events.deep_view();
        if events.len() == 0 {
            proof {
                match cmdv {
                    CommandV::EndTurn => {
                        assert(false);
                    },
                    CommandV::CreateUnit { .. } => {
                        assert(false);
                    },
                    CommandV::Move { unit_id, path } => {
                        let k = first_interrupt_idx(
                            self.units(),
                            self.types(),
                            self.cur_player(),
                            path,
                            1,
                        );
                        if k == path.len() {
                            assert(evsv.len() == 1);
                        }
                        assert(false);
                    },
                    CommandV::AttackUnit { .. } => {},
                }
                assert(evsv =~= Seq::<CoreEventV>::empty());
            }
            return Err(crate::event::RejectedCommand);
        }
        proof {
            lemma_resolved_create_ids_small(*old(self), cmdv, evsv);
        }
        let n = events.len();
        let mut i: usize = 0;
        while i < n
            invariant
                0 <= i <= n,
                n == events@.len(),
                events.deep_view() == evsv,
                self.wf(),
                old(self).same_frame(&*self),
                forall|j: int| 0 <= j < evsv.len() ==> create_event_id_small(#[trigger] evsv[j]),
                self.units() == apply_events_spec(
                    old(self).units(),
                    old(self).types(),
                    evsv.take(i as int),
                ),
                self.cur_player() == turn_update_seq(old(self).cur_player(), evsv.take(i as int)),
                self.spec_next_unit_id() == next_id_update_seq(
                    old(self).spec_next_unit_id(),
                    evsv.take(i as int),
                ),
                self.ever_ids() == ever_ids_update_seq(old(self).ever_ids(), evsv.take(i as int)),
                forall|p: int|
                    0 <= p < old(self).queues().len() ==> #[trigger] self.queues()[p] == old(
                        self,
                    ).queues()[p] + evsv.take(i as int),
            decreases n - i,
        {
            let ghost prefix = evsv.take(i as int);
            let e = events[i].clone();
            proof {
                assert(e.deep_view() == evsv[i as int]);
            }
            self.do_core_event(e);
            proof {
                assert(evsv.take(i as int + 1) =~= prefix.push(evsv[i as int]));
                lemma_apply_events_snoc(
                    old(self).units(),
                    old(self).types(),
                    prefix,
                    evsv[i as int],
                );
                lemma_turn_update_snoc(old(self).cur_player(), prefix, evsv[i as int]);
                lemma_next_id_update_snoc(
                    old(self).spec_next_unit_id(),
                    prefix,
                    evsv[i as int],
                );
                lemma_ever_ids_update_snoc(old(self).ever_ids(), prefix, evsv[i as int]);
                assert forall|p: int| 0 <= p < old(self).queues().len() implies #[trigger] self
                    .queues()[p] == old(self).queues()[p] + evsv.take(i as int + 1) by {
                    assert(self.queues()[p] =~= (old(self).queues()[p] + prefix).push(
                        evsv[i as int],
                    ));
                    assert((old(self).queues()[p] + prefix).push(evsv[i as int]) =~= old(
                        self,
                    ).queues()[p] + evsv.take(i as int + 1));
                }
            }
            i += 1;
        }
        proof {
            assert(evsv.take(n as int) =~= evsv);
            lemma_next_id_update_seq_monotonic(old(self).spec_next_unit_id(), evsv);
            match cmdv {
                CommandV::CreateUnit { .. } => {
                    let nid = UnitId { id: old(self).spec_next_unit_id() as ZInt };
                    if has_unit(old(self).units(), nid) {
                        let j = choose|j: int|
                            0 <= j < old(self).units().len() && old(self).units()[j].id == nid;
                        assert(old(self).units()[j].id.id < old(self).spec_next_unit_id());
                    }
                    assert(evsv =~= seq![evsv[0]]);
                    lemma_fold_singleton(
                        old(self).units(),
                        old(self).types(),
                        old(self).cur_player(),
                        old(self).spec_next_unit_id(),
                        old(self).ever_ids(),
                        evsv[0],
                    );
                    match evsv[0] {
                        CoreEventV::CreateUnit { unit_id, pos: p, type_id, player_id } => {
                            assert(crate::state::create_applicable(
                                old(self).units(),
                                old(self).types(),
                                unit_id,
                                type_id,
                                player_id,
                            ));
                            assert(unit_id == nid);
                            let nu = new_unit(old(self).types(), nid, p, type_id, player_id);
                            let fu = old(self).units().push(nu);
                            assert(fu[fu.len() - 1].id == nid);
                            assert(has_unit(fu, nid));
                            let j = unit_index(fu, nid);
                            assert(0 <= j < fu.len() && fu[j].id == nid);
                            if j < fu.len() - 1 {
                                assert(fu[j] == old(self).units()[j]);
                                assert(old(self).units()[j].id.id < old(
                                    self,
                                ).spec_next_unit_id());
                            }
                            assert(spec_unit(fu, nid) == nu);
                            assert(apply_events_spec(
                                old(self).units(),
                                old(self).types(),
                                evsv,
                            ) == old(self).units().push(
                                new_unit(old(self).types(), nid, p, type_id, player_id),
                            ));
                            assert(crate::object::first_unit_type_named(
                                old(self).types().spec_unit_types(),
                                "soldier"@,
                                type_id.id as int,
                            ));
                            assert(ever_ids_update_seq(old(self).ever_ids(), evsv) == old(
                                self,
                            ).ever_ids().insert(nid.id as int));
                            assert(next_id_update_seq(old(self).spec_next_unit_id(), evsv)
                                == old(self).spec_next_unit_id() + 1);
                        },
                        _ => {},
                    }
                },
                CommandV::EndTurn => {
                    assert(evsv =~= seq![evsv[0]]);
                    lemma_fold_singleton(
                        old(self).units(),
                        old(self).types(),
                        old(self).cur_player(),
                        old(self).spec_next_unit_id(),
                        old(self).ever_ids(),
                        evsv[0],
                    );
                },
                _ => {},
            }
        }
        Ok(())
    }

    /// Marks a player as scripted or human-driven. A scripted player's turn
    /// is driven by an external policy: after each turn handover to it, the
    /// caller drains its event queue into the policy and submits the
    /// policy's commands until the policy ends the turn.
    pub fn set_scripted(&mut self, player_id: &PlayerId, scripted: bool)
        requires
            old(self).wf(),
            0 <= player_id.id < player_count(),
        ensures
            final(self).wf(),
            final(self).units() == old(self).units(),
            final(self).types() == old(self).types(),
            final(self).cur_player() == old(self).cur_player(),
            final(self).queues() == old(self).queues(),
            final(self).spec_next_unit_id() == old(self).spec_next_unit_id(),
            final(self).ever_ids() == old(self).ever_ids(),
            final(self).spec_players().len() == old(self).spec_players().len(),
            forall|i: int|
                0 <= i < old(self).spec_players().len() && i != player_id.id
                    ==> #[trigger] final(self).spec_players()[i] == old(self).spec_players()[i],
            final(self).spec_players()[player_id.id as int] == (Player {
                id: old(self).spec_players()[player_id.id as int].id,
                is_ai: scripted,
            }),
    {
        let idx = player_id.id as usize;
        let mut p = self.players[idx];
        p.is_ai = scripted;
        self.players[idx] = p;
        proof {
            assert forall|i: int| 0 <= i < self.spec_players().len() implies (#[trigger] self
                .spec_players()[i]).id.id == i by {
                assert(old(self).spec_players()[i].id.id == i);
            }
            assert forall|id: int| self.ever_ids().contains(id) implies id
                < self.spec_next_unit_id() by {
                assert(old(self).ever_ids().contains(id));
            }
            assert(self.wf());
        }
    }

    /// Moves the turn to the incoming player of an applied `EndTurn` event.
    fn handle_end_turn_event(&mut self, old_id: &PlayerId, new_id: &PlayerId)
        ensures
            final(self).cur_player() == turn_update(
                old(self).cur_player(),
                CoreEventV::EndTurn { old_id: *old_id, new_id: *new_id },
            ),
            final(self).units() == old(self).units(),
            final(self).queues() == old(self).queues(),
            final(self).types() == old(self).types(),
            final(self).spec_players() == old(self).spec_players(),
            final(self).spec_map_size() == old(self).spec_map_size(),
            final(self).spec_next_unit_id() == old(self).spec_next_unit_id(),
            final(self).ever_ids() == old(self).ever_ids(),
    {
        if new_id.id >= 0 && new_id.id < 2 && self.current_player_id.id == old_id.id {
            self.current_player_id = PlayerId { id: new_id.id };
        }
    }
}

} // verus!

