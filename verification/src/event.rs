//! Canonical events: the only channel through which world state changes.
//! Commands are player intents; events are the facts the resolver derives
//! from them.

use vstd::prelude::*;

use crate::map::MapPath;
use crate::types::{MapPos, PlayerId, UnitId};
use crate::unit::UnitTypeId;

verus! {

/// Whether an attack was initiated by the attacker (`Active`) or is an
/// automatic interrupt (`Reactive`).
#[derive(Clone, Copy, PartialEq, Eq, Structural, Debug)]
pub enum FireMode {
    Active,
    Reactive,
}

/// A player intent, submitted to the core for the current player.
#[derive(Debug)]
pub enum Command {
    EndTurn,
    CreateUnit { pos: MapPos },
    Move { unit_id: UnitId, path: MapPath },
    AttackUnit { attacker_id: UnitId, defender_id: UnitId },
}

impl Clone for Command {
    fn clone(&self) -> (res: Self)
        ensures
            res.deep_view() == self.deep_view(),
    {
        match self {
            Command::EndTurn => Command::EndTurn,
            Command::CreateUnit { pos } => Command::CreateUnit { pos: *pos },
            Command::Move { unit_id, path } => Command::Move {
                unit_id: *unit_id,
                path: path.clone(),
            },
            Command::AttackUnit { attacker_id, defender_id } => Command::AttackUnit {
                attacker_id: *attacker_id,
                defender_id: *defender_id,
            },
        }
    }
}

/// The mathematical shape of a command: paths abstracted to their waypoint
/// sequences.
#[verifier::ext_equal]
pub enum CommandV {
    EndTurn,
    CreateUnit { pos: MapPos },
    Move { unit_id: UnitId, path: Seq<MapPos> },
    AttackUnit { attacker_id: UnitId, defender_id: UnitId },
}

impl DeepView for Command {
    type V = CommandV;

    open spec fn deep_view(&self) -> CommandV {
        match self {
            Command::EndTurn => CommandV::EndTurn,
            Command::CreateUnit { pos } => CommandV::CreateUnit { pos: *pos },
            Command::Move { unit_id, path } => CommandV::Move { unit_id: *unit_id, path: path@ },
            Command::AttackUnit { attacker_id, defender_id } => CommandV::AttackUnit {
                attacker_id: *attacker_id,
                defender_id: *defender_id,
            },
        }
    }
}

/// A canonical fact about the game, produced by the command resolver and
/// applied irreversibly to the world state.
#[derive(Debug)]
pub enum CoreEvent {
    Move { unit_id: UnitId, path: MapPath },
    EndTurn { old_id: PlayerId, new_id: PlayerId },
    CreateUnit { unit_id: UnitId, pos: MapPos, type_id: UnitTypeId, player_id: PlayerId },
    AttackUnit { attacker_id: UnitId, defender_id: UnitId, mode: FireMode, killed: bool },
}

/// The mathematical shape of an event: paths abstracted to their waypoint
/// sequences.
#[verifier::ext_equal]
pub enum CoreEventV {
    Move { unit_id: UnitId, path: Seq<MapPos> },
    EndTurn { old_id: PlayerId, new_id: PlayerId },
    CreateUnit { unit_id: UnitId, pos: MapPos, type_id: UnitTypeId, player_id: PlayerId },
    AttackUnit { attacker_id: UnitId, defender_id: UnitId, mode: FireMode, killed: bool },
}

impl DeepView for CoreEvent {
    type V = CoreEventV;

    open spec fn deep_view(&self) -> CoreEventV {
        match self {
            CoreEvent::Move { unit_id, path } => CoreEventV::Move {
                unit_id: *unit_id,
                path: path@,
            },
            CoreEvent::EndTurn { old_id, new_id } => CoreEventV::EndTurn {
                old_id: *old_id,
                new_id: *new_id,
            },
            CoreEvent::CreateUnit { unit_id, pos, type_id, player_id } => CoreEventV::CreateUnit {
                unit_id: *unit_id,
                pos: *pos,
                type_id: *type_id,
                player_id: *player_id,
            },
            CoreEvent::AttackUnit { attacker_id, defender_id, mode, killed } => {
                CoreEventV::AttackUnit {
                    attacker_id: *attacker_id,
                    defender_id: *defender_id,
                    mode: *mode,
                    killed: *killed,
                }
            },
        }
    }
}

impl Clone for CoreEvent {
    fn clone(&self) -> (res: Self)
        ensures
            res.deep_view() == self.deep_view(),
    {
        match self {
            CoreEvent::Move { unit_id, path } => CoreEvent::Move {
                unit_id: *unit_id,
                path: path.clone(),
            },
            CoreEvent::EndTurn { old_id, new_id } => CoreEvent::EndTurn {
                old_id: *old_id,
                new_id: *new_id,
            },
            CoreEvent::CreateUnit { unit_id, pos, type_id, player_id } => CoreEvent::CreateUnit {
                unit_id: *unit_id,
                pos: *pos,
                type_id: *type_id,
                player_id: *player_id,
            },
            CoreEvent::AttackUnit { attacker_id, defender_id, mode, killed } => {
                CoreEvent::AttackUnit {
                    attacker_id: *attacker_id,
                    defender_id: *defender_id,
                    mode: *mode,
                    killed: *killed,
                }
            },
        }
    }
}

/// The typed outcome of a command that resolved to no event at all: the
/// caller's intent was impossible (an attack out of range) and canonical
/// state is untouched.
#[derive(Clone, Copy, PartialEq, Eq, Structural, Debug)]
pub struct RejectedCommand;

/// Whether the event is an attack that killed its defender.
pub open spec fn event_killed(e: CoreEventV) -> bool {
    match e {
        CoreEventV::AttackUnit { killed, .. } => killed,
        _ => false,
    }
}

/// Whether the event is an attack by `attacker_id` on `defender_id` in the
/// given fire mode.
pub open spec fn is_attack_by(
    e: CoreEventV,
    attacker_id: UnitId,
    defender_id: UnitId,
    mode: FireMode,
) -> bool {
    match e {
        CoreEventV::AttackUnit { attacker_id: a, defender_id: d, mode: m, killed: _ } => {
            a == attacker_id && d == defender_id && m == mode
        },
        _ => false,
    }
}

/// The attacker of an attack event (a placeholder id for other events).
pub open spec fn event_attacker(e: CoreEventV) -> UnitId {
    match e {
        CoreEventV::AttackUnit { attacker_id, .. } => attacker_id,
        _ => UnitId { id: 0 },
    }
}

} // verus!
