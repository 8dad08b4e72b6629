//! Basic identifier and geometry types shared by the whole core.

use vstd::prelude::*;

verus! {

/// Signed integer type used for map coordinates, distances and unit statistics.
pub type ZInt = i32;

/// A rectangular map size.
#[derive(Clone, Copy, PartialEq, Eq, Structural, Debug)]
pub struct Size2 {
    pub w: ZInt,
    pub h: ZInt,
}

/// Index of one of the two players.
#[derive(Clone, Copy, PartialEq, Eq, Structural, Debug)]
pub struct PlayerId {
    pub id: ZInt,
}

/// Identifier of a unit, unique for the lifetime of a game and never reused.
#[derive(Clone, Copy, PartialEq, Eq, Structural, Debug)]
pub struct UnitId {
    pub id: ZInt,
}

/// A hex-grid position in axial coordinates.
#[derive(Clone, Copy, PartialEq, Eq, Structural, Debug)]
pub struct MapPos {
    pub x: ZInt,
    pub y: ZInt,
}

/// One of the two participants of a game. A scripted participant is driven
/// by an external policy between its `EndTurn` and the next one.
#[derive(Clone, Copy, PartialEq, Eq, Structural, Debug)]
pub struct Player {
    pub id: PlayerId,
    pub is_ai: bool,
}

} // verus!
