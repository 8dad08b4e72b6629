//! Simulation core of a turn-based hex-grid tactical combat game for two
//! players: canonical world state, resolution of player commands into ordered
//! event sequences, probabilistic combat, path-interrupting reaction fire,
//! turn sequencing, and per-player event distribution.

use vstd::prelude::*;

pub mod engine;
pub mod event;
pub mod map;
pub mod object;
pub mod state;
pub mod types;
pub mod unit;

verus! {

/// The two players of a game, in index order.
pub open spec fn player_count() -> int {
    2
}

} // verus!
