//! Wire-level data model. Coordinates are carried as fixed-point integers:
//! one unit on the wire is `MILLIS_PER_UNIT` here, so `1.5` becomes `1500`.
//! This keeps every position exact and lets the simulation be verified.

use vstd::prelude::*;

verus! {

/// Fixed-point scale: wire coordinate `1.0` is this many internal millis.
pub const MILLIS_PER_UNIT: i64 = 1000;

/// Positions are kept within this magnitude (in millis); movement clamps
/// to it, so coordinate arithmetic can never overflow an `i64`.
pub const COORD_LIMIT: i64 = 10_000_000_000_000_000;

/// Health a player starts with on `Join`.
pub const START_HP: u32 = 100;

/// One player of the simulated world. `x` and `y` are millis (fixed-point).
#[derive(Clone, Copy, Debug, PartialEq, Eq, Structural)]
pub struct PlayerState {
    pub id: u64,
    pub x: i64,
    pub y: i64,
    pub hp: u32,
}

impl PlayerState {
    /// A player the world may hold: position within the clamping bound.
    pub open spec fn wf(self) -> bool {
        -COORD_LIMIT <= self.x <= COORD_LIMIT && -COORD_LIMIT <= self.y <= COORD_LIMIT
    }
}

/// A command a client sends, already decoded. `dx`/`dy` are millis.
#[derive(Debug)]
pub enum ClientCommand {
    Move { dx: i64, dy: i64 },
    Attack { target: u64 },
    Join { name: String },
}

/// A message the server sends. Only `WorldSnapshot` is emitted by the
/// current pipeline; the other variants are reserved extension points.
#[derive(Debug)]
pub enum ServerMessage {
    Welcome { msg: String },
    PlayerUpdate { id: u64, x: i64, y: i64, hp: u32 },
    WorldSnapshot { players: Vec<PlayerState> },
    Error { msg: String },
}

} // verus!
