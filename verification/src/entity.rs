//! What the entity table holds: players and pigs, each at a position.

use crate::countdown::Countdown;
use vstd::prelude::*;

verus! {

/// How many position units make one world unit.
///
/// A speed is given in world units per second and a frame time in
/// nanoseconds, so their product is a whole number of these units.
pub const UNITS_PER_WORLD_UNIT: i64 = 1_000_000_000;

/// The speed of the player of a new game, in world units per second.
pub const PLAYER_SPEED: u32 = 100;

/// How long a pig lives, in nanoseconds.
pub const PIG_LIFETIME: u64 = 2_000_000_000;

/// A point of the plane.
#[derive(Clone, Copy, Debug, PartialEq, Eq)]
pub struct Position {
    pub x: i64,
    pub y: i64,
}

/// The component of the entity that the keys move.
#[derive(Clone, Copy, Debug, PartialEq, Eq)]
pub struct Player {
    /// World units per second.
    pub speed: u32,
}

/// The component of an entity that was bought and will be sold.
#[derive(Clone, Copy, Debug, PartialEq, Eq)]
pub struct Pig {
    /// Completes when the pig is to be sold.
    pub lifetime: Countdown,
}

/// What an entity is.
#[derive(Clone, Copy, Debug, PartialEq, Eq)]
pub enum Kind {
    Player(Player),
    Pig(Pig),
}

/// One row of the entity table.
#[derive(Clone, Copy, Debug, PartialEq, Eq)]
pub struct Entity {
    /// The identifier under which the entity was spawned.
    pub id: u64,
    pub position: Position,
    pub kind: Kind,
}

impl Position {
    /// The point where a game's player starts.
    pub open spec fn origin() -> Position {
        Position { x: 0, y: 0 }
    }
}

impl Pig {
    /// A pig that was bought just now.
    pub open spec fn bought() -> Pig {
        Pig { lifetime: Countdown::started(PIG_LIFETIME) }
    }

    /// Makes a pig with its whole lifetime ahead.
    pub fn new() -> (pig: Pig)
        ensures
            pig == Pig::bought(),
    {
        Pig { lifetime: Countdown::new(PIG_LIFETIME) }
    }
}

impl Entity {
    pub open spec fn is_player(self) -> bool {
        self.kind is Player
    }

    pub open spec fn is_pig(self) -> bool {
        self.kind is Pig
    }
}

} // verus!
