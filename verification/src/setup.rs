//! The state in which a game starts.

use crate::entity::{Entity, Kind, Player, Position, PLAYER_SPEED};
use crate::world::{lemma_sole_player, players, sole_player_at, World};
use vstd::prelude::*;

verus! {

/// The player of a new game: the first entity, at the origin.
pub open spec fn first_player() -> Entity {
    Entity {
        id: 0,
        position: Position::origin(),
        kind: Kind::Player(Player { speed: PLAYER_SPEED }),
    }
}

/// Makes the table of a new game: one player at the origin, and no pig.
pub fn setup() -> (world: World)
    ensures
        world.wf(),
        world@ == seq![first_player()],
        world.next_id() == 1,
        players(world@) == seq![first_player()],
{
    let mut world = World::new();
    world.spawn(Position { x: 0, y: 0 }, Kind::Player(Player { speed: PLAYER_SPEED }));
    proof {
        assert(world@ == seq![first_player()]);
        assert(sole_player_at(world@, 0));
        lemma_sole_player(world@, 0);
    }
    world
}

} // verus!
