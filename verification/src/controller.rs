//! The player controller: the held direction keys move the player.
//!
//! Each axis is moved on its own, so a diagonal step is as long on both axes
//! as a straight step is on one.

use crate::entity::{Entity, Kind, Position};
use crate::input::Controls;
use crate::world::{lemma_sole_player, players, sole_player_at, World};
use vstd::prelude::*;

verus! {

/// How far a player of the given speed gets in `delta` nanoseconds.
pub open spec fn stride(speed: u32, delta: u64) -> int {
    speed as int * delta as int
}

/// What the two keys of one axis add to a coordinate: the stride for the
/// key that points forth, less the stride for the key that points back.
pub open spec fn shift(stride: int, forth: bool, back: bool) -> int {
    (if forth {
        stride
    } else {
        0
    }) - (if back {
        stride
    } else {
        0
    })
}

/// The horizontal coordinate after one frame.
pub open spec fn moved_x(from: Position, speed: u32, controls: Controls, delta: u64) -> int {
    from.x + shift(stride(speed, delta), controls.right.held, controls.left.held)
}

/// The vertical coordinate after one frame.
pub open spec fn moved_y(from: Position, speed: u32, controls: Controls, delta: u64) -> int {
    from.y + shift(stride(speed, delta), controls.up.held, controls.down.held)
}

/// Both coordinates after one frame are numbers that a position can hold.
pub open spec fn move_fits(from: Position, speed: u32, controls: Controls, delta: u64) -> bool {
    &&& i64::MIN <= moved_x(from, speed, controls, delta) <= i64::MAX
    &&& i64::MIN <= moved_y(from, speed, controls, delta) <= i64::MAX
}

/// An entity after one frame of the controller: a player is moved, any
/// other entity stays as it is.
pub open spec fn walked(entity: Entity, controls: Controls, delta: u64) -> Entity {
    match entity.kind {
        Kind::Player(player) => Entity {
            id: entity.id,
            position: Position {
                x: moved_x(entity.position, player.speed, controls, delta) as i64,
                y: moved_y(entity.position, player.speed, controls, delta) as i64,
            },
            kind: entity.kind,
        },
        Kind::Pig(_) => entity,
    }
}

/// `walked`, as a function of the entity alone.
pub open spec fn walk(controls: Controls, delta: u64) -> spec_fn(Entity) -> Entity {
    |entity: Entity| walked(entity, controls, delta)
}

/// The table holds one player, and where the keys send it is a position.
pub open spec fn can_walk(entities: Seq<Entity>, controls: Controls, delta: u64) -> bool {
    &&& players(entities).len() == 1
    &&& players(entities)[0].kind matches Kind::Player(player)
    &&& move_fits(players(entities)[0].position, player.speed, controls, delta)
}

/// Whether `character_movement` may be called on this table.
pub fn movement_fits(world: &World, controls: &Controls, delta: u64) -> (fits: bool)
    ensures
        fits == can_walk(world@, *controls, delta),
{
    match world.single_player() {
        Ok(index) => {
            let entity = world.entities()[index];
            match entity.kind {
                Kind::Player(player) => {
                    let (x, y) = destination(entity.position, player.speed, controls, delta);
                    in_range(x) && in_range(y)
                },
                Kind::Pig(_) => false,
            }
        },
        Err(_) => false,
    }
}

/// Moves the player by its speed times `delta` nanoseconds along each axis
/// on which a key is held: up and right count forth, down and left back.
/// Two held keys of one axis cancel; keys of both axes add up.
pub fn character_movement(world: &mut World, controls: &Controls, delta: u64)
    requires
        can_walk(old(world)@, *controls, delta),
    ensures
        final(world).wf(),
        final(world).next_id() == old(world).next_id(),
        final(world)@ == old(world)@.map_values(walk(*controls, delta)),
        players(final(world)@) == seq![walked(players(old(world)@)[0], *controls, delta)],
{
    let ghost before = world@;
    match world.single_player() {
        Ok(index) => {
            let entity = world.entities()[index];
            match entity.kind {
                Kind::Player(player) => {
                    let (x, y) = destination(entity.position, player.speed, controls, delta);
                    let position = Position { x: x as i64, y: y as i64 };
                    world.update(index, position, entity.kind);
                    proof {
                        assert(world@[index as int] == walked(entity, *controls, delta));
                        assert(world@ =~= before.map_values(walk(*controls, delta)));
                        assert(sole_player_at(world@, index as int));
                        lemma_sole_player(world@, index as int);
                    }
                },
                Kind::Pig(_) => {},
            }
        },
        Err(_) => {},
    }
}

/// Both coordinates after one frame, in numbers wide enough for any keys.
fn destination(from: Position, speed: u32, controls: &Controls, delta: u64) -> (to: (i128, i128))
    ensures
        to.0 == moved_x(from, speed, *controls, delta),
        to.1 == moved_y(from, speed, *controls, delta),
{
    assert(0 <= speed as int * delta as int <= 0xffff_ffff * 0xffff_ffff_ffff_ffff)
        by (nonlinear_arith)
        requires
            0 <= speed as int <= 0xffff_ffff,
            0 <= delta as int <= 0xffff_ffff_ffff_ffff,
    ;
    let stride: i128 = speed as i128 * delta as i128;
    let x: i128 = from.x as i128 + along(stride, controls.right.held, controls.left.held);
    let y: i128 = from.y as i128 + along(stride, controls.up.held, controls.down.held);
    (x, y)
}

/// What the two keys of one axis add to a coordinate.
fn along(stride: i128, forth: bool, back: bool) -> (by: i128)
    requires
        0 <= stride <= 0xffff_ffff * 0xffff_ffff_ffff_ffff,
    ensures
        by == shift(stride as int, forth, back),
{
    let there: i128 = if forth {
        stride
    } else {
        0
    };
    let here: i128 = if back {
        stride
    } else {
        0
    };
    there - here
}

/// Whether a coordinate is a number that a position can hold.
fn in_range(coordinate: i128) -> (fits: bool)
    ensures
        fits == (i64::MIN <= coordinate <= i64::MAX),
{
    -0x8000_0000_0000_0000 <= coordinate && coordinate <= 0x7fff_ffff_ffff_ffff
}

} // verus!
