//! The spawner: a press of the action key buys a pig, if the wallet
//! affords one, and puts it where the player stands.

use crate::entity::{Entity, Kind, Pig, Position};
use crate::input::Controls;
use crate::money::{Money, PURCHASE_PRICE};
use crate::world::{pigs, pig_test, player_test, players, World};
use vstd::prelude::*;

verus! {

/// What a purchase did: for the host to show the pig and to report the
/// balance.
#[derive(Clone, Copy, Debug, PartialEq, Eq)]
pub struct Purchase {
    /// The identifier of the new pig.
    pub pig: u64,
    /// Where the new pig stands.
    pub position: Position,
    /// The balance after the price was paid.
    pub balance: u64,
}

/// The action key was pressed in this frame and the wallet holds the price.
pub open spec fn buys(money: Money, controls: Controls) -> bool {
    controls.action.just_pressed && money.0 >= PURCHASE_PRICE
}

/// The pig that a purchase adds to `entities` under the identifier `id`:
/// new, and where the player stands.
pub open spec fn bought_pig(entities: Seq<Entity>, id: u64) -> Entity {
    Entity { id, position: players(entities)[0].position, kind: Kind::Pig(Pig::bought()) }
}

/// The table after one frame of the spawner.
pub open spec fn stocked(entities: Seq<Entity>, next_id: u64, money: Money, controls: Controls)
    -> Seq<Entity> {
    if buys(money, controls) {
        entities.push(bought_pig(entities, next_id))
    } else {
        entities
    }
}

/// The wallet after one frame of the spawner.
pub open spec fn charged(money: Money, controls: Controls) -> Money {
    if buys(money, controls) {
        Money((money.0 - PURCHASE_PRICE) as u64)
    } else {
        money
    }
}

/// What the spawner needs once the action key is pressed: one player to
/// put the pig next to and, if the wallet holds the price, an identifier for
/// the pig.
pub open spec fn can_stock(entities: Seq<Entity>, next_id: u64, money: Money, controls: Controls)
    -> bool {
    controls.action.just_pressed ==> {
        &&& players(entities).len() == 1
        &&& money.0 >= PURCHASE_PRICE ==> next_id < u64::MAX
    }
}

/// Whether `spawn_pig` may be called on this table.
pub fn purchase_fits(world: &World, money: &Money, controls: &Controls) -> (fits: bool)
    ensures
        fits == can_stock(world@, world.next_id(), *money, *controls),
{
    if !controls.action.just_pressed {
        return true;
    }
    match world.single_player() {
        Ok(_) => money.0 < PURCHASE_PRICE || world.can_spawn(),
        Err(_) => false,
    }
}

/// Buys a pig when the action key was pressed in this frame and the wallet
/// holds the price: the price leaves the wallet and a new pig is spawned at
/// the player's position. Otherwise nothing changes.
pub fn spawn_pig(world: &mut World, money: &mut Money, controls: &Controls) -> (purchase: Option<
    Purchase,
>)
    requires
        can_stock(old(world)@, old(world).next_id(), *old(money), *controls),
    ensures
        final(world).wf(),
        final(world)@ == stocked(old(world)@, old(world).next_id(), *old(money), *controls),
        *final(money) == charged(*old(money), *controls),
        players(final(world)@) == players(old(world)@),
        buys(*old(money), *controls) ==> {
            &&& purchase == Some(
                Purchase {
                    pig: old(world).next_id(),
                    position: players(old(world)@)[0].position,
                    balance: (old(money).0 - PURCHASE_PRICE) as u64,
                },
            )
            &&& final(money).0 == old(money).0 - PURCHASE_PRICE
            &&& final(world).next_id() == old(world).next_id() + 1
            &&& pigs(final(world)@).len() == pigs(old(world)@).len() + 1
            &&& final(world)@.last().is_pig()
            &&& final(world)@.last().position == players(old(world)@)[0].position
        },
        !buys(*old(money), *controls) ==> {
            &&& purchase is None
            &&& final(money).0 == old(money).0
            &&& final(world).next_id() == old(world).next_id()
            &&& final(world)@ == old(world)@
        },
{
    proof {
        use_type_invariant(&*world);
    }
    // Only the frame in which the key goes down buys: a held key must not
    // buy again.
    if !controls.action.just_pressed {
        return None;
    }
    let position = match world.single_player() {
        Ok(index) => world.entities()[index].position,
        Err(_) => {
            return None;
        },
    };
    if money.0 < PURCHASE_PRICE {
        return None;
    }
    let ghost before = world@;
    let ghost id = world.next_id();
    money.0 = money.0 - PURCHASE_PRICE;
    match world.spawn(position, Kind::Pig(Pig::new())) {
        Some(pig) => {
            proof {
                before.lemma_filter_push(bought_pig(before, id), pig_test());
                before.lemma_filter_push(bought_pig(before, id), player_test());
            }
            Some(Purchase { pig, position, balance: money.0 })
        },
        None => None,
    }
}

/// A key that is kept down buys once: in a frame that follows one in which
/// the action key was already down, the spawner changes neither the table
/// nor the wallet, whatever the other keys do and whatever the wallet holds.
pub proof fn lemma_held_action_buys_nothing(
    entities: Seq<Entity>,
    next_id: u64,
    money: Money,
    before: Controls,
    up: bool,
    down: bool,
    left: bool,
    right: bool,
)
    requires
        before.action.held,
    ensures
        stocked(entities, next_id, money, before.next(up, down, left, right, true)) == entities,
        charged(money, before.next(up, down, left, right, true)) == money,
{
}

} // verus!
