//! The expiry sweeper: every frame ages every pig, and sells the pigs whose
//! countdown completes.

use crate::countdown::lemma_ticks_accumulate;
use crate::entity::{Entity, Kind, Pig, PIG_LIFETIME};
use crate::money::{Money, SALE_PRICE};
use crate::world::{has_id, ids_distinct, player_test, players, World};
use vstd::prelude::*;

verus! {

/// What a sale did: for the host to take the pig away and to report the
/// balance.
#[derive(Clone, Copy, Debug, PartialEq, Eq)]
pub struct Sale {
    /// The identifier of the pig that was sold.
    pub pig: u64,
    /// The balance after this sale.
    pub balance: u64,
}

/// An entity after `delta` more nanoseconds: the countdown of a pig has
/// moved on, a player is as before.
pub open spec fn aged(entity: Entity, delta: nat) -> Entity {
    match entity.kind {
        Kind::Pig(pig) => Entity {
            id: entity.id,
            position: entity.position,
            kind: Kind::Pig(Pig { lifetime: pig.lifetime.ticked(delta) }),
        },
        Kind::Player(_) => entity,
    }
}

/// The entity is a pig whose countdown is complete after `delta` more
/// nanoseconds.
pub open spec fn is_due(entity: Entity, delta: nat) -> bool {
    entity.kind matches Kind::Pig(pig) && pig.lifetime.ticked(delta).finished
}

/// What a sweep leaves of an entity: nothing of a pig that is due, and any
/// other entity aged.
pub open spec fn kept(delta: nat) -> spec_fn(Entity) -> Option<Entity> {
    |entity: Entity|
        if is_due(entity, delta) {
            None
        } else {
            Some(aged(entity, delta))
        }
}

/// The identifier under which a sweep sells an entity, if it does.
pub open spec fn sale_of(delta: nat) -> spec_fn(Entity) -> Option<u64> {
    |entity: Entity|
        if is_due(entity, delta) {
            Some(entity.id)
        } else {
            None
        }
}

/// The table after a sweep: the entities that are not due, aged, in their
/// old order.
pub open spec fn survivors(entities: Seq<Entity>, delta: nat) -> Seq<Entity> {
    entities.filter_map(kept(delta))
}

/// The identifiers of the pigs that a sweep sells, in table order.
pub open spec fn sold(entities: Seq<Entity>, delta: nat) -> Seq<u64> {
    entities.filter_map(sale_of(delta))
}

/// What a sweep pays into the wallet: the sale price for each pig sold.
pub open spec fn proceeds(entities: Seq<Entity>, delta: nat) -> int {
    SALE_PRICE * sold(entities, delta).len()
}

/// The wallet can hold what the sweep pays into it.
pub open spec fn can_sell(entities: Seq<Entity>, money: Money, delta: nat) -> bool {
    money.0 + proceeds(entities, delta) <= u64::MAX
}

/// An entity after `delta` more nanoseconds.
fn age(entity: Entity, delta: u64) -> (after: Entity)
    ensures
        after == aged(entity, delta as nat),
{
    match entity.kind {
        Kind::Pig(pig) => {
            let mut lifetime = pig.lifetime;
            lifetime.tick(delta);
            Entity { id: entity.id, position: entity.position, kind: Kind::Pig(Pig { lifetime }) }
        },
        Kind::Player(_) => entity,
    }
}

/// Whether an aged entity is a pig to be sold.
fn expired(after: &Entity) -> (due: bool)
    ensures
        due == (after.kind matches Kind::Pig(pig) && pig.lifetime.finished),
{
    match after.kind {
        Kind::Pig(pig) => pig.lifetime.finished,
        Kind::Player(_) => false,
    }
}

/// Whether `pig_lifetime` may be called on this table and wallet.
pub fn sales_fit(world: &World, money: &Money, delta: u64) -> (fits: bool)
    ensures
        fits == can_sell(world@, *money, delta as nat),
{
    let entities = world.entities();
    let mut due: usize = 0;
    let mut index: usize = 0;
    while index < entities.len()
        invariant
            index <= entities@.len(),
            due <= index,
            due == sold(entities@.take(index as int), delta as nat).len(),
        decreases entities@.len() - index,
    {
        proof {
            entities@.lemma_filter_map_take_succ(sale_of(delta as nat), index as int);
        }
        let after = age(entities[index], delta);
        if expired(&after) {
            due += 1;
        }
        index += 1;
    }
    proof {
        assert(entities@.take(index as int) == entities@);
    }
    money.0 as u128 + SALE_PRICE as u128 * due as u128 <= u64::MAX as u128
}

/// Ages every pig by `delta` nanoseconds. Each pig whose countdown is then
/// complete leaves the table and pays the sale price into the wallet; the
/// sales are returned in table order, each with the balance that it left.
pub fn pig_lifetime(world: &mut World, money: &mut Money, delta: u64) -> (sales: Vec<Sale>)
    requires
        can_sell(old(world)@, *old(money), delta as nat),
    ensures
        final(world).wf(),
        final(world).next_id() == old(world).next_id(),
        final(world)@ == survivors(old(world)@, delta as nat),
        final(money).0 == old(money).0 + proceeds(old(world)@, delta as nat),
        sales@.len() == sold(old(world)@, delta as nat).len(),
        forall|k: int|
            0 <= k < sales@.len() ==> #[trigger] sales@[k] == (Sale {
                pig: sold(old(world)@, delta as nat)[k],
                balance: (old(money).0 + SALE_PRICE * (k + 1)) as u64,
            }),
        players(final(world)@) == players(old(world)@),
        forall|i: int|
            0 <= i < final(world)@.len() ==> !is_due(#[trigger] final(world)@[i], 0),
{
    let ghost before = world@;
    let ghost nanos = delta as nat;
    let ghost start = money.0;
    let ghost done: int = 0;
    let mut sales: Vec<Sale> = Vec::new();
    let mut index: usize = 0;
    proof {
        use_type_invariant(&*world);
        assert(world@ == survivors(before.take(0), nanos) + before.skip(0));
    }
    while index < world.len()
        invariant
            world.wf(),
            world.next_id() == old(world).next_id(),
            nanos == delta as nat,
            0 <= done <= before.len(),
            index == survivors(before.take(done), nanos).len(),
            world@ == survivors(before.take(done), nanos) + before.skip(done),
            sales@.len() == sold(before.take(done), nanos).len(),
            forall|k: int|
                0 <= k < sales@.len() ==> #[trigger] sales@[k] == (Sale {
                    pig: sold(before.take(done), nanos)[k],
                    balance: (start + SALE_PRICE * (k + 1)) as u64,
                }),
            money.0 == start + SALE_PRICE * sales@.len(),
            start + SALE_PRICE * sold(before, nanos).len() <= u64::MAX,
        decreases before.len() - done,
    {
        let entity = world.entities()[index];
        let after = age(entity, delta);
        proof {
            assert(entity == before[done]);
            before.lemma_filter_map_take_succ(kept(nanos), done);
            before.lemma_filter_map_take_succ(sale_of(nanos), done);
            lemma_sold_grows(before, nanos, done + 1, before.len() as int);
            assert(before.take(before.len() as int) == before);
        }
        if expired(&after) {
            money.0 = money.0 + SALE_PRICE;
            world.remove(index);
            sales.push(Sale { pig: entity.id, balance: money.0 });
            proof {
                assert(world@ == survivors(before.take(done + 1), nanos) + before.skip(done + 1));
            }
        } else {
            world.update(index, after.position, after.kind);
            index += 1;
            proof {
                assert(world@ == survivors(before.take(done + 1), nanos) + before.skip(done + 1));
            }
        }
        proof {
            done = done + 1;
        }
    }
    proof {
        assert(before.take(done) == before);
        assert(world@ == survivors(before, nanos));
        lemma_sweep_keeps_players(before, nanos);
        lemma_survivors_are_not_due(before, nanos);
    }
    sales
}

/// A longer stretch of the table sells no fewer pigs than a shorter one.
proof fn lemma_sold_grows(entities: Seq<Entity>, delta: nat, shorter: int, longer: int)
    requires
        0 <= shorter <= longer <= entities.len(),
    ensures
        sold(entities.take(shorter), delta).len() <= sold(entities.take(longer), delta).len(),
    decreases longer - shorter,
{
    if shorter < longer {
        lemma_sold_grows(entities, delta, shorter, longer - 1);
        entities.lemma_filter_map_take_succ(sale_of(delta), longer - 1);
    }
}

/// A sweep leaves the players as they are.
pub proof fn lemma_sweep_keeps_players(entities: Seq<Entity>, delta: nat)
    ensures
        players(survivors(entities, delta)) == players(entities),
    decreases entities.len(),
{
    if entities.len() == 0 {
        assert(survivors(entities, delta) == entities);
    } else {
        let rest = entities.drop_last();
        let last = entities.last();
        lemma_sweep_keeps_players(rest, delta);
        assert(entities == rest.push(last));
        rest.lemma_filter_push(last, player_test());
        if !is_due(last, delta) {
            assert(survivors(entities, delta) == survivors(rest, delta).push(aged(last, delta)));
            survivors(rest, delta).lemma_filter_push(aged(last, delta), player_test());
        }
    }
}

/// After a sweep no pig in the table has a completed countdown.
pub proof fn lemma_survivors_are_not_due(entities: Seq<Entity>, delta: nat)
    ensures
        forall|i: int|
            0 <= i < survivors(entities, delta).len() ==> !is_due(
                #[trigger] survivors(entities, delta)[i],
                0,
            ),
    decreases entities.len(),
{
    if entities.len() > 0 {
        let rest = entities.drop_last();
        let last = entities.last();
        lemma_survivors_are_not_due(rest, delta);
        if !is_due(last, delta) {
            assert(survivors(entities, delta) == survivors(rest, delta).push(aged(last, delta)));
        }
    }
}

/// Aging adds up: two frames in a row age an entity as one frame of their
/// joint length does, so whether a pig is due depends on the whole time
/// that it has lived.
pub proof fn lemma_aging_accumulates(entity: Entity, first: nat, second: nat)
    ensures
        aged(aged(entity, first), second) == aged(entity, first + second),
        is_due(aged(entity, first), second) == is_due(entity, first + second),
{
    match entity.kind {
        Kind::Pig(pig) => {
            lemma_ticks_accumulate(pig.lifetime, first, second);
        },
        Kind::Player(_) => {},
    }
}

/// A pig that was just bought is due exactly when a pig's lifetime has
/// passed.
pub proof fn lemma_new_pig_is_due_after_its_lifetime(entity: Entity, delta: nat)
    requires
        entity.kind == Kind::Pig(Pig::bought()),
    ensures
        is_due(entity, delta) <==> delta >= PIG_LIFETIME,
{
}

/// `entity` is what a sweep makes of some entity of the table that is not
/// due.
pub open spec fn kept_from(entities: Seq<Entity>, delta: nat, entity: Entity) -> bool {
    exists|i: int|
        0 <= i < entities.len() && !is_due(entities[i], delta) && #[trigger] aged(
            entities[i],
            delta,
        ) == entity
}

/// Some entity of the table goes by `id` and is due.
pub open spec fn sells(entities: Seq<Entity>, delta: nat, id: u64) -> bool {
    exists|i: int|
        0 <= i < entities.len() && (#[trigger] entities[i]).id == id && is_due(entities[i], delta)
}

/// The table after a sweep holds the aged entities that were not due, and
/// nothing else.
pub proof fn lemma_survivors_are_the_kept(entities: Seq<Entity>, delta: nat)
    ensures
        forall|entity: Entity| #[trigger]
            survivors(entities, delta).contains(entity) <==> kept_from(entities, delta, entity),
    decreases entities.len(),
{
    let after = survivors(entities, delta);
    if entities.len() == 0 {
        assert(after.len() == 0);
    } else {
        let rest = entities.drop_last();
        let last = entities.last();
        lemma_survivors_are_the_kept(rest, delta);
        let short = survivors(rest, delta);
        assert(after == if is_due(last, delta) {
            short
        } else {
            short.push(aged(last, delta))
        });
        assert forall|entity: Entity| #[trigger] after.contains(entity) implies kept_from(
            entities,
            delta,
            entity,
        ) by {
            let k = choose|k: int| 0 <= k < after.len() && after[k] == entity;
            if k < short.len() {
                assert(short[k] == entity);
                assert(short.contains(entity));
                let i = choose|i: int|
                    0 <= i < rest.len() && !is_due(rest[i], delta) && #[trigger] aged(
                        rest[i],
                        delta,
                    ) == entity;
                assert(rest[i] == entities[i]);
                assert(aged(entities[i], delta) == entity);
            } else {
                assert(aged(entities[entities.len() - 1], delta) == entity);
            }
        }
        assert forall|entity: Entity| kept_from(entities, delta, entity) implies #[trigger]
            after.contains(entity) by {
            let i = choose|i: int|
                0 <= i < entities.len() && !is_due(entities[i], delta) && #[trigger] aged(
                    entities[i],
                    delta,
                ) == entity;
            if i < rest.len() {
                assert(rest[i] == entities[i]);
                assert(aged(rest[i], delta) == entity);
                assert(kept_from(rest, delta, entity));
                assert(short.contains(entity));
                let k = choose|k: int| 0 <= k < short.len() && short[k] == entity;
                assert(after[k] == entity);
            } else {
                assert(after[after.len() - 1] == entity);
            }
        }
    }
}

/// A sweep sells the identifiers of the entities that are due, and no
/// others.
pub proof fn lemma_sold_are_the_due(entities: Seq<Entity>, delta: nat)
    ensures
        forall|id: u64| #[trigger]
            sold(entities, delta).contains(id) <==> sells(entities, delta, id),
    decreases entities.len(),
{
    let out = sold(entities, delta);
    if entities.len() == 0 {
        assert(out.len() == 0);
    } else {
        let rest = entities.drop_last();
        let last = entities.last();
        lemma_sold_are_the_due(rest, delta);
        let short = sold(rest, delta);
        assert(out == if is_due(last, delta) {
            short.push(last.id)
        } else {
            short
        });
        assert forall|id: u64| #[trigger] out.contains(id) implies sells(entities, delta, id) by {
            let k = choose|k: int| 0 <= k < out.len() && out[k] == id;
            if k < short.len() {
                assert(short[k] == id);
                assert(short.contains(id));
                let i = choose|i: int|
                    0 <= i < rest.len() && (#[trigger] rest[i]).id == id && is_due(rest[i], delta);
                assert(rest[i] == entities[i]);
                assert(entities[i].id == id);
            } else {
                assert(entities[entities.len() - 1].id == id);
            }
        }
        assert forall|id: u64| sells(entities, delta, id) implies #[trigger] out.contains(id) by {
            let i = choose|i: int|
                0 <= i < entities.len() && (#[trigger] entities[i]).id == id && is_due(
                    entities[i],
                    delta,
                );
            if i < rest.len() {
                assert(rest[i] == entities[i]);
                assert(rest[i].id == id);
                assert(sells(rest, delta, id));
                assert(short.contains(id));
                let k = choose|k: int| 0 <= k < short.len() && short[k] == id;
                assert(out[k] == id);
            } else {
                assert(out[out.len() - 1] == id);
            }
        }
    }
}

/// A sweep keeps identifiers distinct, and sells no pig twice.
pub proof fn lemma_sweep_keeps_ids_distinct(entities: Seq<Entity>, delta: nat)
    requires
        ids_distinct(entities),
    ensures
        ids_distinct(survivors(entities, delta)),
        sold(entities, delta).no_duplicates(),
    decreases entities.len(),
{
    if entities.len() > 0 {
        let rest = entities.drop_last();
        let last = entities.last();
        assert(ids_distinct(rest)) by {
            assert forall|i: int, j: int| 0 <= i < j < rest.len() implies (#[trigger] rest[i]).id
                != (#[trigger] rest[j]).id by {
                assert(rest[i] == entities[i] && rest[j] == entities[j]);
            }
        }
        lemma_sweep_keeps_ids_distinct(rest, delta);
        lemma_survivors_are_the_kept(rest, delta);
        lemma_sold_are_the_due(rest, delta);
        let short = survivors(rest, delta);
        let after = survivors(entities, delta);
        let out = sold(entities, delta);
        if is_due(last, delta) {
            assert(after == short);
            assert(out == sold(rest, delta).push(last.id));
            assert forall|i: int, j: int| 0 <= i < j < out.len() implies out[i] != out[j] by {
                if j == out.len() - 1 {
                    if out[i] == last.id {
                        assert(sold(rest, delta)[i] == last.id);
                        assert(sold(rest, delta).contains(last.id));
                        let m = choose|m: int|
                            0 <= m < rest.len() && (#[trigger] rest[m]).id == last.id && is_due(
                                rest[m],
                                delta,
                            );
                        assert(entities[m].id == entities[entities.len() - 1].id);
                    }
                }
            }
        } else {
            assert(out == sold(rest, delta));
            assert(after == short.push(aged(last, delta)));
            assert forall|i: int, j: int| 0 <= i < j < after.len() implies (#[trigger] after[i]).id
                != (#[trigger] after[j]).id by {
                if j == after.len() - 1 {
                    if after[i].id == last.id {
                        assert(short[i] == after[i]);
                        assert(short.contains(after[i]));
                        let m = choose|m: int|
                            0 <= m < rest.len() && !is_due(rest[m], delta) && #[trigger] aged(
                                rest[m],
                                delta,
                            ) == after[i];
                        assert(entities[m].id == entities[entities.len() - 1].id);
                    }
                } else {
                    assert(short[i] == after[i] && short[j] == after[j]);
                }
            }
        }
    }
}

/// A pig whose countdown completes in a frame is sold in that frame and
/// never again: the sweep sells its identifier, the table that the sweep
/// leaves does not hold it, and so no later sweep, however long, sells it.
pub proof fn lemma_due_pig_is_sold_once(
    entities: Seq<Entity>,
    index: int,
    delta: nat,
    later: nat,
)
    requires
        ids_distinct(entities),
        0 <= index < entities.len(),
        is_due(entities[index], delta),
    ensures
        sold(entities, delta).contains(entities[index].id),
        sold(entities, delta).no_duplicates(),
        !has_id(survivors(entities, delta), entities[index].id),
        !sold(survivors(entities, delta), later).contains(entities[index].id),
{
    let id = entities[index].id;
    let after = survivors(entities, delta);
    lemma_sold_are_the_due(entities, delta);
    lemma_sweep_keeps_ids_distinct(entities, delta);
    lemma_survivors_are_the_kept(entities, delta);
    assert(sells(entities, delta, id));
    if has_id(after, id) {
        let k = choose|k: int| 0 <= k < after.len() && (#[trigger] after[k]).id == id;
        assert(after.contains(after[k]));
        let i = choose|i: int|
            0 <= i < entities.len() && !is_due(entities[i], delta) && #[trigger] aged(
                entities[i],
                delta,
            ) == after[k];
        assert(entities[i].id == entities[index].id);
        assert(false);
    }
    lemma_sold_are_the_due(after, later);
    if sold(after, later).contains(id) {
        let k = choose|k: int|
            0 <= k < after.len() && (#[trigger] after[k]).id == id && is_due(after[k], later);
        assert(has_id(after, id));
    }
}

/// A pig that is not yet due stays in the table, aged and unsold, and is
/// sold by the sweep of the frame in which the time that has passed reaches
/// what its countdown had left.
pub proof fn lemma_pig_is_sold_when_its_time_is_up(
    entities: Seq<Entity>,
    index: int,
    first: nat,
    second: nat,
)
    requires
        ids_distinct(entities),
        0 <= index < entities.len(),
        !is_due(entities[index], first),
        is_due(entities[index], first + second),
    ensures
        !sold(entities, first).contains(entities[index].id),
        survivors(entities, first).contains(aged(entities[index], first)),
        sold(survivors(entities, first), second).contains(entities[index].id),
        !has_id(survivors(survivors(entities, first), second), entities[index].id),
{
    let id = entities[index].id;
    let after = survivors(entities, first);
    let waiting = aged(entities[index], first);
    lemma_sold_are_the_due(entities, first);
    if sold(entities, first).contains(id) {
        let i = choose|i: int|
            0 <= i < entities.len() && (#[trigger] entities[i]).id == id && is_due(
                entities[i],
                first,
            );
        assert(entities[i].id == entities[index].id);
        assert(false);
    }
    lemma_survivors_are_the_kept(entities, first);
    assert(kept_from(entities, first, waiting));
    assert(after.contains(waiting));
    let k = choose|k: int| 0 <= k < after.len() && after[k] == waiting;
    lemma_aging_accumulates(entities[index], first, second);
    lemma_sweep_keeps_ids_distinct(entities, first);
    lemma_due_pig_is_sold_once(after, k, second, 0);
}

/// What a sweep pays does not depend on where the pigs stand in the table:
/// a table pays what its parts pay together, so the parts may change places.
pub proof fn lemma_proceeds_ignore_the_order(first: Seq<Entity>, second: Seq<Entity>, delta: nat)
    ensures
        proceeds(first + second, delta) == proceeds(first, delta) + proceeds(second, delta),
        proceeds(first + second, delta) == proceeds(second + first, delta),
{
    lemma_sold_of_joined_tables(first, second, delta);
    lemma_sold_of_joined_tables(second, first, delta);
}

/// A sweep sells of two tables in a row what it sells of the first and then
/// what it sells of the second.
proof fn lemma_sold_of_joined_tables(first: Seq<Entity>, second: Seq<Entity>, delta: nat)
    ensures
        sold(first + second, delta) == sold(first, delta) + sold(second, delta),
    decreases second.len(),
{
    if second.len() == 0 {
        assert(first + second == first);
        assert(sold(second, delta) == Seq::<u64>::empty());
    } else {
        assert((first + second).drop_last() == first + second.drop_last());
        lemma_sold_of_joined_tables(first, second.drop_last(), delta);
    }
}

} // verus!
