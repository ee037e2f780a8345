//! The entity table: entities in the order in which they were spawned, each
//! under an identifier that is never given out again.

use crate::entity::{Entity, Kind, Position};
use vstd::prelude::*;

verus! {

/// Every identifier in `entities` is below `bound`.
pub open spec fn ids_below(entities: Seq<Entity>, bound: nat) -> bool {
    forall|i: int| 0 <= i < entities.len() ==> (#[trigger] entities[i]).id < bound
}

/// No identifier occurs twice in `entities`.
pub open spec fn ids_distinct(entities: Seq<Entity>) -> bool {
    forall|i: int, j: int|
        0 <= i < j < entities.len() ==> (#[trigger] entities[i]).id != (#[trigger] entities[j]).id
}

/// Some entity of `entities` goes by `id`.
pub open spec fn has_id(entities: Seq<Entity>, id: u64) -> bool {
    exists|i: int| 0 <= i < entities.len() && (#[trigger] entities[i]).id == id
}

/// The test that picks the players out of a table.
pub open spec fn player_test() -> spec_fn(Entity) -> bool {
    |entity: Entity| entity.is_player()
}

/// The test that picks the pigs out of a table.
pub open spec fn pig_test() -> spec_fn(Entity) -> bool {
    |entity: Entity| entity.is_pig()
}

/// The players among `entities`, in table order.
pub open spec fn players(entities: Seq<Entity>) -> Seq<Entity> {
    entities.filter(player_test())
}

/// The pigs among `entities`, in table order.
pub open spec fn pigs(entities: Seq<Entity>) -> Seq<Entity> {
    entities.filter(pig_test())
}

/// The entity at `index` is a player, and no other entity is.
pub open spec fn sole_player_at(entities: Seq<Entity>, index: int) -> bool {
    &&& 0 <= index < entities.len()
    &&& entities[index].is_player()
    &&& forall|i: int|
        0 <= i < entities.len() && (#[trigger] entities[i]).is_player() ==> i == index
}

/// Why the table has no single player to offer.
#[derive(Clone, Copy, Debug, PartialEq, Eq)]
pub enum PlayerQueryError {
    /// No entity is a player.
    NoPlayer,
    /// Two or more entities are players.
    MultiplePlayers,
}

/// The entity table.
pub struct World {
    entities: Vec<Entity>,
    next_id: u64,
}

impl View for World {
    type V = Seq<Entity>;

    /// The entities, oldest first.
    closed spec fn view(&self) -> Seq<Entity> {
        self.entities@
    }
}

impl World {
    /// The identifier that the next spawned entity gets.
    pub closed spec fn next_id(&self) -> u64 {
        self.next_id
    }

    /// Identifiers are distinct, and each was given out before.
    pub open spec fn wf(&self) -> bool {
        &&& ids_below(self@, self.next_id() as nat)
        &&& ids_distinct(self@)
    }

    /// Holds of every table that a program can hold.
    #[verifier::type_invariant]
    pub open spec fn inv(&self) -> bool {
        self.wf()
    }

    /// An empty table.
    pub fn new() -> (world: World)
        ensures
            world.wf(),
            world@ == Seq::<Entity>::empty(),
            world.next_id() == 0,
    {
        World { entities: Vec::new(), next_id: 0 }
    }

    /// The number of entities.
    pub fn len(&self) -> (n: usize)
        ensures
            n == self@.len(),
    {
        self.entities.len()
    }

    /// The entities, oldest first.
    pub fn entities(&self) -> (entities: &Vec<Entity>)
        ensures
            self.wf(),
            entities@ == self@,
    {
        proof {
            use_type_invariant(self);
        }
        &self.entities
    }

    /// Whether an identifier is left for one more entity.
    pub fn can_spawn(&self) -> (free: bool)
        ensures
            free == (self.next_id() < u64::MAX),
    {
        self.next_id < u64::MAX
    }

    /// Adds an entity at the end of the table, under a new identifier, and
    /// returns that identifier; does nothing when the identifiers have run out.
    pub fn spawn(&mut self, position: Position, kind: Kind) -> (id: Option<u64>)
        ensures
            final(self).wf(),
            old(self).next_id() < u64::MAX ==> {
                &&& id == Some(old(self).next_id())
                &&& !has_id(old(self)@, old(self).next_id())
                &&& final(self).next_id() == old(self).next_id() + 1
                &&& final(self)@ == old(self)@.push(
                    Entity { id: old(self).next_id(), position, kind },
                )
            },
            old(self).next_id() == u64::MAX ==> {
                &&& id is None
                &&& final(self).next_id() == old(self).next_id()
                &&& final(self)@ == old(self)@
            },
    {
        proof {
            use_type_invariant(&*self);
        }
        if self.next_id == u64::MAX {
            return None;
        }
        let id = self.next_id;
        let mut entities = self.take_entities();
        entities.push(Entity { id, position, kind });
        self.next_id = id + 1;
        self.put_entities(entities);
        Some(id)
    }

    /// Gives the entity at `index` a new position and kind; its identifier
    /// stays. Returns whether there is such an entity.
    pub fn update(&mut self, index: usize, position: Position, kind: Kind) -> (updated: bool)
        ensures
            final(self).wf(),
            final(self).next_id() == old(self).next_id(),
            updated == (index < old(self)@.len()),
            updated ==> final(self)@ == old(self)@.update(
                index as int,
                Entity { id: old(self)@[index as int].id, position, kind },
            ),
            !updated ==> final(self)@ == old(self)@,
    {
        proof {
            use_type_invariant(&*self);
        }
        if index >= self.entities.len() {
            return false;
        }
        let id = self.entities[index].id;
        let mut entities = self.take_entities();
        entities.set(index, Entity { id, position, kind });
        self.put_entities(entities);
        true
    }

    /// Takes the entity at `index` out of the table and returns it; the
    /// others keep their order.
    pub fn remove(&mut self, index: usize) -> (removed: Option<Entity>)
        ensures
            final(self).wf(),
            final(self).next_id() == old(self).next_id(),
            index < old(self)@.len() ==> {
                &&& removed == Some(old(self)@[index as int])
                &&& final(self)@ == old(self)@.remove(index as int)
                &&& !has_id(final(self)@, old(self)@[index as int].id)
            },
            index >= old(self)@.len() ==> {
                &&& removed is None
                &&& final(self)@ == old(self)@
            },
    {
        proof {
            use_type_invariant(&*self);
        }
        if index >= self.entities.len() {
            return None;
        }
        let mut entities = self.take_entities();
        let removed = entities.remove(index);
        self.put_entities(entities);
        Some(removed)
    }

    /// The place in the table of the entity that goes by `id`.
    pub fn index_of(&self, id: u64) -> (found: Option<usize>)
        ensures
            match found {
                Some(index) => index < self@.len() && self@[index as int].id == id,
                None => !has_id(self@, id),
            },
    {
        let mut index: usize = 0;
        while index < self.entities.len()
            invariant
                index <= self.entities@.len(),
                forall|i: int| 0 <= i < index ==> (#[trigger] self.entities@[i]).id != id,
            decreases self.entities@.len() - index,
        {
            if self.entities[index].id == id {
                return Some(index);
            }
            index += 1;
        }
        None
    }

    /// The place in the table of the one player.
    ///
    /// Fails when the table holds no player, and when it holds more than one.
    pub fn single_player(&self) -> (found: Result<usize, PlayerQueryError>)
        ensures
            match found {
                Ok(index) => {
                    &&& players(self@).len() == 1
                    &&& index < self@.len()
                    &&& self@[index as int] == players(self@)[0]
                    &&& sole_player_at(self@, index as int)
                },
                Err(PlayerQueryError::NoPlayer) => players(self@).len() == 0,
                Err(PlayerQueryError::MultiplePlayers) => players(self@).len() >= 2,
            },
    {
        let ghost all = self.entities@;
        let mut found: Option<usize> = None;
        let mut index: usize = 0;
        while index < self.entities.len()
            invariant
                all == self.entities@,
                index <= all.len(),
                match found {
                    Some(first) => {
                        &&& first < index
                        &&& players(all.take(index as int)) == seq![all[first as int]]
                        &&& forall|i: int|
                            0 <= i < index && (#[trigger] all[i]).is_player() ==> i == first
                    },
                    None => {
                        &&& players(all.take(index as int)).len() == 0
                        &&& forall|i: int| 0 <= i < index ==> !(#[trigger] all[i]).is_player()
                    },
                },
            decreases all.len() - index,
        {
            let entity = self.entities[index];
            proof {
                assert(all.take(index + 1) == all.take(index as int).push(all[index as int]));
                all.take(index as int).lemma_filter_push(all[index as int], player_test());
            }
            match entity.kind {
                Kind::Player(_) => {
                    if found.is_some() {
                        proof {
                            all.lemma_filter_take_len(player_test(), index + 1);
                        }
                        return Err(PlayerQueryError::MultiplePlayers);
                    }
                    found = Some(index);
                },
                Kind::Pig(_) => {},
            }
            index += 1;
        }
        proof {
            assert(all.take(index as int) == all);
        }
        match found {
            Some(first) => {
                assert(players(all).len() == 1 && players(all)[0] == all[first as int]);
                assert(sole_player_at(all, first as int));
                Ok(first)
            },
            None => Err(PlayerQueryError::NoPlayer),
        }
    }

    /// The number of pigs.
    pub fn pig_count(&self) -> (count: usize)
        ensures
            count == pigs(self@).len(),
    {
        let ghost all = self.entities@;
        let mut count: usize = 0;
        let mut index: usize = 0;
        while index < self.entities.len()
            invariant
                all == self.entities@,
                index <= all.len(),
                count == pigs(all.take(index as int)).len(),
                count <= index,
            decreases all.len() - index,
        {
            proof {
                assert(all.take(index + 1) == all.take(index as int).push(all[index as int]));
                all.take(index as int).lemma_filter_push(all[index as int], pig_test());
            }
            match self.entities[index].kind {
                Kind::Pig(_) => {
                    count += 1;
                },
                Kind::Player(_) => {},
            }
            index += 1;
        }
        proof {
            assert(all.take(index as int) == all);
        }
        count
    }

    /// Moves the entities out and leaves the table empty.
    fn take_entities(&mut self) -> (entities: Vec<Entity>)
        ensures
            entities@ == old(self)@,
            final(self)@ == Seq::<Entity>::empty(),
            final(self).next_id() == old(self).next_id(),
    {
        let mut entities: Vec<Entity> = Vec::new();
        core::mem::swap(&mut self.entities, &mut entities);
        entities
    }

    /// Moves entities into the empty table.
    fn put_entities(&mut self, entities: Vec<Entity>)
        requires
            old(self)@.len() == 0,
            ids_below(entities@, old(self).next_id() as nat),
            ids_distinct(entities@),
        ensures
            final(self)@ == entities@,
            final(self).next_id() == old(self).next_id(),
    {
        self.entities = entities;
    }
}

/// Where one entity is a player and no other is, the players of the table
/// are that entity alone.
pub proof fn lemma_sole_player(entities: Seq<Entity>, index: int)
    requires
        sole_player_at(entities, index),
    ensures
        players(entities) == seq![entities[index]],
    decreases entities.len(),
{
    let rest = entities.drop_last();
    let last = entities.last();
    assert(entities == rest.push(last));
    rest.lemma_filter_push(last, player_test());
    if index == entities.len() - 1 {
        assert(rest.all(|entity: Entity| !player_test()(entity))) by {
            assert forall|i: int| 0 <= i < rest.len() implies !player_test()(#[trigger] rest[i]) by {
                assert(rest[i] == entities[i]);
            }
        }
        rest.lemma_all_neg_filter_empty(player_test());
        assert(players(rest) == Seq::<Entity>::empty());
        assert(players(entities) == seq![entities[index]]);
    } else {
        assert(sole_player_at(rest, index)) by {
            assert(rest[index] == entities[index]);
            assert forall|i: int| 0 <= i < rest.len() && (#[trigger] rest[i]).is_player() implies i
                == index by {
                assert(rest[i] == entities[i]);
            }
        }
        lemma_sole_player(rest, index);
        assert(!last.is_player());
    }
}

} // verus!
