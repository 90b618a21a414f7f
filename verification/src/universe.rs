use vstd::prelude::*;
use std::collections::BTreeMap;

verus! {

broadcast use
    vstd::std_specs::btree::group_btree_axioms,
    vstd::laws_cmp::group_laws_cmp;

/// A unique identifier for an entity in the simulation.
#[derive(Debug, Clone, Copy, PartialEq, Eq, PartialOrd, Ord, Hash)]
pub struct EntityId(pub u128);

/// Relies on rand::random: a value drawn from the thread-local generator.
/// Nothing is promised of the result: it depends on the generator's state.
#[verifier::external_body]
fn random_u128() -> u128 {
    rand::random()
}

impl EntityId {
    /// Draws a fresh random identifier. Uniqueness is probabilistic, not
    /// guaranteed: the identifier space is large enough that collisions are
    /// not a practical concern.
    pub fn generate() -> Self {
        EntityId(random_u128())
    }
}

/// Relies on std::collections::BTreeMap::get_mut, which vstd leaves
/// unspecified: a mutable borrow of the value stored under a present key;
/// writing through the borrow updates that one entry.
#[verifier::external_body]
fn btree_get_mut<'a, T>(map: &'a mut BTreeMap<u128, T>, key: u128) -> (r: &'a mut T)
    requires
        old(map)@.contains_key(key),
    ensures
        *r == old(map)@[key],
        final(map)@ == old(map)@.insert(key, *final(r)),
{
    map.get_mut(&key).unwrap()
}

/// The entity store of a universe: each entity keyed by its identifier, with
/// one designated "user" entity that is always present and can never be
/// removed. The motion state attached to each entity is the caller's choice
/// of payload type.
#[derive(Debug, Clone)]
pub struct EntityRegistry<T> {
    entities: BTreeMap<u128, T>,
    user_entity_id: u128,
}

impl<T> View for EntityRegistry<T> {
    type V = Map<u128, T>;

    /// The stored entities, as a map from raw identifier to payload.
    closed spec fn view(&self) -> Map<u128, T> {
        self.entities@
    }
}

impl<T> EntityRegistry<T> {
    /// The raw identifier of the designated user entity.
    pub closed spec fn user_id(&self) -> u128 {
        self.user_entity_id
    }

    /// The user entity is always present; constructors establish this and
    /// every method preserves it.
    pub open spec fn wf(&self) -> bool {
        self@.contains_key(self.user_id())
    }

    /// Creates a registry holding only the user entity, under a freshly
    /// drawn identifier.
    pub fn new(user_entity: T) -> (r: Self)
        ensures
            r.wf(),
            r@ == Map::<u128, T>::empty().insert(r.user_id(), user_entity),
    {
        let user_entity_id = EntityId::generate();
        let mut entities: BTreeMap<u128, T> = BTreeMap::new();
        entities.insert(user_entity_id.0, user_entity);
        EntityRegistry { entities, user_entity_id: user_entity_id.0 }
    }

    /// The identifier of the designated user entity.
    pub fn user_entity_id(&self) -> (r: EntityId)
        ensures
            r.0 == self.user_id(),
    {
        EntityId(self.user_entity_id)
    }

    /// Borrows the user entity.
    pub fn get_user_entity(&self) -> (r: &T)
        requires
            self.wf(),
        ensures
            *r == self@[self.user_id()],
    {
        self.entities.get(&self.user_entity_id).unwrap()
    }

    /// Mutably borrows the user entity.
    pub fn get_user_entity_mut(&mut self) -> (r: &mut T)
        requires
            old(self).wf(),
        ensures
            final(self).wf(),
            final(self).user_id() == old(self).user_id(),
            *r == old(self)@[old(self).user_id()],
            final(self)@ == old(self)@.insert(old(self).user_id(), *final(r)),
    {
        btree_get_mut(&mut self.entities, self.user_entity_id)
    }

    /// Stores an entity under a freshly drawn identifier and returns that
    /// identifier.
    pub fn insert_entity(&mut self, entity: T) -> (r: EntityId)
        requires
            old(self).wf(),
        ensures
            final(self).wf(),
            final(self).user_id() == old(self).user_id(),
            final(self)@ == old(self)@.insert(r.0, entity),
    {
        let entity_id = EntityId::generate();
        self.entities.insert(entity_id.0, entity);
        entity_id
    }

    /// Whether an entity is stored under `entity_id`.
    pub fn contains_entity(&self, entity_id: EntityId) -> (r: bool)
        ensures
            r == self@.contains_key(entity_id.0),
    {
        self.entities.contains_key(&entity_id.0)
    }

    /// Borrows the entity stored under `entity_id`, if any.
    pub fn get_entity(&self, entity_id: EntityId) -> (r: Option<&T>)
        ensures
            r is Some <==> self@.contains_key(entity_id.0),
            r matches Some(entity) ==> *entity == self@[entity_id.0],
    {
        self.entities.get(&entity_id.0)
    }

    /// Mutably borrows the entity stored under `entity_id`, which must be
    /// present.
    pub fn get_entity_mut(&mut self, entity_id: EntityId) -> (r: &mut T)
        requires
            old(self).wf(),
            old(self)@.contains_key(entity_id.0),
        ensures
            final(self).wf(),
            final(self).user_id() == old(self).user_id(),
            *r == old(self)@[entity_id.0],
            final(self)@ == old(self)@.insert(entity_id.0, *final(r)),
    {
        btree_get_mut(&mut self.entities, entity_id.0)
    }

    /// The identifiers of every stored entity, each exactly once.
    pub fn entity_ids(&self) -> (r: Vec<EntityId>)
        ensures
            r@.len() == self@.dom().len(),
            forall|i: int| 0 <= i < r@.len() ==> self@.contains_key(#[trigger] r@[i].0),
            forall|k: u128|
                #[trigger] self@.contains_key(k)
                    ==> exists|i: int| 0 <= i < r@.len() && r@[i].0 == k,
            forall|i: int, j: int| 0 <= i < j < r@.len() ==> r@[i].0 != r@[j].0,
    {
        let mut ids: Vec<EntityId> = Vec::new();
        for k in it: self.entities.keys()
            invariant
                ids@.len() == it.index(),
                it.seq().unref().to_set() == self@.dom(),
                it.seq().len() == self@.dom().len(),
                it.seq().no_duplicates(),
                forall|i: int| 0 <= i < ids@.len() ==> ids@[i].0 == #[trigger] it.seq().unref()[i],
                forall|i: int| 0 <= i < ids@.len() ==> self@.contains_key(#[trigger] ids@[i].0),
                forall|i: int, j: int| 0 <= i < j < ids@.len() ==> ids@[i].0 != ids@[j].0,
        {
            ids.push(EntityId(*k));
            proof {
                let pos = it.index();
                assert(ids@[pos].0 == it.seq().unref()[pos]);
                assert(it.seq().unref().to_set().contains(it.seq().unref()[pos]));
                assert forall|i: int| 0 <= i < pos implies ids@[i].0 != ids@[pos].0 by {
                    assert(ids@[i].0 == it.seq().unref()[i]);
                    assert(it.seq()[i] != it.seq()[pos]);
                }
            }
        }
        ids
    }

    /// Removes and returns the entity stored under `entity_id`; the user
    /// entity is refused, and an absent identifier yields `None`.
    pub fn remove_entity(&mut self, entity_id: EntityId) -> (r: Option<T>)
        requires
            old(self).wf(),
        ensures
            final(self).wf(),
            final(self).user_id() == old(self).user_id(),
            entity_id.0 == old(self).user_id() ==> r is None && final(self)@ == old(self)@,
            entity_id.0 != old(self).user_id() ==> {
                &&& final(self)@ == old(self)@.remove(entity_id.0)
                &&& r == (if old(self)@.contains_key(entity_id.0) {
                    Some(old(self)@[entity_id.0])
                } else {
                    None::<T>
                })
            },
    {
        if entity_id.0 == self.user_entity_id {
            return None;
        }

        self.entities.remove(&entity_id.0)
    }
}

} // verus!
