//! Component storage keyed by entity, and joins over several storages.
//!
//! A storage keeps the data of one component type in a vector indexed by
//! entity and, beside it, a bit set of the entities that have an entry. A join
//! walks one bit set and keeps the entities that the other storages hold too.

use vstd::prelude::*;
use specs::BitSet;
use specs::hibitset::BitSetLike;

verus! {

/// An entity: an opaque identifier that components attach to.
pub type Entity = u32;

/// Number of entities a storage can address. Every entity lies below it.
pub const MAX_ENTITIES: u32 = 1048576;

/// The bit set of `hibitset`, which `specs` hands on as `specs::BitSet`.
/// Nothing inside it is visible to the proofs.
#[verifier::external_type_specification]
#[verifier::external_body]
pub struct ExBitSet(specs::BitSet);

/// The entities that a bit set holds.
pub uninterp spec fn mask_ids(mask: BitSet) -> Set<Entity>;

/// Calls `BitSet::new`: the new set holds nothing.
#[verifier::external_body]
fn mask_new() -> (mask: BitSet)
    ensures
        mask_ids(mask) == Set::<Entity>::empty(),
{
    BitSet::new()
}

/// Calls `BitSet::add`: the entity is in the set afterwards, nothing else
/// changes, and the result tells whether it was there before. Left out are
/// the entities from `MAX_ENTITIES` on: the bit set panics on an index
/// beyond its range, which on a 32-bit machine ends there.
#[verifier::external_body]
fn mask_add(mask: &mut BitSet, id: Entity) -> (was_set: bool)
    requires
        id < MAX_ENTITIES,
    ensures
        was_set == mask_ids(*old(mask)).contains(id),
        mask_ids(*final(mask)) == mask_ids(*old(mask)).insert(id),
{
    mask.add(id)
}

/// Calls `BitSet::remove`: the entity is not in the set afterwards, nothing
/// else changes, and the result tells whether it was there before.
#[verifier::external_body]
fn mask_remove(mask: &mut BitSet, id: Entity) -> (was_set: bool)
    ensures
        was_set == mask_ids(*old(mask)).contains(id),
        mask_ids(*final(mask)) == mask_ids(*old(mask)).remove(id),
{
    mask.remove(id)
}

/// Calls `BitSet::contains`: whether the entity is in the set.
#[verifier::external_body]
fn mask_contains(mask: &BitSet, id: Entity) -> (found: bool)
    ensures
        found == mask_ids(*mask).contains(id),
{
    mask.contains(id)
}

/// Calls `BitSetLike::iter` and collects what it yields: every entity of
/// the set once, smallest first.
#[verifier::external_body]
fn mask_members(mask: &BitSet) -> (ids: Vec<Entity>)
    ensures
        forall|i: int, j: int| 0 <= i < j < ids@.len() ==> ids@[i] < ids@[j],
        forall|id: Entity| ids@.contains(id) <==> mask_ids(*mask).contains(id),
{
    mask.iter().collect()
}

/// The data of one component type, by entity.
pub struct Storage<T> {
    mask: BitSet,
    slots: Vec<Option<T>>,
}

impl<T> Storage<T> {
    /// The bit set holds exactly the entities whose slot is filled.
    pub closed spec fn wf(&self) -> bool {
        &&& self.slots@.len() <= MAX_ENTITIES
        &&& forall|id: Entity|
            mask_ids(self.mask).contains(id) <==> (id < self.slots@.len()
                && self.slots@[id as int] is Some)
    }

    /// The storage as a map from each entity that has an entry to its data.
    pub closed spec fn view(&self) -> Map<Entity, T> {
        Map::new(
            |id: Entity| id < self.slots@.len() && self.slots@[id as int] is Some,
            |id: Entity| self.slots@[id as int].unwrap(),
        )
    }

    /// In a well-formed storage every entity with an entry lies below
    /// `MAX_ENTITIES`.
    pub proof fn lemma_entities_bounded(&self)
        requires
            self.wf(),
        ensures
            forall|id: Entity| self@.contains_key(id) ==> id < MAX_ENTITIES,
    {
    }

    /// A storage without entries.
    pub fn new() -> (s: Storage<T>)
        ensures
            s.wf(),
            s@ == Map::<Entity, T>::empty(),
    {
        let s = Storage { mask: mask_new(), slots: Vec::new() };
        assert(s@ =~= Map::<Entity, T>::empty());
        s
    }

    /// Whether the entity has an entry.
    pub fn contains(&self, id: Entity) -> (found: bool)
        requires
            self.wf(),
        ensures
            found == self@.contains_key(id),
    {
        mask_contains(&self.mask, id)
    }

    /// The entry of the entity, if it has one.
    pub fn get(&self, id: Entity) -> (entry: Option<&T>)
        requires
            self.wf(),
        ensures
            entry is Some <==> self@.contains_key(id),
            entry is Some ==> *entry.unwrap() == self@[id],
    {
        if mask_contains(&self.mask, id) {
            self.slots[id as usize].as_ref()
        } else {
            None
        }
    }

    /// Gives the entity the entry `value` and returns the entry it had.
    pub fn insert(&mut self, id: Entity, value: T) -> (previous: Option<T>)
        requires
            old(self).wf(),
            id < MAX_ENTITIES,
        ensures
            final(self).wf(),
            final(self)@ == old(self)@.insert(id, value),
            previous is Some <==> old(self)@.contains_key(id),
            previous is Some ==> previous.unwrap() == old(self)@[id],
    {
        while self.slots.len() <= id as usize
            invariant
                self.wf(),
                self@ == old(self)@,
                id < MAX_ENTITIES,
            decreases MAX_ENTITIES - self.slots.len(),
        {
            let ghost before = *self;
            self.slots.push(None);
            assert(self@ =~= before@);
        }
        let mut slot: Option<T> = Some(value);
        self.slots.set_and_swap(id as usize, &mut slot);
        let _ = mask_add(&mut self.mask, id);
        assert(self@ =~= old(self)@.insert(id, value));
        slot
    }

    /// Takes the entry of the entity out of the storage and returns it.
    pub fn remove(&mut self, id: Entity) -> (previous: Option<T>)
        requires
            old(self).wf(),
        ensures
            final(self).wf(),
            final(self)@ == old(self)@.remove(id),
            previous is Some <==> old(self)@.contains_key(id),
            previous is Some ==> previous.unwrap() == old(self)@[id],
    {
        if mask_remove(&mut self.mask, id) {
            let mut slot: Option<T> = None;
            self.slots.set_and_swap(id as usize, &mut slot);
            assert(self@ =~= old(self)@.remove(id));
            slot
        } else {
            assert(self@ =~= old(self)@.remove(id));
            None
        }
    }

    /// The entities that have an entry, each once, smallest first.
    pub fn entities(&self) -> (ids: Vec<Entity>)
        requires
            self.wf(),
        ensures
            ascending(ids@),
            forall|id: Entity| ids@.contains(id) <==> self@.contains_key(id),
    {
        mask_members(&self.mask)
    }
}

/// Each element is smaller than every later one, so none occurs twice.
pub open spec fn ascending(ids: Seq<Entity>) -> bool {
    forall|i: int, j: int| 0 <= i < j < ids.len() ==> ids[i] < ids[j]
}

/// Keeps, in their order, the entities of `ids` that have an entry in
/// `storage`.
pub fn retain_present<T>(ids: &Vec<Entity>, storage: &Storage<T>) -> (kept: Vec<Entity>)
    requires
        storage.wf(),
        ascending(ids@),
    ensures
        ascending(kept@),
        forall|id: Entity|
            kept@.contains(id) <==> (ids@.contains(id) && storage@.contains_key(id)),
{
    let mut kept: Vec<Entity> = Vec::new();
    let mut i: usize = 0;
    while i < ids.len()
        invariant
            0 <= i <= ids@.len(),
            storage.wf(),
            ascending(ids@),
            ascending(kept@),
            forall|k: int|
                0 <= k < kept@.len() ==> exists|j: int|
                    0 <= j < i && ids@[j] == #[trigger] kept@[k],
            forall|k: int| 0 <= k < kept@.len() ==> storage@.contains_key(#[trigger] kept@[k]),
            forall|j: int|
                0 <= j < i && storage@.contains_key(#[trigger] ids@[j]) ==> kept@.contains(
                    ids@[j],
                ),
        decreases ids@.len() - i,
    {
        let id: Entity = ids[i];
        if storage.contains(id) {
            let ghost before = kept@;
            kept.push(id);
            assert(kept@[before.len() as int] == ids@[i as int]);
            assert forall|j: int|
                0 <= j < i + 1 && storage@.contains_key(#[trigger] ids@[j]) implies kept@.contains(
                ids@[j],
            ) by {
                if j < i {
                    let k = choose|k: int| 0 <= k < before.len() && before[k] == ids@[j];
                    assert(kept@[k] == ids@[j]);
                } else {
                    assert(kept@[before.len() as int] == ids@[j]);
                }
            }
        }
        i = i + 1;
    }
    kept
}

/// The entities that have an entry in both storages, each once, smallest
/// first.
pub fn join2<A, B>(a: &Storage<A>, b: &Storage<B>) -> (ids: Vec<Entity>)
    requires
        a.wf(),
        b.wf(),
    ensures
        ascending(ids@),
        forall|id: Entity|
            ids@.contains(id) <==> (a@.contains_key(id) && b@.contains_key(id)),
{
    let candidates = a.entities();
    retain_present(&candidates, b)
}

/// The entities that have an entry in all three storages, each once,
/// smallest first.
pub fn join3<A, B, C>(a: &Storage<A>, b: &Storage<B>, c: &Storage<C>) -> (ids: Vec<Entity>)
    requires
        a.wf(),
        b.wf(),
        c.wf(),
    ensures
        ascending(ids@),
        forall|id: Entity|
            ids@.contains(id) <==> (a@.contains_key(id) && b@.contains_key(id)
                && c@.contains_key(id)),
{
    let both = join2(a, b);
    retain_present(&both, c)
}

} // verus!
