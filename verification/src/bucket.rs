//! The pool: a growing row of slots, each vacant or holding one entity, and
//! the stack of vacated ids that creation draws from first.

use crate::entity::Entity;
use crate::entity::EntityId;
use crate::component::Component;
use std::any::TypeId;
use vstd::prelude::*;

verus! {

/// What a pool is, as plain data: the slots in order of id, and the vacated
/// ids in the order in which they were given up.
pub struct PoolView {
    pub slots: Seq<Option<Entity>>,
    pub free_ids: Seq<EntityId>,
}

impl PoolView {
    /// The pool with no slot at all.
    pub open spec fn empty() -> PoolView {
        PoolView { slots: Seq::empty(), free_ids: Seq::empty() }
    }

    /// Whether `id` names a slot that holds an entity.
    pub open spec fn is_live(self, id: EntityId) -> bool {
        id < self.slots.len() && self.slots[id as int] is Some
    }

    /// Every vacated id names a slot. Creation relies on this and nothing
    /// else.
    pub open spec fn free_in_bounds(self) -> bool {
        forall|j: int|
            0 <= j < self.free_ids.len() ==> (#[trigger] self.free_ids[j]) < self.slots.len()
    }

    /// The id that the next creation hands out: the one vacated last, or,
    /// with none vacated, the number of slots.
    pub open spec fn next_id(self) -> int {
        if self.free_ids.len() > 0 {
            self.free_ids.last() as int
        } else {
            self.slots.len() as int
        }
    }

    /// The pool after a creation that left `e` in the slot `next_id`.
    pub open spec fn created(self, e: Entity) -> PoolView {
        if self.free_ids.len() > 0 {
            PoolView {
                slots: self.slots.update(self.free_ids.last() as int, Some(e)),
                free_ids: self.free_ids.drop_last(),
            }
        } else {
            PoolView { slots: self.slots.push(Some(e)), free_ids: self.free_ids }
        }
    }

    /// The pool after the deletion of `id`: the slot is vacant and `id` is
    /// the first to be handed out again, whatever the slot held before.
    pub open spec fn deleted(self, id: EntityId) -> PoolView {
        PoolView { slots: self.slots.update(id as int, None), free_ids: self.free_ids.push(id) }
    }

    /// The pool after one creation for each entity of `es`, in order.
    pub open spec fn created_all(self, es: Seq<Entity>) -> PoolView
        decreases es.len(),
    {
        if es.len() == 0 {
            self
        } else {
            self.created_all(es.drop_last()).created(es.last())
        }
    }

    /// The pool's bookkeeping is sound: the vacated ids are exactly the
    /// vacant slots, each listed once, and every entity sits in the slot of
    /// its own id.
    pub open spec fn wf(self) -> bool {
        &&& forall|j: int|
            0 <= j < self.free_ids.len() ==> (#[trigger] self.free_ids[j]) < self.slots.len()
                && self.slots[self.free_ids[j] as int] is None
        &&& forall|i: int, j: int|
            0 <= i < j < self.free_ids.len() ==> self.free_ids[i] != self.free_ids[j]
        &&& forall|i: int|
            0 <= i < self.slots.len() && (#[trigger] self.slots[i]) is Some
                ==> self.slots[i].unwrap().id() == i
        &&& forall|i: int|
            0 <= i < self.slots.len() && (#[trigger] self.slots[i]) is None ==> self.lists(i)
    }

    /// Whether `id` is among the vacated ids.
    pub open spec fn lists(self, id: int) -> bool {
        exists|j: int| 0 <= j < self.free_ids.len() && #[trigger] self.free_ids[j] == id
    }
}

/// The pool of entities.
#[derive(Debug)]
pub struct Bucket {
    free_ids: Vec<EntityId>,
    entities: Vec<Option<Entity>>,
}

impl View for Bucket {
    type V = PoolView;

    closed spec fn view(&self) -> PoolView {
        PoolView { slots: self.entities@, free_ids: self.free_ids@ }
    }
}

impl Bucket {
    /// A pool with no slot at all.
    pub fn new() -> (b: Bucket)
        ensures
            b@ == PoolView::empty(),
    {
        Bucket { entities: Vec::new(), free_ids: Vec::new() }
    }

    /// Makes an entity with no components in the slot `next_id` and hands it
    /// out for writing. What the caller leaves behind the reference is what
    /// the slot holds from then on. An id that comes back into use is not
    /// told apart from its earlier use.
    pub fn create_entity(&mut self) -> (r: Result<&mut Entity, &str>)
        requires
            old(self)@.free_in_bounds(),
        ensures
            match r {
                Ok(e) => e.id() == old(self)@.next_id()
                    && e.store() == Map::<TypeId, Component>::empty() && e.wf()
                    && final(self)@ == old(self)@.created(*final(e)),
                Err(_) => false,
            },
            final(self)@.free_in_bounds(),
    {
        let id: EntityId;
        match self.free_ids.pop() {
            Some(index) => {
                assert(index == old(self)@.free_ids[old(self)@.free_ids.len() - 1]);
                id = index;
            },
            None => {
                id = self.entities.len();
                self.entities.push(None);
            },
        }
        let entity = Entity::new(id);
        self.entities[id] = Some(entity);
        proof {
            let mid = self.entities@;
            let was = old(self).entities@;
            let reused = old(self).free_ids@.len() > 0;
            assert forall|x: Option<Entity>| #[trigger]
                mid.update(id as int, x) == (if reused {
                    was.update(id as int, x)
                } else {
                    was.push(x)
                }) by {
                if reused {
                    assert(mid.update(id as int, x) =~= was.update(id as int, x));
                } else {
                    assert(mid.update(id as int, x) =~= was.push(x));
                }
            }
        }
        match &mut self.entities[id] {
            Some(ent) => Ok(ent),
            None => Err("Failed to create entity!"),
        }
    }

    /// Vacates the slot `id` and puts `id` on top of the vacated ids, whether
    /// or not the slot held an entity: deleting a vacant slot is not
    /// detected, and lists its id once more. An `id` that names no slot is
    /// refused and changes nothing.
    pub fn delete_entity_by_id(&mut self, id: EntityId) -> (r: Result<(), &str>)
        ensures
            r is Ok <==> id < old(self)@.slots.len(),
            r is Ok ==> final(self)@ == old(self)@.deleted(id),
            r is Err ==> final(self)@ == old(self)@ && r == Err::<(), &str>(
                "Could not delete entity",
            ),
    {
        if id < self.entities.len() {
            self.entities[id] = None;
            self.free_ids.push(id);
            return Ok(());
        }
        return Err("Could not delete entity");
    }

    /// The vacated ids, the one to be handed out next at the end.
    pub fn free_ids(&self) -> (r: &Vec<EntityId>)
        ensures
            r@ == self@.free_ids,
    {
        &self.free_ids
    }

    /// Every slot, vacant ones included, for writing.
    pub fn get_all_entities(&mut self) -> (r: &mut Vec<Option<Entity>>)
        ensures
            r@ == old(self)@.slots,
            final(self)@ == (PoolView { slots: final(r)@, free_ids: old(self)@.free_ids }),
    {
        return &mut self.entities;
    }

    /// The entity in the slot `id`, for writing; nothing if `id` names no
    /// slot or a vacant one.
    pub fn get_entity_by_id(&mut self, id: EntityId) -> (r: Option<&mut Entity>)
        ensures
            match r {
                Some(e) => old(self)@.is_live(id) && *e == old(self)@.slots[id as int].unwrap()
                    && (old(self)@.wf() ==> e.id() == id) && final(self)@ == (PoolView {
                    slots: old(self)@.slots.update(id as int, Some(*final(e))),
                    free_ids: old(self)@.free_ids,
                }),
                None => !old(self)@.is_live(id) && final(self)@ == old(self)@,
            },
    {
        if id < self.entities.len() {
            assert(self.entities@.update(id as int, self.entities@[id as int]) =~= self.entities@);
            return self.entities[id].as_mut();
        }
        return None;
    }
}

/// The empty pool's bookkeeping is sound.
pub proof fn law_empty_is_sound()
    ensures
        PoolView::empty().wf(),
{
}

/// Sound bookkeeping keeps every vacated id within the slots, which is what
/// creation asks for.
pub proof fn law_sound_allows_creation(v: PoolView)
    requires
        v.wf(),
    ensures
        v.free_in_bounds(),
{
}

/// A creation keeps the bookkeeping sound, as long as the entity left in the
/// slot still carries the id it was made with.
pub proof fn law_creation_keeps_sound(v: PoolView, e: Entity)
    requires
        v.wf(),
        e.id() == v.next_id(),
    ensures
        v.created(e).wf(),
        v.created(e).is_live(e.id()),
{
    let w = v.created(e);
    if v.free_ids.len() > 0 {
        let last = v.free_ids.len() - 1;
        let k = v.free_ids[last];
        assert forall|i: int|
            0 <= i < w.slots.len() && (#[trigger] w.slots[i]) is None implies w.lists(i) by {
            assert(i != k as int);
            assert(v.slots[i] is None);
            assert(v.lists(i));
            let j = choose|j: int| 0 <= j < v.free_ids.len() && #[trigger] v.free_ids[j] == i;
            assert(j != last);
            assert(w.free_ids[j] == i);
        }
        assert forall|j: int| 0 <= j < w.free_ids.len() implies (#[trigger] w.free_ids[j])
            < w.slots.len() && w.slots[w.free_ids[j] as int] is None by {
            assert(v.free_ids[j] != v.free_ids[last]);
        }
    } else {
        assert forall|i: int|
            0 <= i < w.slots.len() && (#[trigger] w.slots[i]) is None implies w.lists(i) by {
            assert(v.slots[i] is None);
        }
    }
}

/// The deletion of a live entity keeps the bookkeeping sound. (Deleting a
/// vacant slot lists its id a second time, and does not.)
pub proof fn law_deletion_keeps_sound(v: PoolView, id: EntityId)
    requires
        v.wf(),
        v.is_live(id),
    ensures
        v.deleted(id).wf(),
{
    let w = v.deleted(id);
    let n = v.free_ids.len() as int;
    assert(w.free_ids[n] == id);
    assert forall|i: int|
        0 <= i < w.slots.len() && (#[trigger] w.slots[i]) is None implies w.lists(i) by {
        if i != id {
            assert(v.slots[i] is None);
            assert(v.lists(i));
            let j = choose|j: int| 0 <= j < v.free_ids.len() && #[trigger] v.free_ids[j] == i;
            assert(w.free_ids[j] == i);
        }
    }
    assert forall|j: int| 0 <= j < w.free_ids.len() implies (#[trigger] w.free_ids[j])
        < w.slots.len() && w.slots[w.free_ids[j] as int] is None by {
        if j < n {
            assert(v.free_ids[j] != id);
        }
    }
    assert forall|i: int, j: int| 0 <= i < j < w.free_ids.len() implies w.free_ids[i]
        != w.free_ids[j] by {
        if j == n {
            assert(v.slots[v.free_ids[i] as int] is None);
        }
    }
}

/// Creations from the empty pool hand out the ids 0, 1, 2, ... in order:
/// after one creation for each entity of `es`, the slots hold exactly those
/// entities in that order, no id is vacated, and the next id is the count.
pub proof fn law_fresh_ids_count_up(es: Seq<Entity>)
    ensures
        PoolView::empty().created_all(es).next_id() == es.len(),
        PoolView::empty().created_all(es).slots == es.map_values(|e: Entity| Some(e)),
        PoolView::empty().created_all(es).free_ids == Seq::<EntityId>::empty(),
    decreases es.len(),
{
    if es.len() > 0 {
        law_fresh_ids_count_up(es.drop_last());
        let before = PoolView::empty().created_all(es.drop_last());
        assert(before.created(es.last()).slots =~= es.map_values(|e: Entity| Some(e)));
    } else {
        assert(PoolView::empty().slots =~= es.map_values(|e: Entity| Some(e)));
    }
}

/// The id vacated last is the first to be handed out again: a creation right
/// after the deletion of `id` fills that very slot and leaves the vacated ids
/// as they were before the deletion.
pub proof fn law_deleted_id_is_reused(v: PoolView, id: EntityId, e: Entity)
    requires
        id < v.slots.len(),
    ensures
        v.deleted(id).next_id() == id,
        v.deleted(id).created(e).slots == v.slots.update(id as int, Some(e)),
        v.deleted(id).created(e).free_ids == v.free_ids,
{
    let w = v.deleted(id);
    assert(w.free_ids.last() == id);
    assert(w.created(e).slots =~= v.slots.update(id as int, Some(e)));
    assert(w.created(e).free_ids =~= v.free_ids);
}

/// An id is not live when no slot was ever made for it, nor right after its
/// deletion.
pub proof fn law_unused_or_deleted_is_not_live(v: PoolView, id: EntityId)
    ensures
        id >= v.slots.len() ==> !v.is_live(id),
        id < v.slots.len() ==> !v.deleted(id).is_live(id),
{
}

/// In a pool with sound bookkeeping the entity found under a live id carries
/// that id.
pub proof fn law_live_entity_carries_its_id(v: PoolView, id: EntityId)
    requires
        v.wf(),
        v.is_live(id),
    ensures
        v.slots[id as int].unwrap().id() == id,
{
}

} // verus!
