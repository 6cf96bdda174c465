//! An entity: an id and at most one component of each type.
//!
//! The components are kept in a short row of slots, one per type, searched
//! by the type's run-time identity. To the outside the row is a map from
//! that identity to the component ([`Entity::store`]); reading it as a
//! particular type is [`Entity::component`].

use crate::component::boxed;
use crate::component::cast_mut;
use crate::component::cast_ref;
use crate::component::payload;
use crate::component::same_type;
use crate::component::type_id_of;
use crate::component::type_key;
use crate::component::Component;
use std::any::TypeId;
use vstd::prelude::*;

verus! {

/// The number of the slot an entity lives in. Ids of deleted entities are
/// handed out again.
pub type EntityId = usize;

/// One stored component, filed under the identity of its type.
#[derive(Debug)]
struct Slot {
    key: TypeId,
    value: Component,
}

/// Index of the last slot filed under `k`, if there is one.
spec fn lookup(slots: Seq<Slot>, k: TypeId) -> Option<int>
    decreases slots.len(),
{
    if slots.len() == 0 {
        None
    } else if slots.last().key == k {
        Some(slots.len() - 1)
    } else {
        lookup(slots.drop_last(), k)
    }
}

/// The slots read as a map: each key goes to the component that `lookup`
/// finds for it.
spec fn store_of(slots: Seq<Slot>) -> Map<TypeId, Component> {
    Map::new(
        |k: TypeId| lookup(slots, k) is Some,
        |k: TypeId| slots[lookup(slots, k).unwrap()].value,
    )
}

/// No two slots are filed under the same key.
spec fn keys_distinct(slots: Seq<Slot>) -> bool {
    forall|i: int, j: int| 0 <= i < j < slots.len() ==> slots[i].key != slots[j].key
}

/// The component of type `T` in a store, read as a `T`.
pub open spec fn component_in<T: 'static>(store: Map<TypeId, Component>) -> Option<T> {
    if store.contains_key(type_key::<T>()) {
        payload::<T>(store[type_key::<T>()])
    } else {
        None
    }
}

/// What `lookup` finds is a slot under `k`; where it finds none, there is
/// none.
proof fn lemma_lookup_in_range(slots: Seq<Slot>, k: TypeId)
    ensures
        match lookup(slots, k) {
            Some(i) => 0 <= i < slots.len() && slots[i].key == k,
            None => forall|j: int| 0 <= j < slots.len() ==> slots[j].key != k,
        },
    decreases slots.len(),
{
    if slots.len() > 0 && slots.last().key != k {
        let front = slots.drop_last();
        lemma_lookup_in_range(front, k);
        if lookup(front, k) is None {
            assert forall|j: int| 0 <= j < slots.len() implies slots[j].key != k by {
                if j < front.len() {
                    assert(front[j].key != k);
                }
            }
        }
    }
}

/// `lookup` reads the keys only.
proof fn lemma_lookup_by_keys(a: Seq<Slot>, b: Seq<Slot>, k: TypeId)
    requires
        a.len() == b.len(),
        forall|j: int| 0 <= j < a.len() ==> a[j].key == b[j].key,
    ensures
        lookup(a, k) == lookup(b, k),
    decreases a.len(),
{
    if a.len() > 0 && a.last().key != k {
        lemma_lookup_by_keys(a.drop_last(), b.drop_last(), k);
    }
}

/// Writing a new value into the slot that `lookup` finds for `k` is an
/// insertion under `k`.
proof fn lemma_store_after_overwrite(slots: Seq<Slot>, i: int, k: TypeId, value: Component)
    requires
        lookup(slots, k) == Some(i),
    ensures
        0 <= i < slots.len(),
        store_of(slots.update(i, Slot { key: k, value })) == store_of(slots).insert(k, value),
{
    lemma_lookup_in_range(slots, k);
    let after = slots.update(i, Slot { key: k, value });
    assert forall|q: TypeId| lookup(after, q) == lookup(slots, q) by {
        lemma_lookup_by_keys(after, slots, q);
    }
    assert forall|q: TypeId| q != k && lookup(slots, q) is Some implies after[lookup(
        slots,
        q,
    ).unwrap()] == slots[lookup(slots, q).unwrap()] by {
        lemma_lookup_in_range(slots, q);
    }
    assert(store_of(after) =~= store_of(slots).insert(k, value));
}

/// A new value in a slot that keeps its key leaves the keys distinct.
proof fn lemma_distinct_after_overwrite(slots: Seq<Slot>, i: int, value: Component)
    requires
        keys_distinct(slots),
        0 <= i < slots.len(),
    ensures
        keys_distinct(slots.update(i, Slot { key: slots[i].key, value })),
{
    let after = slots.update(i, Slot { key: slots[i].key, value });
    assert forall|a: int, b: int| 0 <= a < b < after.len() implies after[a].key
        != after[b].key by {
        assert(after[a].key == slots[a].key);
        assert(after[b].key == slots[b].key);
    }
}

/// Appending a slot under `k` is an insertion under `k`.
proof fn lemma_store_after_push(slots: Seq<Slot>, k: TypeId, value: Component)
    ensures
        store_of(slots.push(Slot { key: k, value })) == store_of(slots).insert(k, value),
{
    let after = slots.push(Slot { key: k, value });
    assert(after.drop_last() =~= slots);
    assert forall|q: TypeId| q != k implies lookup(after, q) == lookup(slots, q) by {}
    assert forall|q: TypeId| q != k && lookup(slots, q) is Some implies after[lookup(
        slots,
        q,
    ).unwrap()] == slots[lookup(slots, q).unwrap()] by {
        lemma_lookup_in_range(slots, q);
    }
    assert(store_of(after) =~= store_of(slots).insert(k, value));
}

/// An id together with the components attached to it.
#[derive(Debug)]
pub struct Entity {
    index: EntityId,
    slots: Vec<Slot>,
}

impl Entity {
    /// The id the entity was made with.
    pub closed spec fn id(&self) -> EntityId {
        self.index
    }

    /// The components the entity holds, by the identity of their types.
    pub closed spec fn store(&self) -> Map<TypeId, Component> {
        store_of(self.slots@)
    }

    /// The entity's component of type `T`, if it has one.
    pub open spec fn component<T: 'static>(&self) -> Option<T> {
        component_in::<T>(self.store())
    }

    /// The entity keeps at most one component under each key, so that
    /// nothing lingers behind the one that `store` shows.
    pub closed spec fn wf(&self) -> bool {
        keys_distinct(self.slots@)
    }

    /// An entity with the given id and no components.
    pub fn new(id: EntityId) -> (e: Entity)
        ensures
            e.id() == id,
            e.store() == Map::<TypeId, Component>::empty(),
            e.wf(),
    {
        let e = Entity { index: id, slots: Vec::new() };
        assert(e.store() =~= Map::<TypeId, Component>::empty());
        e
    }

    /// The id the entity was made with.
    pub fn index(&self) -> (id: EntityId)
        ensures
            id == self.id(),
    {
        self.index
    }

    /// Where the component filed under `key` sits.
    fn find(&self, key: &TypeId) -> (r: Option<usize>)
        ensures
            match r {
                Some(i) => lookup(self.slots@, *key) == Some(i as int) && i < self.slots@.len(),
                None => lookup(self.slots@, *key) is None,
            },
    {
        let mut i: usize = self.slots.len();
        assert(self.slots@.take(i as int) =~= self.slots@);
        while i > 0
            invariant
                i <= self.slots@.len(),
                lookup(self.slots@, *key) == lookup(self.slots@.take(i as int), *key),
            decreases i,
        {
            i = i - 1;
            proof {
                assert(self.slots@.take(i + 1).drop_last() =~= self.slots@.take(i as int));
            }
            if same_type(&self.slots[i].key, key) {
                return Some(i);
            }
        }
        None
    }

    /// Gives the entity a fresh component of type `T`, made by `T::default()`,
    /// in place of the one of that type it may have had, and hands out the new
    /// component for writing.
    pub fn add_component<T: 'static + Default>(&mut self) -> (r: &mut T)
        ensures
            call_ensures(T::default, (), *r),
            final(self).id() == old(self).id(),
            final(self).component::<T>() == Some(*final(r)),
            final(self).store() == old(self).store().insert(
                type_key::<T>(),
                final(self).store()[type_key::<T>()],
            ),
            old(self).wf() ==> final(self).wf(),
    {
        let key = type_id_of::<T>();
        let value = boxed::<T>(T::default());
        proof {
            lemma_lookup_in_range(self.slots@, key);
        }
        let i: usize = match self.find(&key) {
            Some(i) => {
                proof {
                    lemma_store_after_overwrite(self.slots@, i as int, key, value);
                    if self.wf() {
                        lemma_distinct_after_overwrite(self.slots@, i as int, value);
                    }
                }
                self.slots[i] = Slot { key, value };
                i
            },
            None => {
                proof {
                    lemma_store_after_push(self.slots@, key, value);
                }
                self.slots.push(Slot { key, value });
                self.slots.len() - 1
            },
        };
        let ghost mid = self.slots@;
        proof {
            assert(lookup(mid, key) == Some(i as int)) by {
                if lookup(old(self).slots@, key) is Some {
                    lemma_lookup_by_keys(mid, old(self).slots@, key);
                } else {
                    assert(mid.drop_last() =~= old(self).slots@);
                }
            }
            lemma_lookup_in_range(mid, key);
            assert forall|x: Component|
                {
                    let after = #[trigger] mid.update(i as int, Slot { key, value: x });
                    &&& store_of(after) == store_of(mid).insert(key, x)
                    &&& keys_distinct(mid) ==> keys_distinct(after)
                } by {
                lemma_store_after_overwrite(mid, i as int, key, x);
                if keys_distinct(mid) {
                    lemma_distinct_after_overwrite(mid, i as int, x);
                }
            }
        }
        cast_mut::<T>(&mut self.slots[i].value).unwrap()
    }

    /// The entity's component of type `T`, if it has one.
    pub fn get_component<T: 'static>(&self) -> (r: Option<&T>)
        ensures
            r == match self.component::<T>() {
                Some(v) => Some(&v),
                None => None,
            },
    {
        let key = type_id_of::<T>();
        match self.find(&key) {
            Some(i) => cast_ref::<T>(&self.slots[i].value),
            None => None,
        }
    }

    /// The entity's component of type `T`, if it has one, for writing. What
    /// the caller leaves behind the reference is the component from then on.
    pub fn get_component_mut<T: 'static>(&mut self) -> (r: Option<&mut T>)
        ensures
            final(self).id() == old(self).id(),
            match r {
                Some(v) => old(self).component::<T>() == Some(*v) && final(self).component::<T>()
                    == Some(*final(v)) && final(self).store() == old(self).store().insert(
                    type_key::<T>(),
                    final(self).store()[type_key::<T>()],
                ),
                None => old(self).component::<T>() is None && final(self).store() == old(
                    self,
                ).store(),
            },
            old(self).wf() ==> final(self).wf(),
    {
        let key = type_id_of::<T>();
        match self.find(&key) {
            Some(i) => {
                proof {
                    let s = self.slots@;
                    lemma_lookup_in_range(s, key);
                    assert forall|x: Component|
                        {
                            let after = #[trigger] s.update(i as int, Slot { key, value: x });
                            &&& store_of(after) == store_of(s).insert(key, x)
                            &&& keys_distinct(s) ==> keys_distinct(after)
                        } by {
                        lemma_store_after_overwrite(s, i as int, key, x);
                        if keys_distinct(s) {
                            lemma_distinct_after_overwrite(s, i as int, x);
                        }
                    }
                    assert(s.update(i as int, s[i as int]) =~= s);
                }
                cast_mut::<T>(&mut self.slots[i].value)
            },
            None => None,
        }
    }
}

/// A store with nothing in it holds no component of any type.
pub proof fn law_empty_store_holds_nothing<T: 'static>()
    ensures
        component_in::<T>(Map::<TypeId, Component>::empty()) is None,
{
}

/// What is put in under the key of `T` is what a read for `T` finds,
/// whatever was there before.
pub proof fn law_insert_then_read<T: 'static>(store: Map<TypeId, Component>, c: Component)
    ensures
        component_in::<T>(store.insert(type_key::<T>(), c)) == payload::<T>(c),
{
}

/// Putting a component in under the key of `T` changes nothing for a type
/// `U` with another key: a `U` that was absent stays absent, one that was
/// there stays as it was.
pub proof fn law_other_type_untouched<T: 'static, U: 'static>(
    store: Map<TypeId, Component>,
    c: Component,
)
    requires
        type_key::<T>() != type_key::<U>(),
    ensures
        component_in::<U>(store.insert(type_key::<T>(), c)) == component_in::<U>(store),
{
}

} // verus!
