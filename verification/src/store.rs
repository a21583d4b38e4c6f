//! A small map keyed by type identifier.
//!
//! The map keeps its entries in a vector and never holds two entries under
//! the same identifier. Its meaning is the mathematical map from identifier
//! to value; the order of the entries is not observable through that map.
//!
//! A type identifier is opaque: all that a proof knows of two identifiers is
//! whether they are equal. It has no order and no hash that a proof could
//! rely on, so an entry is found by comparing identifiers one by one, in time
//! linear in the number of entries.

use std::any::TypeId;
use vstd::prelude::*;

verus! {

/// `std::any::TypeId`: an opaque identifier of a type. Equality of two
/// identifiers in specifications is equality of the values themselves.
#[verifier::external_type_specification]
#[verifier::external_body]
pub struct ExTypeId(TypeId);

/// Compares two identifiers with `TypeId`'s own `==`, which compares the
/// whole identifier: the result is `true` exactly when the two are the same
/// value.
#[verifier::external_body]
pub(crate) fn same_id(a: TypeId, b: TypeId) -> (r: bool)
    ensures
        r == (a == b),
{
    a == b
}

/// One entry: a value filed under an identifier.
pub struct Slot<V> {
    pub id: TypeId,
    pub value: V,
}

/// The identifiers of a sequence of entries, in order.
pub open spec fn ids_of<V>(slots: Seq<Slot<V>>) -> Seq<TypeId> {
    slots.map_values(|s: Slot<V>| s.id)
}

/// The map that a sequence of entries stands for: each identifier that occurs
/// is mapped to the value of its first entry.
pub open spec fn map_of<V>(slots: Seq<Slot<V>>) -> Map<TypeId, V> {
    Map::new(
        |k: TypeId| ids_of(slots).contains(k),
        |k: TypeId| slots[ids_of(slots).index_of(k)].value,
    )
}

/// Where no identifier occurs twice, every entry is a pair of the map, the map
/// has no other key, and it has as many keys as there are entries.
pub proof fn lemma_map_of<V>(slots: Seq<Slot<V>>)
    requires
        ids_of(slots).no_duplicates(),
    ensures
        map_of(slots).dom().finite(),
        map_of(slots).len() == slots.len(),
        forall|i: int|
            0 <= i < slots.len() ==> map_of(slots).contains_key(#[trigger] slots[i].id) && map_of(
                slots,
            )[slots[i].id] == slots[i].value,
        forall|k: TypeId|
            map_of(slots).contains_key(k) ==> exists|i: int|
                0 <= i < slots.len() && #[trigger] slots[i].id == k,
{
    let ids = ids_of(slots);
    assert(map_of(slots).dom() =~= ids.to_set());
    vstd::seq_lib::seq_to_set_is_finite(ids);
    ids.unique_seq_to_set();
    assert forall|i: int| 0 <= i < slots.len() implies map_of(slots).contains_key(
        #[trigger] slots[i].id,
    ) && map_of(slots)[slots[i].id] == slots[i].value by {
        assert(ids[i] == slots[i].id);
        let j = ids.index_of(ids[i]);
        assert(ids[j] == ids[i]);
    }
    assert forall|k: TypeId| map_of(slots).contains_key(k) implies exists|i: int|
        0 <= i < slots.len() && #[trigger] slots[i].id == k by {
        let j = ids.index_of(k);
        assert(ids[j] == k);
        assert(slots[j].id == k);
    }
}

/// Appending an entry under a fresh identifier adds one pair to the map.
pub proof fn lemma_map_of_push<V>(slots: Seq<Slot<V>>, slot: Slot<V>)
    requires
        ids_of(slots).no_duplicates(),
        !map_of(slots).contains_key(slot.id),
    ensures
        ids_of(slots.push(slot)).no_duplicates(),
        map_of(slots.push(slot)) == map_of(slots).insert(slot.id, slot.value),
{
    let after = slots.push(slot);
    assert(ids_of(after) =~= ids_of(slots).push(slot.id));
    lemma_map_of(slots);
    lemma_map_of(after);
    assert forall|k: TypeId| map_of(after).contains_key(k) <==> map_of(slots).insert(
        slot.id,
        slot.value,
    ).contains_key(k) by {
        if map_of(after).contains_key(k) {
            let i = choose|i: int| 0 <= i < after.len() && #[trigger] after[i].id == k;
            if i < slots.len() {
                assert(slots[i].id == k);
            }
        }
        if map_of(slots).contains_key(k) {
            let i = choose|i: int| 0 <= i < slots.len() && #[trigger] slots[i].id == k;
            assert(after[i].id == k);
        }
        if k == slot.id {
            assert(after[slots.len() as int].id == k);
        }
    }
    assert forall|k: TypeId| map_of(after).contains_key(k) implies map_of(after)[k] == map_of(
        slots,
    ).insert(slot.id, slot.value)[k] by {
        let i = choose|i: int| 0 <= i < after.len() && #[trigger] after[i].id == k;
        assert(map_of(after)[after[i].id] == after[i].value);
        if i < slots.len() {
            assert(slots[i].id == k);
            assert(map_of(slots)[slots[i].id] == slots[i].value);
        }
    }
    assert(map_of(after) =~= map_of(slots).insert(slot.id, slot.value));
}

/// Taking an entry out removes its pair from the map.
pub proof fn lemma_map_of_remove<V>(slots: Seq<Slot<V>>, at: int)
    requires
        ids_of(slots).no_duplicates(),
        0 <= at < slots.len(),
    ensures
        ids_of(slots.remove(at)).no_duplicates(),
        map_of(slots.remove(at)) == map_of(slots).remove(slots[at].id),
{
    let after = slots.remove(at);
    let gone = slots[at].id;
    assert(ids_of(after) =~= ids_of(slots).remove(at));
    assert(ids_of(slots)[at] == gone);
    assert forall|i: int, j: int|
        0 <= i < after.len() && 0 <= j < after.len() && i != j implies ids_of(after)[i] != ids_of(
        after,
    )[j] by {
        let ii = if i < at { i } else { i + 1 };
        let jj = if j < at { j } else { j + 1 };
        assert(ids_of(after)[i] == ids_of(slots)[ii]);
        assert(ids_of(after)[j] == ids_of(slots)[jj]);
    }
    lemma_map_of(slots);
    lemma_map_of(after);
    assert forall|k: TypeId| map_of(after).contains_key(k) <==> map_of(slots).remove(
        gone,
    ).contains_key(k) by {
        if map_of(after).contains_key(k) {
            let i = choose|i: int| 0 <= i < after.len() && #[trigger] after[i].id == k;
            let ii = if i < at { i } else { i + 1 };
            assert(slots[ii].id == k);
            assert(ids_of(slots)[ii] == k);
        }
        if map_of(slots).contains_key(k) && k != gone {
            let i = choose|i: int| 0 <= i < slots.len() && #[trigger] slots[i].id == k;
            let ii = if i < at { i } else { i - 1 };
            assert(after[ii].id == k);
        }
    }
    assert forall|k: TypeId| map_of(after).contains_key(k) implies map_of(after)[k] == map_of(
        slots,
    ).remove(gone)[k] by {
        let i = choose|i: int| 0 <= i < after.len() && #[trigger] after[i].id == k;
        let ii = if i < at { i } else { i + 1 };
        assert(map_of(after)[after[i].id] == after[i].value);
        assert(slots[ii].id == k);
        assert(map_of(slots)[slots[ii].id] == slots[ii].value);
    }
    assert(map_of(after) =~= map_of(slots).remove(gone));
}

/// Changing the value of an entry in place changes the value of its pair.
pub proof fn lemma_map_of_update<V>(slots: Seq<Slot<V>>, at: int, value: V)
    requires
        ids_of(slots).no_duplicates(),
        0 <= at < slots.len(),
    ensures
        ids_of(slots.update(at, Slot { id: slots[at].id, value })).no_duplicates(),
        map_of(slots.update(at, Slot { id: slots[at].id, value })) == map_of(slots).insert(
            slots[at].id,
            value,
        ),
{
    let id = slots[at].id;
    let after = slots.update(at, Slot { id, value });
    assert(ids_of(after) =~= ids_of(slots));
    lemma_map_of(slots);
    lemma_map_of(after);
    assert forall|k: TypeId| map_of(after).contains_key(k) <==> map_of(slots).insert(
        id,
        value,
    ).contains_key(k) by {
        if map_of(after).contains_key(k) {
            let i = choose|i: int| 0 <= i < after.len() && #[trigger] after[i].id == k;
            assert(slots[i].id == k);
        }
        if map_of(slots).contains_key(k) {
            let i = choose|i: int| 0 <= i < slots.len() && #[trigger] slots[i].id == k;
            assert(after[i].id == k);
        }
        if k == id {
            assert(after[at].id == k);
        }
    }
    assert forall|k: TypeId| map_of(after).contains_key(k) implies map_of(after)[k] == map_of(
        slots,
    ).insert(id, value)[k] by {
        let i = choose|i: int| 0 <= i < after.len() && #[trigger] after[i].id == k;
        assert(map_of(after)[after[i].id] == after[i].value);
        assert(slots[i].id == k);
        assert(map_of(slots)[slots[i].id] == slots[i].value);
        if i != at {
            assert(ids_of(slots)[i] == k);
            assert(ids_of(slots)[at] == id);
        }
    }
    assert(map_of(after) =~= map_of(slots).insert(id, value));
}

/// A map from type identifier to `V`.
pub struct Store<V> {
    slots: Vec<Slot<V>>,
}

impl<V> Store<V> {
    /// No identifier is filed twice.
    pub closed spec fn wf(&self) -> bool {
        ids_of(self.slots@).no_duplicates()
    }

    /// The map that the entries stand for.
    pub closed spec fn view(&self) -> Map<TypeId, V> {
        map_of(self.slots@)
    }

    /// A well-formed store stands for a finite map, so that the number of its
    /// keys is the number of its entries.
    pub proof fn lemma_finite(&self)
        requires
            self.wf(),
        ensures
            self@.dom().finite(),
    {
        lemma_map_of(self.slots@);
    }

    /// An empty store.
    pub fn new() -> (s: Self)
        ensures
            s.wf(),
            s@ == Map::<TypeId, V>::empty(),
    {
        let s = Store { slots: Vec::new() };
        proof {
            assert(ids_of(s.slots@) =~= Seq::<TypeId>::empty());
            assert(s@ =~= Map::<TypeId, V>::empty());
        }
        s
    }

    /// The number of entries.
    pub fn len(&self) -> (n: usize)
        requires
            self.wf(),
        ensures
            n == self@.len(),
    {
        proof {
            lemma_map_of(self.slots@);
        }
        self.slots.len()
    }

    /// Whether the store has no entry.
    pub fn is_empty(&self) -> (r: bool)
        requires
            self.wf(),
        ensures
            r == (self@.len() == 0),
            r == (self@ == Map::<TypeId, V>::empty()),
    {
        proof {
            lemma_map_of(self.slots@);
            if self.slots@.len() == 0 {
                assert(self@ =~= Map::<TypeId, V>::empty());
            } else {
                assert(self@.contains_key(self.slots@[0].id));
            }
        }
        self.slots.len() == 0
    }

    /// Removes every entry.
    pub fn clear(&mut self)
        ensures
            final(self).wf(),
            final(self)@ == Map::<TypeId, V>::empty(),
    {
        self.slots.clear();
        proof {
            assert(ids_of(self.slots@) =~= Seq::<TypeId>::empty());
            assert(self@ =~= Map::<TypeId, V>::empty());
        }
    }

    /// The position of the entry filed under `id`, if there is one.
    fn position(&self, id: TypeId) -> (r: Option<usize>)
        requires
            self.wf(),
        ensures
            match r {
                Some(i) => i < self.slots@.len() && self.slots@[i as int].id == id
                    && self@.contains_key(id) && self@[id] == self.slots@[i as int].value,
                None => !self@.contains_key(id),
            },
    {
        let mut i: usize = 0;
        while i < self.slots.len()
            invariant
                self.wf(),
                i <= self.slots@.len(),
                forall|j: int| 0 <= j < i ==> self.slots@[j].id != id,
            decreases self.slots@.len() - i,
        {
            if same_id(self.slots[i].id, id) {
                proof {
                    lemma_map_of(self.slots@);
                }
                return Some(i);
            }
            i += 1;
        }
        proof {
            lemma_map_of(self.slots@);
        }
        None
    }

    /// Whether an entry is filed under `id`.
    pub fn contains_key(&self, id: TypeId) -> (r: bool)
        requires
            self.wf(),
        ensures
            r == self@.contains_key(id),
    {
        self.position(id).is_some()
    }

    /// The value filed under `id`, if there is one.
    pub fn get(&self, id: TypeId) -> (r: Option<&V>)
        requires
            self.wf(),
        ensures
            match r {
                Some(v) => self@.get(id) == Some(*v),
                None => self@.get(id) is None,
            },
    {
        match self.position(id) {
            Some(i) => Some(&self.slots[i].value),
            None => None,
        }
    }

    /// The value filed under `id`, if there is one, for changing in place.
    pub fn get_mut(&mut self, id: TypeId) -> (r: Option<&mut V>)
        requires
            old(self).wf(),
        ensures
            final(self).wf(),
            match r {
                Some(v) => old(self)@.get(id) == Some(*v) && final(self)@ == old(self)@.insert(
                    id,
                    *final(v),
                ),
                None => old(self)@.get(id) is None && final(self)@ == old(self)@,
            },
    {
        match self.position(id) {
            Some(i) => {
                let slot = &mut self.slots[i];
                proof {
                    lemma_map_of_update(old(self).slots@, i as int, final(slot).value);
                }
                Some(&mut slot.value)
            },
            None => None,
        }
    }

    /// The identifiers under which something is filed, each once, in no
    /// particular order.
    pub fn keys(&self) -> (r: Vec<TypeId>)
        requires
            self.wf(),
        ensures
            r@.no_duplicates(),
            r@.len() == self@.len(),
            forall|k: TypeId| r@.contains(k) <==> self@.contains_key(k),
    {
        let mut r: Vec<TypeId> = Vec::new();
        let mut i: usize = 0;
        while i < self.slots.len()
            invariant
                i <= self.slots@.len(),
                r@ == ids_of(self.slots@).subrange(0, i as int),
            decreases self.slots@.len() - i,
        {
            r.push(self.slots[i].id);
            proof {
                assert(r@ =~= ids_of(self.slots@).subrange(0, i + 1));
            }
            i += 1;
        }
        proof {
            assert(r@ =~= ids_of(self.slots@));
            lemma_map_of(self.slots@);
        }
        r
    }

    /// Files `value` under `id`, and returns what was filed there before.
    pub fn insert(&mut self, id: TypeId, value: V) -> (r: Option<V>)
        requires
            old(self).wf(),
        ensures
            final(self).wf(),
            final(self)@ == old(self)@.insert(id, value),
            r == old(self)@.get(id),
    {
        let previous = self.remove(id);
        proof {
            lemma_map_of_push(self.slots@, Slot { id, value });
            assert(old(self)@.remove(id).insert(id, value) =~= old(self)@.insert(id, value));
        }
        self.slots.push(Slot { id, value });
        previous
    }

    /// Takes out what is filed under `id`, and returns it.
    pub fn remove(&mut self, id: TypeId) -> (r: Option<V>)
        requires
            old(self).wf(),
        ensures
            final(self).wf(),
            final(self)@ == old(self)@.remove(id),
            r == old(self)@.get(id),
    {
        match self.position(id) {
            Some(i) => {
                proof {
                    lemma_map_of_remove(self.slots@, i as int);
                }
                let slot = self.slots.remove(i);
                Some(slot.value)
            },
            None => {
                proof {
                    assert(self@.remove(id) =~= self@);
                }
                None
            },
        }
    }
}

} // verus!
