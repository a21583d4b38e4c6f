//! The set of erased types: at most one value of each type.

use crate::erasure::downcast_mut;
use crate::erasure::downcast_ref;
use crate::erasure::erase;
use crate::erasure::erased;
use crate::erasure::key;
use crate::erasure::type_id;
use crate::erasure::type_of;
use crate::erasure::unerase;
use crate::erasure::Erased;
use crate::erasure::Storable;
use crate::model::get_or_insert_gives;
use crate::model::keyed_by_type;
use crate::model::lemma_insert_keeps_valid;
use crate::model::lemma_insert_len;
use crate::model::lemma_remove_len;
use crate::model::present;
use crate::model::value_in;
use crate::store::Store;
use std::any::TypeId;
use vstd::prelude::*;

verus! {

/// A set of erased types.
///
/// This set can store a single instance of any storable type. Its meaning is
/// the map from the identifier of each stored type to the handle that holds
/// the value of that type.
pub struct ErasedSet {
    store: Store<Erased>,
}

impl ErasedSet {
    /// The map from type identifier to handle that the set stands for.
    pub closed spec fn view(&self) -> Map<TypeId, Erased> {
        self.store@
    }

    /// The storage holds no identifier twice.
    pub closed spec fn inv(&self) -> bool {
        self.store.wf()
    }

    /// The set is valid: it is finite, and every value is filed under the
    /// identifier of its own type.
    pub open spec fn wf(&self) -> bool {
        &&& self.inv()
        &&& self@.dom().finite()
        &&& keyed_by_type(self@)
    }

    /// Whether the set holds a value of type `T`.
    pub open spec fn holds<T: Storable>(&self) -> bool {
        present::<T>(self@)
    }

    /// The value of type `T` in the set, if there is one.
    pub open spec fn value<T: Storable>(&self) -> Option<T> {
        value_in::<T>(self@)
    }

    /// Creates an empty set.
    pub fn new() -> (s: Self)
        ensures
            s.wf(),
            s@ == Map::<TypeId, Erased>::empty(),
    {
        ErasedSet { store: Store::new() }
    }

    /// Returns `true` if the set contains no instances of any type.
    pub fn is_empty(&self) -> (r: bool)
        requires
            self.wf(),
        ensures
            r == (self@.len() == 0),
    {
        self.store.is_empty()
    }

    /// Returns the number of types in the set.
    pub fn len(&self) -> (n: usize)
        requires
            self.wf(),
        ensures
            n == self@.len(),
    {
        self.store.len()
    }

    /// Clears the set.
    pub fn clear(&mut self)
        ensures
            final(self).wf(),
            final(self)@ == Map::<TypeId, Erased>::empty(),
            final(self)@.len() == 0,
    {
        self.store.clear();
    }

    /// Returns `true` if the set contains an instance of `T`.
    pub fn contains<T: Storable>(&self) -> (r: bool)
        requires
            self.wf(),
        ensures
            r == self.holds::<T>(),
    {
        self.store.contains_key(key::<T>())
    }

    /// Returns a reference to an instance of `T`.
    ///
    /// If the set does not have an instance of `T`, `None` is returned.
    pub fn get<T: Storable>(&self) -> (r: Option<&T>)
        requires
            self.wf(),
        ensures
            match r {
                Some(v) => self.value::<T>() == Some(*v),
                None => self.value::<T>() is None,
            },
    {
        match self.store.get(key::<T>()) {
            Some(e) => downcast_ref::<T>(e),
            None => None,
        }
    }

    /// Inserts the given `value` into the set if it is not present, then
    /// returns a reference to the value in the set.
    ///
    /// Where a value of type `T` is present already, `value` is dropped and
    /// the set is left as it was.
    pub fn get_or_insert<T: Storable>(&mut self, value: T) -> (r: &T)
        requires
            old(self).wf(),
        ensures
            final(self).wf(),
            get_or_insert_gives(old(self)@, value, final(self)@, *r),
    {
        let id = key::<T>();
        if !self.store.contains_key(id) {
            proof {
                lemma_insert_keeps_valid(self@, id, erased(value));
            }
            self.store.insert(id, erase(value));
        }
        match self.store.get(id) {
            Some(e) => match downcast_ref::<T>(e) {
                Some(v) => v,
                None => unreached(),
            },
            None => unreached(),
        }
    }

    /// Inserts a value computed from `f` into the set if it does not contain
    /// a value of type `T`, then returns a reference to the value in the set.
    ///
    /// `f` is called only where no value of type `T` is present: it need not
    /// be callable otherwise.
    pub fn get_or_insert_with<T: Storable>(&mut self, f: impl FnOnce() -> T) -> (r: &T)
        requires
            old(self).wf(),
            !old(self).holds::<T>() ==> f.requires(()),
        ensures
            final(self).wf(),
            !old(self).holds::<T>() ==> f.ensures((), *r),
            get_or_insert_gives(old(self)@, *r, final(self)@, *r),
    {
        let id = key::<T>();
        if !self.store.contains_key(id) {
            let e = erase(f());
            proof {
                lemma_insert_keeps_valid(self@, id, e);
            }
            self.store.insert(id, e);
        }
        match self.store.get(id) {
            Some(e) => match downcast_ref::<T>(e) {
                Some(v) => v,
                None => unreached(),
            },
            None => unreached(),
        }
    }

    /// Returns a mutable reference to an instance of `T`.
    ///
    /// If the set does not have an instance of `T`, `None` is returned.
    pub fn get_mut<T: Storable>(&mut self) -> (r: Option<&mut T>)
        requires
            old(self).wf(),
        ensures
            match r {
                Some(v) => old(self).value::<T>() == Some(*v) && final(self)@ == old(self)@.insert(
                    type_id::<T>(),
                    erased(*final(v)),
                ) && final(self).value::<T>() == Some(*final(v)),
                None => old(self).value::<T>() is None && final(self)@ == old(self)@,
            },
            final(self).wf(),
    {
        let id = key::<T>();
        proof {
            let m = self@;
            assert forall|e: Erased| type_of(e) == id implies keyed_by_type(
                #[trigger] m.insert(id, e),
            ) && m.insert(id, e).dom().finite() by {
                lemma_insert_keeps_valid(m, id, e);
            }
        }
        match self.store.get_mut(id) {
            Some(e) => downcast_mut::<T>(e),
            None => None,
        }
    }

    /// Insert an instance of type `T` into the set.
    ///
    /// Returns the replaced value or `None`.
    pub fn insert<T: Storable>(&mut self, value: T) -> (r: Option<T>)
        requires
            old(self).wf(),
        ensures
            final(self).wf(),
            final(self)@ == old(self)@.insert(type_id::<T>(), erased(value)),
            final(self).value::<T>() == Some(value),
            r == old(self).value::<T>(),
            final(self)@.len() == old(self)@.len() + if old(self).holds::<T>() {
                0nat
            } else {
                1nat
            },
    {
        let id = key::<T>();
        let previous = self.store.insert(id, erase(value));
        proof {
            lemma_insert_keeps_valid(old(self)@, id, erased(value));
            lemma_insert_len(old(self)@, id, erased(value));
        }
        match previous {
            Some(e) => unerase::<T>(e),
            None => None,
        }
    }

    /// Remove and return an instance of type `T` from the set.
    ///
    /// If the set did not have this type present, `None` is returned.
    pub fn remove<T: Storable>(&mut self) -> (r: Option<T>)
        requires
            old(self).wf(),
        ensures
            final(self).wf(),
            final(self)@ == old(self)@.remove(type_id::<T>()),
            r == old(self).value::<T>(),
            final(self)@.len() == old(self)@.len() - if old(self).holds::<T>() {
                1nat
            } else {
                0nat
            },
    {
        proof {
            lemma_remove_len(old(self)@, type_id::<T>());
        }
        match self.store.remove(key::<T>()) {
            Some(e) => unerase::<T>(e),
            None => None,
        }
    }

    /// The identifiers of the stored types, each once, in no particular order.
    pub fn type_ids(&self) -> (r: Vec<TypeId>)
        requires
            self.wf(),
        ensures
            r@.no_duplicates(),
            r@.len() == self@.len(),
            forall|k: TypeId| r@.contains(k) <==> self@.contains_key(k),
    {
        self.store.keys()
    }
}

impl Default for ErasedSet {
    /// The empty set.
    fn default() -> (s: Self)
        ensures
            s.wf(),
            s@ == Map::<TypeId, Erased>::empty(),
    {
        ErasedSet::new()
    }
}

} // verus!
