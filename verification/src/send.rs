//! The set of erased types whose values can be sent to another thread.

use crate::erasure::downcast_mut_send;
use crate::erasure::downcast_ref_send;
use crate::erasure::erase_send;
use crate::erasure::erased;
use crate::erasure::key;
use crate::erasure::type_id;
use crate::erasure::type_of;
use crate::erasure::send_handle;
use crate::erasure::unerase_send;
use crate::erasure::Erased;
use crate::erasure::Storable;
use crate::erasure::SendErased;
use crate::model::get_or_insert_gives;
use crate::model::keyed_by_type;
use crate::model::lemma_insert_keeps_valid;
use crate::model::lemma_insert_len;
use crate::model::lemma_remove_len;
use crate::model::present;
use crate::model::value_in;
use crate::store::Store;
use std::any::TypeId;
use vstd::prelude::*;

verus! {

/// The map of handles that a map of `Send` handles stands for: each handle
/// without its marker.
pub open spec fn unmarked(m: Map<TypeId, SendErased>) -> Map<TypeId, Erased> {
    Map::new(|k: TypeId| m.contains_key(k), |k: TypeId| send_handle(m[k]))
}

/// Filing, taking out and emptying mean the same with and without markers,
/// and the keys are the same.
pub proof fn lemma_unmarked(m: Map<TypeId, SendErased>, id: TypeId, e: SendErased)
    ensures
        unmarked(m).dom() == m.dom(),
        unmarked(m.insert(id, e)) == unmarked(m).insert(id, send_handle(e)),
        unmarked(m.remove(id)) == unmarked(m).remove(id),
        unmarked(Map::<TypeId, SendErased>::empty()) == Map::<TypeId, Erased>::empty(),
{
    assert(unmarked(m).dom() =~= m.dom());
    assert(unmarked(m.insert(id, e)) =~= unmarked(m).insert(id, send_handle(e)));
    assert(unmarked(m.remove(id)) =~= unmarked(m).remove(id));
    assert(unmarked(Map::<TypeId, SendErased>::empty()) =~= Map::<TypeId, Erased>::empty());
}

/// Like `ErasedSet` but with a `Send` bound.
///
/// This set can store a single instance of any storable type that is `Send`,
/// and is `Send` itself. Its meaning is the map from the identifier of each
/// stored type to the handle that holds the value of that type.
pub struct ErasedSendSet {
    store: Store<SendErased>,
}

impl ErasedSendSet {
    /// The map from type identifier to handle that the set stands for.
    pub closed spec fn view(&self) -> Map<TypeId, Erased> {
        unmarked(self.store@)
    }

    /// The view has the keys of the storage.
    proof fn lemma_keys(&self)
        ensures
            self@.dom() == self.store@.dom(),
    {
        assert(self@.dom() =~= self.store@.dom());
    }

    /// The storage holds no identifier twice.
    pub closed spec fn inv(&self) -> bool {
        self.store.wf()
    }

    /// The set is valid: it is finite, and every value is filed under the
    /// identifier of its own type.
    pub open spec fn wf(&self) -> bool {
        &&& self.inv()
        &&& self@.dom().finite()
        &&& keyed_by_type(self@)
    }

    /// Whether the set holds a value of type `T`.
    pub open spec fn holds<T: Storable>(&self) -> bool {
        present::<T>(self@)
    }

    /// The value of type `T` in the set, if there is one.
    pub open spec fn value<T: Storable>(&self) -> Option<T> {
        value_in::<T>(self@)
    }

    /// Creates an empty set.
    pub fn new() -> (s: Self)
        ensures
            s.wf(),
            s@ == Map::<TypeId, Erased>::empty(),
    {
        let s = ErasedSendSet { store: Store::new() };
        proof {
            assert(s@ =~= Map::<TypeId, Erased>::empty());
        }
        s
    }

    /// Returns `true` if the set contains no instances of any type.
    pub fn is_empty(&self) -> (r: bool)
        requires
            self.wf(),
        ensures
            r == (self@.len() == 0),
    {
        proof {
            self.lemma_keys();
        }
        self.store.is_empty()
    }

    /// Returns the number of types in the set.
    pub fn len(&self) -> (n: usize)
        requires
            self.wf(),
        ensures
            n == self@.len(),
    {
        proof {
            self.lemma_keys();
        }
        self.store.len()
    }

    /// Clears the set.
    pub fn clear(&mut self)
        ensures
            final(self).wf(),
            final(self)@ == Map::<TypeId, Erased>::empty(),
            final(self)@.len() == 0,
    {
        self.store.clear();
        proof {
            assert(self@ =~= Map::<TypeId, Erased>::empty());
        }
    }

    /// Returns `true` if the set contains an instance of `T`.
    pub fn contains<T: Storable>(&self) -> (r: bool)
        requires
            self.wf(),
        ensures
            r == self.holds::<T>(),
    {
        self.store.contains_key(key::<T>())
    }

    /// Returns a reference to an instance of `T`.
    ///
    /// If the set does not have an instance of `T`, `None` is returned.
    pub fn get<T: Storable + Send>(&self) -> (r: Option<&T>)
        requires
            self.wf(),
        ensures
            match r {
                Some(v) => self.value::<T>() == Some(*v),
                None => self.value::<T>() is None,
            },
    {
        match self.store.get(key::<T>()) {
            Some(e) => downcast_ref_send::<T>(e),
            None => None,
        }
    }

    /// Inserts the given `value` into the set if it is not present, then
    /// returns a reference to the value in the set.
    ///
    /// Where a value of type `T` is present already, `value` is dropped and
    /// the set is left as it was.
    pub fn get_or_insert<T: Storable + Send>(&mut self, value: T) -> (r: &T)
        requires
            old(self).wf(),
        ensures
            final(self).wf(),
            get_or_insert_gives(old(self)@, value, final(self)@, *r),
    {
        let id = key::<T>();
        if !self.store.contains_key(id) {
            let e = erase_send(value);
            proof {
                lemma_insert_keeps_valid(self@, id, send_handle(e));
            }
            self.store.insert(id, e);
            proof {
                assert(self@ =~= old(self)@.insert(id, send_handle(e)));
            }
        }
        match self.store.get(id) {
            Some(e) => match downcast_ref_send::<T>(e) {
                Some(v) => v,
                None => unreached(),
            },
            None => unreached(),
        }
    }

    /// Inserts a value computed from `f` into the set if it does not contain
    /// a value of type `T`, then returns a reference to the value in the set.
    ///
    /// `f` is called only where no value of type `T` is present: it need not
    /// be callable otherwise.
    pub fn get_or_insert_with<T: Storable + Send>(&mut self, f: impl FnOnce() -> T) -> (r: &T)
        requires
            old(self).wf(),
            !old(self).holds::<T>() ==> f.requires(()),
        ensures
            final(self).wf(),
            !old(self).holds::<T>() ==> f.ensures((), *r),
            get_or_insert_gives(old(self)@, *r, final(self)@, *r),
    {
        let id = key::<T>();
        if !self.store.contains_key(id) {
            let e = erase_send(f());
            proof {
                lemma_insert_keeps_valid(self@, id, send_handle(e));
            }
            self.store.insert(id, e);
            proof {
                assert(self@ =~= old(self)@.insert(id, send_handle(e)));
            }
        }
        match self.store.get(id) {
            Some(e) => match downcast_ref_send::<T>(e) {
                Some(v) => v,
                None => unreached(),
            },
            None => unreached(),
        }
    }

    /// Returns a mutable reference to an instance of `T`.
    ///
    /// If the set does not have an instance of `T`, `None` is returned.
    pub fn get_mut<T: Storable + Send>(&mut self) -> (r: Option<&mut T>)
        requires
            old(self).wf(),
        ensures
            match r {
                Some(v) => old(self).value::<T>() == Some(*v) && final(self)@ == old(self)@.insert(
                    type_id::<T>(),
                    erased(*final(v)),
                ) && final(self).value::<T>() == Some(*final(v)),
                None => old(self).value::<T>() is None && final(self)@ == old(self)@,
            },
            final(self).wf(),
    {
        let id = key::<T>();
        proof {
            let m = self.store@;
            assert forall|e: SendErased| type_of(send_handle(e)) == id implies keyed_by_type(
                unmarked(#[trigger] m.insert(id, e)),
            ) && unmarked(m.insert(id, e)).dom().finite() && unmarked(m.insert(id, e))
                == unmarked(m).insert(id, send_handle(e)) by {
                lemma_unmarked(m, id, e);
                lemma_insert_keeps_valid(unmarked(m), id, send_handle(e));
            }
        }
        match self.store.get_mut(id) {
            Some(e) => downcast_mut_send::<T>(e),
            None => None,
        }
    }

    /// Insert an instance of type `T` into the set.
    ///
    /// Returns the replaced value or `None`.
    pub fn insert<T: Storable + Send>(&mut self, value: T) -> (r: Option<T>)
        requires
            old(self).wf(),
        ensures
            final(self).wf(),
            final(self)@ == old(self)@.insert(type_id::<T>(), erased(value)),
            final(self).value::<T>() == Some(value),
            r == old(self).value::<T>(),
            final(self)@.len() == old(self)@.len() + if old(self).holds::<T>() {
                0nat
            } else {
                1nat
            },
    {
        let id = key::<T>();
        let e = erase_send(value);
        let ghost handle = send_handle(e);
        let previous = self.store.insert(id, e);
        proof {
            assert(self@ =~= old(self)@.insert(id, handle));
            lemma_insert_keeps_valid(old(self)@, id, handle);
            lemma_insert_len(old(self)@, id, handle);
        }
        match previous {
            Some(e) => unerase_send::<T>(e),
            None => None,
        }
    }

    /// Remove and return an instance of type `T` from the set.
    ///
    /// If the set did not have this type present, `None` is returned.
    pub fn remove<T: Storable + Send>(&mut self) -> (r: Option<T>)
        requires
            old(self).wf(),
        ensures
            final(self).wf(),
            final(self)@ == old(self)@.remove(type_id::<T>()),
            r == old(self).value::<T>(),
            final(self)@.len() == old(self)@.len() - if old(self).holds::<T>() {
                1nat
            } else {
                0nat
            },
    {
        let id = key::<T>();
        let previous = self.store.remove(id);
        proof {
            assert(self@ =~= old(self)@.remove(id));
            lemma_remove_len(old(self)@, id);
        }
        match previous {
            Some(e) => unerase_send::<T>(e),
            None => None,
        }
    }

    /// The identifiers of the stored types, each once, in no particular order.
    pub fn type_ids(&self) -> (r: Vec<TypeId>)
        requires
            self.wf(),
        ensures
            r@.no_duplicates(),
            r@.len() == self@.len(),
            forall|k: TypeId| r@.contains(k) <==> self@.contains_key(k),
    {
        proof {
            self.lemma_keys();
        }
        self.store.keys()
    }
}

impl Default for ErasedSendSet {
    /// The empty set.
    fn default() -> (s: Self)
        ensures
            s.wf(),
            s@ == Map::<TypeId, Erased>::empty(),
    {
        ErasedSendSet::new()
    }
}

} // verus!
