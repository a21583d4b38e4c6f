//! The meaning of a set of erased types: a map from the identifier of each
//! stored type to the handle that holds the value of that type.

use crate::erasure::erased;
use crate::erasure::payload;
use crate::erasure::type_id;
use crate::erasure::type_of;
use crate::erasure::Erased;
use crate::erasure::Storable;
use std::any::TypeId;
use vstd::prelude::*;

verus! {

/// Whether a value of type `T` is stored in `m`.
pub open spec fn present<T: Storable>(m: Map<TypeId, Erased>) -> bool {
    m.contains_key(type_id::<T>())
}

/// The value of type `T` stored in `m`, if there is one.
pub open spec fn value_in<T: Storable>(m: Map<TypeId, Erased>) -> Option<T> {
    if present::<T>(m) {
        Some(payload::<T>(m[type_id::<T>()]))
    } else {
        None
    }
}

/// Every handle of `m` is filed under the identifier of the type of the value
/// it holds.
pub open spec fn keyed_by_type(m: Map<TypeId, Erased>) -> bool {
    forall|k: TypeId| #[trigger] m.contains_key(k) ==> type_of(m[k]) == k
}

/// Filing a handle under the identifier of the type of its value keeps a
/// finite map finite, and keyed by type.
pub proof fn lemma_insert_keeps_valid(m: Map<TypeId, Erased>, id: TypeId, e: Erased)
    requires
        m.dom().finite(),
        keyed_by_type(m),
        type_of(e) == id,
    ensures
        m.insert(id, e).dom().finite(),
        keyed_by_type(m.insert(id, e)),
{
    assert(m.insert(id, e).dom() =~= m.dom().insert(id));
    assert forall|k: TypeId| #[trigger] m.insert(id, e).contains_key(k) implies type_of(
        m.insert(id, e)[k],
    ) == k by {
        if k != id {
            assert(m.contains_key(k));
        }
    }
}

/// Filing a handle adds one key where the identifier was free, and none where
/// it was taken.
pub proof fn lemma_insert_len(m: Map<TypeId, Erased>, id: TypeId, e: Erased)
    requires
        m.dom().finite(),
    ensures
        m.insert(id, e).len() == m.len() + if m.contains_key(id) {
            0nat
        } else {
            1nat
        },
{
    assert(m.insert(id, e).dom() =~= m.dom().insert(id));
}

/// Taking a handle out removes one key where the identifier was taken, and
/// none where it was free.
pub proof fn lemma_remove_len(m: Map<TypeId, Erased>, id: TypeId)
    requires
        m.dom().finite(),
    ensures
        m.remove(id).len() == m.len() - if m.contains_key(id) {
            1nat
        } else {
            0nat
        },
{
    assert(m.remove(id).dom() =~= m.dom().remove(id));
}

/// What getting or inserting promises, called on the set `pre` with `value`
/// on offer: the set `post` that it leaves holds `got`, which is the value
/// that was there before, with nothing changed, or else `value`, newly filed.
pub open spec fn get_or_insert_gives<T: Storable>(
    pre: Map<TypeId, Erased>,
    value: T,
    post: Map<TypeId, Erased>,
    got: T,
) -> bool {
    &&& value_in::<T>(post) == Some(got)
    &&& match value_in::<T>(pre) {
        Some(v) => got == v && post == pre,
        None => got == value && post == pre.insert(type_id::<T>(), erased(value)),
    }
}

} // verus!
