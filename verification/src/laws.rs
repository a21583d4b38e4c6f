//! What holds of a set of erased types across calls.
//!
//! A set stands for a map from type identifier to handle, its view, and the
//! contract of each operation says how the view after the call relates to the
//! view before it and what is returned. The laws below are stated over such
//! views: each takes the views before and after the calls it names, with what
//! the contracts of those calls promise as its premises. Two types are
//! distinct when their identifiers differ.

use crate::erasure::erased;
use crate::erasure::type_id;
use crate::erasure::Erased;
use crate::erasure::Storable;
use crate::model::get_or_insert_gives;
use crate::model::present;
use crate::model::lemma_insert_len;
use crate::model::lemma_remove_len;
use crate::model::value_in;
use std::any::TypeId;
use vstd::prelude::*;

verus! {

/// Type isolation. Inserting a value of type `T` leaves every other type `U`
/// as it was: whether a `U` is present, which value it is, and the handle
/// that holds it.
pub proof fn lemma_insert_isolates<T: Storable, U: Storable>(
    pre: Map<TypeId, Erased>,
    value: T,
    post: Map<TypeId, Erased>,
)
    requires
        type_id::<T>() != type_id::<U>(),
        post == pre.insert(type_id::<T>(), erased(value)),
    ensures
        present::<U>(post) == present::<U>(pre),
        value_in::<U>(post) == value_in::<U>(pre),
        present::<U>(pre) ==> post[type_id::<U>()] == pre[type_id::<U>()],
{
}

/// Removing the value of type `T` leaves every other type `U` as it was.
pub proof fn lemma_remove_isolates<T: Storable, U: Storable>(
    pre: Map<TypeId, Erased>,
    post: Map<TypeId, Erased>,
)
    requires
        type_id::<T>() != type_id::<U>(),
        post == pre.remove(type_id::<T>()),
    ensures
        present::<U>(post) == present::<U>(pre),
        value_in::<U>(post) == value_in::<U>(pre),
        present::<U>(pre) ==> post[type_id::<U>()] == pre[type_id::<U>()],
{
}

/// Insert and replace. After `insert(first)` has taken `start` to `middle`,
/// `insert(second)` on `middle` returns `Some(first)`, and the set it leaves
/// holds `second`: it is the set that inserting `second` alone would have
/// left.
pub proof fn lemma_insert_replaces<T: Storable>(
    start: Map<TypeId, Erased>,
    first: T,
    middle: Map<TypeId, Erased>,
    second: T,
    returned: Option<T>,
    end: Map<TypeId, Erased>,
)
    requires
        middle == start.insert(type_id::<T>(), erased(first)),
        value_in::<T>(middle) == Some(first),
        end == middle.insert(type_id::<T>(), erased(second)),
        value_in::<T>(end) == Some(second),
        returned == value_in::<T>(middle),
    ensures
        returned == Some(first),
        value_in::<T>(end) == Some(second),
        end == start.insert(type_id::<T>(), erased(second)),
{
    assert(end =~= start.insert(type_id::<T>(), erased(second)));
}

/// Round trip. After `insert(value)` has taken `start` to `middle`, `middle`
/// holds `value`; `remove` on `middle` returns `Some(value)` and leaves a set
/// without a value of type `T`. Where `start` had no such value either, the
/// set is back at `start`.
pub proof fn lemma_round_trip<T: Storable>(
    start: Map<TypeId, Erased>,
    value: T,
    middle: Map<TypeId, Erased>,
    returned: Option<T>,
    end: Map<TypeId, Erased>,
)
    requires
        middle == start.insert(type_id::<T>(), erased(value)),
        value_in::<T>(middle) == Some(value),
        end == middle.remove(type_id::<T>()),
        returned == value_in::<T>(middle),
    ensures
        present::<T>(middle),
        value_in::<T>(middle) == Some(value),
        returned == Some(value),
        !present::<T>(end),
        value_in::<T>(end) is None,
        !present::<T>(start) ==> end == start,
{
    if !present::<T>(start) {
        assert(end =~= start);
    }
}

/// Get-or-insert is idempotent. Of two calls in a row the second returns what
/// the first returned and changes nothing, whatever value it is offered.
pub proof fn lemma_get_or_insert_twice<T: Storable>(
    start: Map<TypeId, Erased>,
    first: T,
    middle: Map<TypeId, Erased>,
    got_first: T,
    second: T,
    end: Map<TypeId, Erased>,
    got_second: T,
)
    requires
        get_or_insert_gives(start, first, middle, got_first),
        get_or_insert_gives(middle, second, end, got_second),
    ensures
        got_second == got_first,
        end == middle,
        value_in::<T>(end) == Some(got_first),
{
}

/// Get-or-insert keeps the first value. On a set without a value of type `T`,
/// two calls in a row both return `first`, and the set holds `first` after
/// each: `second` never takes its place.
pub proof fn lemma_get_or_insert_keeps_first<T: Storable>(
    start: Map<TypeId, Erased>,
    first: T,
    middle: Map<TypeId, Erased>,
    got_first: T,
    second: T,
    end: Map<TypeId, Erased>,
    got_second: T,
)
    requires
        !present::<T>(start),
        get_or_insert_gives(start, first, middle, got_first),
        get_or_insert_gives(middle, second, end, got_second),
    ensures
        got_first == first,
        got_second == first,
        value_in::<T>(middle) == Some(first),
        value_in::<T>(end) == Some(first),
        end == start.insert(type_id::<T>(), erased(first)),
{
}

/// Length. Inserting a value of a type that was absent adds exactly one to
/// the number of stored types, and replacing a value leaves the number as it
/// was.
pub proof fn lemma_insert_changes_len<T: Storable>(
    pre: Map<TypeId, Erased>,
    value: T,
    post: Map<TypeId, Erased>,
)
    requires
        pre.dom().finite(),
        post == pre.insert(type_id::<T>(), erased(value)),
    ensures
        !present::<T>(pre) ==> post.len() == pre.len() + 1,
        present::<T>(pre) ==> post.len() == pre.len(),
{
    lemma_insert_len(pre, type_id::<T>(), erased(value));
}

/// Length. Removing a value that was present takes exactly one from the
/// number of stored types, and removing an absent one changes nothing.
pub proof fn lemma_remove_changes_len<T: Storable>(
    pre: Map<TypeId, Erased>,
    post: Map<TypeId, Erased>,
)
    requires
        pre.dom().finite(),
        post == pre.remove(type_id::<T>()),
    ensures
        present::<T>(pre) ==> post.len() == pre.len() - 1,
        !present::<T>(pre) ==> post.len() == pre.len() && post == pre,
{
    lemma_remove_len(pre, type_id::<T>());
    if !present::<T>(pre) {
        assert(post =~= pre);
    }
}

} // verus!
