//! Values with their type forgotten, and the way back.
//!
//! A value of a storable type can be put behind one uniform handle and later
//! recovered by naming its type again. This module says which types are
//! storable and what a handle holds, in terms of the value it was made from,
//! and gives the few operations of the standard library that make and open
//! handles.
//!
//! In specifications a handle is the erasure `erased(v)` of the value `v` it
//! was made from, and a type `T` is known by its identifier `type_id::<T>()`.
//! Two things are taken from the standard library without proof, and stated
//! with the functions below that call it: a handle carries the identifier of
//! the type of its value, and opening a handle under that type gives the
//! value back. The second holds only of values that are there when the
//! program runs, which is what `Storable` is for. That two types are distinct
//! is not something a proof can know: it is the fact that their identifiers
//! differ, which `same_type` tests.

use crate::store::same_id;
use std::any::Any;
use std::any::TypeId;
use std::rc::Rc;
use std::sync::Arc;
use vstd::prelude::*;

verus! {

/// A type whose values can be stored behind a handle.
///
/// A handle gives back the value it was made from, so the whole value has to
/// be there when the program runs: a storable type has no `Ghost` or
/// `Tracked` content, directly or inside its fields, and no other content
/// that specifications see and the running program does not. To implement
/// the trait for a type is to state that of it. The implementations below
/// cover the plain types of the standard library; a type of one's own needs
/// an implementation of its own, which has nothing to define.
pub trait Storable: 'static {

}

impl Storable for () {

}

impl Storable for bool {

}

impl Storable for char {

}

impl Storable for u8 {

}

impl Storable for u16 {

}

impl Storable for u32 {

}

impl Storable for u64 {

}

impl Storable for u128 {

}

impl Storable for usize {

}

impl Storable for i8 {

}

impl Storable for i16 {

}

impl Storable for i32 {

}

impl Storable for i64 {

}

impl Storable for i128 {

}

impl Storable for isize {

}

impl Storable for String {

}

impl Storable for &'static str {

}

impl<T: Storable> Storable for &'static T {

}

impl<T: Storable> Storable for Box<T> {

}

impl<T: Storable> Storable for Rc<T> {

}

impl<T: Storable> Storable for Arc<T> {

}

impl<T: Storable> Storable for Option<T> {

}

impl<T: Storable, E: Storable> Storable for Result<T, E> {

}

impl<T: Storable> Storable for Vec<T> {

}

impl<T: Storable, const N: usize> Storable for [T; N] {

}

impl<A: Storable> Storable for (A,) {

}

impl<A: Storable, B: Storable> Storable for (A, B) {

}

impl<A: Storable, B: Storable, C: Storable> Storable for (A, B, C) {

}

impl<A: Storable, B: Storable, C: Storable, D: Storable> Storable for (A, B, C, D) {

}

/// An owned value of some storable type behind a type-erased handle.
///
/// The handle is a `Box<dyn Any>`. In specifications a handle is known only
/// as the erasure of the value it was made from.
#[verifier::external_body]
pub struct Erased {
    inner: Box<dyn Any>,
}

/// The handle that boxing a value gives: what `Box::new` returns once the
/// box is seen as a `Box<dyn Any>`.
pub uninterp spec fn sealed(c: Box<dyn Storable>) -> Erased;

/// The identifier of the type of the value inside a handle: what
/// `Any::type_id` reports of that value.
pub uninterp spec fn type_of(e: Erased) -> TypeId;

/// The handle that holds `v`.
pub open spec fn erased<T: Storable>(v: T) -> Erased {
    sealed(Box::new(v))
}

/// The identifier of the type `T`: the one that handles of values of type `T`
/// carry.
pub open spec fn type_id<T: Storable>() -> TypeId {
    type_of(erased(arbitrary::<T>()))
}

/// Whether the handle holds a value of type `T`.
pub open spec fn is_a<T: Storable>(e: Erased) -> bool {
    type_of(e) == type_id::<T>()
}

/// The value of type `T` that the handle holds. Meaningful where
/// `is_a::<T>(e)`.
pub open spec fn payload<T: Storable>(e: Erased) -> T {
    choose|v: T| erased(v) == e
}

/// The handle holds `v`: it is the erasure of `v`, and reading it as a `T`
/// gives `v` back.
pub open spec fn holds<T: Storable>(e: Erased, v: T) -> bool {
    e == erased(v) && payload::<T>(e) == v
}

/// `TypeId::of::<T>()`. The identifier it returns is the one that every value
/// of type `T` reports through `Any::type_id`.
#[verifier::external_body]
pub(crate) fn type_id_of<T: Storable>() -> (id: TypeId)
    ensures
        forall|v: T| #[trigger] type_of(erased(v)) == id,
{
    TypeId::of::<T>()
}

/// `Box::new(v)`, seen as a `Box<dyn Any>`. The handle holds `v`.
#[verifier::external_body]
pub(crate) fn erase<T: Storable>(v: T) -> (e: Erased)
    ensures
        e == sealed(Box::new(v)),
        holds(e, v),
{
    Erased { inner: Box::new(v) }
}

/// `<dyn Any>::downcast_ref::<T>`. It gives a reference to the value inside
/// when that value is of type `T`, and `None` when it is of another type.
#[verifier::external_body]
pub(crate) fn downcast_ref<T: Storable>(e: &Erased) -> (r: Option<&T>)
    ensures
        r is Some <==> is_a::<T>(*e),
        r matches Some(v) ==> holds(*e, *v),
{
    e.inner.downcast_ref::<T>()
}

/// `<dyn Any>::downcast_mut::<T>`. It gives a mutable reference to the value
/// inside when that value is of type `T`; what the handle holds afterwards is
/// what the caller leaves behind that reference. When the value is of another
/// type it gives `None` and the handle is unchanged.
#[verifier::external_body]
pub(crate) fn downcast_mut<T: Storable>(e: &mut Erased) -> (r: Option<&mut T>)
    ensures
        r is Some <==> is_a::<T>(*old(e)),
        match r {
            Some(v) => holds(*old(e), *v) && holds(*final(e), *final(v)),
            None => *final(e) == *old(e),
        },
{
    e.inner.downcast_mut::<T>()
}

/// `Box<dyn Any>::downcast::<T>`, and the value moved out of the box it gives.
/// The value inside comes back when it is of type `T`; when it is of another
/// type the result is `None`.
#[verifier::external_body]
pub(crate) fn unerase<T: Storable>(e: Erased) -> (r: Option<T>)
    ensures
        r is Some <==> is_a::<T>(e),
        r matches Some(v) ==> holds(e, v),
{
    match e.inner.downcast::<T>() {
        Ok(b) => Some(*b),
        Err(_) => None,
    }
}

/// A handle whose value can be moved to another thread: a
/// `Box<dyn Any + Send>`.
#[verifier::external_body]
pub struct SendErased {
    inner: Box<dyn Any + Send>,
}

/// The handle without its `Send` marker: the same box seen as a
/// `Box<dyn Any>`.
pub uninterp spec fn send_handle(e: SendErased) -> Erased;

/// `Box::new(v)`, seen as a `Box<dyn Any + Send>`. The handle holds `v`.
#[verifier::external_body]
pub(crate) fn erase_send<T: Storable + Send>(v: T) -> (e: SendErased)
    ensures
        holds(send_handle(e), v),
{
    SendErased { inner: Box::new(v) }
}

/// `<dyn Any + Send>::downcast_ref::<T>`. It gives a reference to the value
/// inside when that value is of type `T`, and `None` when it is of another
/// type.
#[verifier::external_body]
pub(crate) fn downcast_ref_send<T: Storable>(e: &SendErased) -> (r: Option<&T>)
    ensures
        r is Some <==> is_a::<T>(send_handle(*e)),
        r matches Some(v) ==> holds(send_handle(*e), *v),
{
    e.inner.downcast_ref::<T>()
}

/// `<dyn Any + Send>::downcast_mut::<T>`. It gives a mutable reference to the
/// value inside when that value is of type `T`; what the handle holds
/// afterwards is what the caller leaves behind that reference. When the value
/// is of another type it gives `None` and the handle is unchanged.
#[verifier::external_body]
pub(crate) fn downcast_mut_send<T: Storable>(e: &mut SendErased) -> (r: Option<&mut T>)
    ensures
        r is Some <==> is_a::<T>(send_handle(*old(e))),
        match r {
            Some(v) => holds(send_handle(*old(e)), *v) && holds(
                send_handle(*final(e)),
                *final(v),
            ),
            None => *final(e) == *old(e),
        },
{
    e.inner.downcast_mut::<T>()
}

/// `Box<dyn Any + Send>::downcast::<T>`, and the value moved out of the box
/// it gives. The value inside comes back when it is of type `T`; when it is
/// of another type the result is `None`.
#[verifier::external_body]
pub(crate) fn unerase_send<T: Storable>(e: SendErased) -> (r: Option<T>)
    ensures
        r is Some <==> is_a::<T>(send_handle(e)),
        r matches Some(v) ==> holds(send_handle(e), v),
{
    match e.inner.downcast::<T>() {
        Ok(b) => Some(*b),
        Err(_) => None,
    }
}

/// A handle whose value can be moved to, and shared with, another thread: a
/// `Box<dyn Any + Send + Sync>`.
#[verifier::external_body]
pub struct SyncErased {
    inner: Box<dyn Any + Send + Sync>,
}

/// The handle without its `Send` and `Sync` markers: the same box seen as a
/// `Box<dyn Any>`.
pub uninterp spec fn sync_handle(e: SyncErased) -> Erased;

/// `Box::new(v)`, seen as a `Box<dyn Any + Send + Sync>`. The handle holds
/// `v`.
#[verifier::external_body]
pub(crate) fn erase_sync<T: Storable + Send + Sync>(v: T) -> (e: SyncErased)
    ensures
        holds(sync_handle(e), v),
{
    SyncErased { inner: Box::new(v) }
}

/// `<dyn Any + Send + Sync>::downcast_ref::<T>`. It gives a reference to the
/// value inside when that value is of type `T`, and `None` when it is of
/// another type.
#[verifier::external_body]
pub(crate) fn downcast_ref_sync<T: Storable>(e: &SyncErased) -> (r: Option<&T>)
    ensures
        r is Some <==> is_a::<T>(sync_handle(*e)),
        r matches Some(v) ==> holds(sync_handle(*e), *v),
{
    e.inner.downcast_ref::<T>()
}

/// `<dyn Any + Send + Sync>::downcast_mut::<T>`. It gives a mutable reference
/// to the value inside when that value is of type `T`; what the handle holds
/// afterwards is what the caller leaves behind that reference. When the value
/// is of another type it gives `None` and the handle is unchanged.
#[verifier::external_body]
pub(crate) fn downcast_mut_sync<T: Storable>(e: &mut SyncErased) -> (r: Option<&mut T>)
    ensures
        r is Some <==> is_a::<T>(sync_handle(*old(e))),
        match r {
            Some(v) => holds(sync_handle(*old(e)), *v) && holds(
                sync_handle(*final(e)),
                *final(v),
            ),
            None => *final(e) == *old(e),
        },
{
    e.inner.downcast_mut::<T>()
}

/// `Box<dyn Any + Send + Sync>::downcast::<T>`, and the value moved out of the
/// box it gives. The value inside comes back when it is of type `T`; when it
/// is of another type the result is `None`.
#[verifier::external_body]
pub(crate) fn unerase_sync<T: Storable>(e: SyncErased) -> (r: Option<T>)
    ensures
        r is Some <==> is_a::<T>(sync_handle(e)),
        r matches Some(v) ==> holds(sync_handle(e), v),
{
    match e.inner.downcast::<T>() {
        Ok(b) => Some(*b),
        Err(_) => None,
    }
}

/// The identifier of `T`. Every handle of a value of type `T` carries it.
pub fn key<T: Storable>() -> (id: TypeId)
    ensures
        id == type_id::<T>(),
        forall|v: T| type_of(#[trigger] erased(v)) == type_id::<T>(),
{
    let id = type_id_of::<T>();
    proof {
        assert(type_of(erased(arbitrary::<T>())) == id);
        assert forall|v: T| type_of(#[trigger] erased(v)) == id by {
            assert(type_of(erased(v)) == id);
        }
    }
    id
}

/// Whether `T` and `U` are the same type: whether they have the same
/// identifier.
pub fn same_type<T: Storable, U: Storable>() -> (r: bool)
    ensures
        r == (type_id::<T>() == type_id::<U>()),
{
    same_id(key::<T>(), key::<U>())
}

} // verus!
