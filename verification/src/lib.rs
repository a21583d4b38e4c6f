//! Sets that keep at most one value of each type, with the type itself as
//! the key.
//!
//! `ErasedSet` stores a single instance of any storable type; `ErasedSendSet`
//! and `ErasedSyncSet` do the same for types that are `Send`, and `Send` and
//! `Sync`. A type is storable when it implements `Storable`, which the plain
//! types of the standard library do and which a type of one's own implements
//! in one line. Values go in with their type forgotten and come out under the
//! type that the caller names. Every operation has a contract over the map
//! from type identifier to stored value that the set stands for, and `laws`
//! states what holds across calls.

pub mod erasure;
pub mod laws;
pub mod model;
pub mod send;
pub mod set;
pub mod store;
pub mod sync;

pub use crate::erasure::Storable;
pub use crate::send::ErasedSendSet;
pub use crate::set::ErasedSet;
pub use crate::sync::ErasedSyncSet;
