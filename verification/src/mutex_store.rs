//! The concurrency wrapper: one store shared by many handles.
//!
//! A [`MutexStore`] can be duplicated cheaply; every duplicate refers to the
//! same underlying [`VecStore`], and each operation holds the store's lock
//! for its whole duration, so operations from different handles are fully
//! serialized.  If a caller panics while holding the lock, the store is
//! poisoned: every later operation on any handle fails with
//! [`Error::MutexPoisonError`], and there is no recovery.
//!
//! The trusted surface is kept to the lock primitives themselves — taking
//! the lock, borrowing the store it guards, and building a fresh lock.
//! The store operations run as ordinary verified calls on the borrowed
//! store, so a tuple handed back is proved, not assumed, to match the
//! pattern it was asked for.  Because other handles mutate the same store
//! between any two calls, no handle can say more about a result from its
//! own state; what holds of every outcome is stated, and a failure is only
//! ever the poisoned-store error.

use std::sync::Arc;
use std::sync::Mutex;
use std::sync::MutexGuard;

use vstd::prelude::*;

use crate::error::Error;
use crate::query_tuple::{query_matches, QueryTuple};
use crate::store::Store;
use crate::tuple::Tuple;
use crate::vec_store::VecStore;

verus! {

#[verifier::external_type_specification]
#[verifier::external_body]
#[verifier::reject_recursive_types(T)]
pub struct ExMutex<T: ?Sized>(Mutex<T>);

#[verifier::external_type_specification]
#[verifier::external_body]
#[verifier::reject_recursive_types(T)]
pub struct ExMutexGuard<'a, T: ?Sized + 'a>(MutexGuard<'a, T>);

/// Relies on Mutex::new: a new lock owning the given store.
#[verifier::external_body]
fn new_mutex(store: VecStore) -> (r: Mutex<VecStore>) {
    Mutex::new(store)
}

/// Relies on Mutex::lock: exclusive access to the shared store until the
/// guard is dropped, or a failure exactly when a prior panic while holding
/// the lock poisoned it.
#[verifier::external_body]
fn lock_store<'a>(store: &'a Arc<Mutex<VecStore>>) -> (r: Result<
    MutexGuard<'a, VecStore>,
    Error,
>)
    ensures
        (r matches Err(e) ==> e is MutexPoisonError),
{
    match store.lock() {
        Ok(guard) => Ok(guard),
        Err(_) => Err(Error::MutexPoisonError),
    }
}

/// Relies on MutexGuard's Deref: a borrow of the store the lock guards.
#[verifier::external_body]
fn guard_store<'a, 'b>(guard: &'b MutexGuard<'a, VecStore>) -> (store: &'b VecStore) {
    &**guard
}

/// Relies on MutexGuard's DerefMut: an exclusive borrow of the store the
/// lock guards.
#[verifier::external_body]
fn guard_store_mut<'a, 'b>(guard: &'b mut MutexGuard<'a, VecStore>) -> (store: &'b mut VecStore) {
    &mut **guard
}

/// A handle to a store shared with every clone of this handle.
#[derive(Debug)]
pub struct MutexStore {
    store: Arc<Mutex<VecStore>>,
}

impl Clone for MutexStore {
    /// Relies on Arc::clone: another handle to the same shared store.
    #[verifier::external_body]
    fn clone(&self) -> (r: Self) {
        MutexStore { store: Arc::clone(&self.store) }
    }
}

impl Default for MutexStore {
    /// A fresh, empty store that no other handle refers to yet.
    fn default() -> (r: Self) {
        MutexStore { store: Arc::new(new_mutex(VecStore::default())) }
    }
}

impl Store for MutexStore {
    /// The live count under exclusive access; a failure is only ever the
    /// poisoned-store error.
    fn size(&self) -> (r: Result<usize, Error>)
        ensures
            (r matches Err(e) ==> e is MutexPoisonError),
    {
        match lock_store(&self.store) {
            Ok(guard) => guard_store(&guard).size(),
            Err(e) => Err(e),
        }
    }

    /// Appends the tuple under exclusive access; a failure is only ever
    /// the poisoned-store error.
    fn write(&mut self, tuple: &Tuple) -> (r: Result<(), Error>)
        ensures
            (r matches Err(e) ==> e is MutexPoisonError),
    {
        match lock_store(&self.store) {
            Ok(mut guard) => guard_store_mut(&mut guard).write(tuple),
            Err(e) => Err(e),
        }
    }

    /// A non-destructive read under exclusive access; a tuple handed back
    /// matches the pattern, and a failure is only ever the poisoned-store
    /// error.
    fn read(&self, query_tuple: &QueryTuple) -> (r: Result<Option<Tuple>, Error>)
        ensures
            (r matches Ok(Some(t)) ==> query_matches(query_tuple@, t@)),
            (r matches Err(e) ==> e is MutexPoisonError),
    {
        match lock_store(&self.store) {
            Ok(guard) => guard_store(&guard).read(query_tuple),
            Err(e) => Err(e),
        }
    }

    /// A match-and-remove under exclusive access: at most one caller can
    /// remove a given slot, because removal happens while the lock is held.
    /// A tuple handed back matches the pattern, and a failure is only ever
    /// the poisoned-store error.
    fn take(&mut self, query_tuple: &QueryTuple) -> (r: Result<Option<Tuple>, Error>)
        ensures
            (r matches Ok(Some(t)) ==> query_matches(query_tuple@, t@)),
            (r matches Err(e) ==> e is MutexPoisonError),
    {
        match lock_store(&self.store) {
            Ok(mut guard) => guard_store_mut(&mut guard).take(query_tuple),
            Err(e) => Err(e),
        }
    }
}

} // verus!
