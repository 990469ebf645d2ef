//! The reader/writer lock that guards an interner's store. A poisoned lock is
//! recovered rather than reported: every critical section of the interner
//! leaves the store whole, so a panic elsewhere is no reason to refuse
//! service.
use std::sync::{PoisonError, RwLock, RwLockReadGuard, RwLockWriteGuard};
use vstd::prelude::*;

use crate::table::InternTable;

verus! {

#[verifier::external_type_specification]
#[verifier::external_body]
#[verifier::reject_recursive_types(T)]
pub struct ExRwLock<T: ?Sized>(RwLock<T>);

#[verifier::external_type_specification]
#[verifier::external_body]
#[verifier::reject_recursive_types(T)]
pub struct ExRwLockReadGuard<'a, T: ?Sized>(RwLockReadGuard<'a, T>);

#[verifier::external_type_specification]
#[verifier::external_body]
#[verifier::reject_recursive_types(T)]
pub struct ExRwLockWriteGuard<'a, T: ?Sized + 'a>(RwLockWriteGuard<'a, T>);

/// Relies on `std::sync::RwLock::new`: an unlocked lock that owns `store`.
#[verifier::external_body]
pub(crate) fn new_lock(store: InternTable) -> (r: RwLock<InternTable>) {
    RwLock::new(store)
}

/// Relies on `std::sync::RwLock::read`: blocks until shared access is
/// granted; the guard releases it when dropped. A poisoned lock still hands
/// out its guard through `PoisonError::into_inner`.
#[verifier::external_body]
pub(crate) fn lock_shared(lock: &RwLock<InternTable>) -> (r: RwLockReadGuard<'_, InternTable>) {
    lock.read().unwrap_or_else(PoisonError::into_inner)
}

/// Relies on `Deref` of `std::sync::RwLockReadGuard`: the store the lock
/// guards, readable while the guard lives.
#[verifier::external_body]
pub(crate) fn shared_store<'b>(guard: &'b RwLockReadGuard<'_, InternTable>) -> (r: &'b InternTable) {
    &**guard
}

/// Relies on `std::sync::RwLock::write`: blocks until exclusive access is
/// granted; the guard releases it when dropped. A poisoned lock still hands
/// out its guard through `PoisonError::into_inner`.
#[verifier::external_body]
pub(crate) fn lock_exclusive(lock: &RwLock<InternTable>) -> (r: RwLockWriteGuard<'_, InternTable>) {
    lock.write().unwrap_or_else(PoisonError::into_inner)
}

/// Relies on `DerefMut` of `std::sync::RwLockWriteGuard`: the store the lock
/// guards, writable while the guard lives.
#[verifier::external_body]
pub(crate) fn exclusive_store<'b>(guard: &'b mut RwLockWriteGuard<'_, InternTable>) -> (r: &'b mut InternTable) {
    &mut **guard
}

} // verus!
