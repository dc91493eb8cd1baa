//! The mutual-exclusion boundary of the registry: `std::sync::Mutex`, and
//! the sharing of it through `std::sync::Arc`.
//!
//! Whether a lock attempt succeeds depends on what other handlers are
//! doing, so nothing is promised of it; and what the lock guards is
//! whatever its last holder left there.

use std::sync::{Arc, Mutex, MutexGuard, TryLockError};
use vstd::prelude::*;

verus! {

/// A mutex of the standard library. Opaque.
#[verifier::external_type_specification]
#[verifier::external_body]
#[verifier::reject_recursive_types(T)]
pub struct ExMutex<T: ?Sized>(std::sync::Mutex<T>);

/// The guard of a locked mutex; dropping it unlocks. Opaque.
#[verifier::external_type_specification]
#[verifier::external_body]
#[verifier::reject_recursive_types(T)]
pub struct ExMutexGuard<'a, T: ?Sized + 'a>(std::sync::MutexGuard<'a, T>);

/// Why a lock attempt failed: the lock is held, or poisoned. Opaque.
#[verifier::external_type_specification]
#[verifier::external_body]
#[verifier::reject_recursive_types(T)]
pub struct ExTryLockError<T>(std::sync::TryLockError<T>);

/// `Mutex::try_lock`: the guard if the lock is free and not poisoned, an
/// error otherwise; it never blocks.
pub assume_specification<'a, T: ?Sized>[ Mutex::<T>::try_lock ](m: &'a Mutex<T>) -> (r: Result<
    MutexGuard<'a, T>,
    TryLockError<MutexGuard<'a, T>>,
>)
;

/// `MutexGuard::deref`: the guarded value, to read.
pub assume_specification<'a, 'b, T: ?Sized>[ <MutexGuard<'a, T> as std::ops::Deref>::deref ](
    g: &'b MutexGuard<'a, T>,
) -> (r: &'b T)
;

/// `MutexGuard::deref_mut`: the guarded value, to change.
pub assume_specification<'a, 'b, T: ?Sized>[ <MutexGuard<
    'a,
    T,
> as std::ops::DerefMut>::deref_mut ](g: &'b mut MutexGuard<'a, T>) -> (r: &'b mut T)
;

/// `Arc::clone`: one more pointer to the same allocation. To Verus an
/// `Arc` is what it points to, so the two are equal.
#[verifier::external_body]
pub(crate) fn share<T>(handle: &Arc<T>) -> (other: Arc<T>)
    ensures
        other == *handle,
{
    Arc::clone(handle)
}

} // verus!
