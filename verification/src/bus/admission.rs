//! Admission and drain: tokio's semaphore and its mpsc channel.
//!
//! The semaphore holds one permit for each connection that may be open at
//! the same time. A permit is given back when the value that stands for it
//! is dropped, whichever way its holder ends. The mpsc channel carries no
//! values at all: each handler holds a sender, and the receiver learns that
//! every handler is gone when the channel reports itself disconnected.
//! Both are shared between threads, so nothing is promised here of what a
//! call returns at a given moment; only the number of permits that a
//! semaphore was made with is named.

use std::sync::Arc;
use tokio::sync::mpsc::error::TryRecvError;
use tokio::sync::mpsc::{Receiver, Sender};
use tokio::sync::{OwnedSemaphorePermit, Semaphore, TryAcquireError};
use vstd::prelude::*;

verus! {

/// A counting semaphore. Opaque.
#[verifier::external_type_specification]
#[verifier::external_body]
pub struct ExSemaphore(tokio::sync::Semaphore);

/// One permit of a semaphore; dropping it gives the permit back. Opaque.
#[verifier::external_type_specification]
#[verifier::external_body]
pub struct ExOwnedSemaphorePermit(tokio::sync::OwnedSemaphorePermit);

/// Why no permit was had: none is free, or the semaphore is closed.
/// Opaque.
#[verifier::external_type_specification]
#[verifier::external_body]
pub struct ExTryAcquireError(tokio::sync::TryAcquireError);

/// A sending end of an mpsc channel. Opaque.
#[verifier::external_type_specification]
#[verifier::external_body]
#[verifier::reject_recursive_types(T)]
pub struct ExMpscSender<T>(tokio::sync::mpsc::Sender<T>);

/// The receiving end of an mpsc channel. Opaque.
#[verifier::external_type_specification]
#[verifier::external_body]
#[verifier::reject_recursive_types(T)]
pub struct ExMpscReceiver<T>(tokio::sync::mpsc::Receiver<T>);

/// Why `try_recv` brought no value. Opaque; [`idle`] tells its variants
/// apart.
#[verifier::external_type_specification]
#[verifier::external_body]
pub struct ExMpscTryRecvError(tokio::sync::mpsc::error::TryRecvError);

/// The number of permits that a semaphore was made with.
pub uninterp spec fn permits_made(semaphore: Semaphore) -> usize;

/// `Semaphore::new`: a semaphore with that many permits. tokio panics
/// above `usize::MAX >> 3`.
pub assume_specification[ Semaphore::new ](permits: usize) -> (semaphore: Semaphore)
    requires
        permits <= usize::MAX >> 3,
    ensures
        permits_made(semaphore) == permits,
;

/// `Semaphore::available_permits`: how many permits are free right now.
pub assume_specification[ Semaphore::available_permits ](semaphore: &Semaphore) -> (free: usize)
;

/// `Semaphore::try_acquire_owned`: one permit if one is free and the
/// semaphore is open; it never waits.
pub assume_specification[ Semaphore::try_acquire_owned ](semaphore: Arc<Semaphore>) -> (permit:
    Result<OwnedSemaphorePermit, TryAcquireError>)
;

/// `mpsc::channel`: a bounded channel. tokio panics on a bound of zero,
/// and on one above `usize::MAX >> 3`, since it makes a semaphore of the
/// bound.
pub assume_specification<T>[ tokio::sync::mpsc::channel::<T> ](buffer: usize) -> (ends: (
    Sender<T>,
    Receiver<T>,
))
    requires
        0 < buffer <= usize::MAX >> 3,
;

/// `mpsc::Sender::clone`: one more sender on the same channel.
pub assume_specification<T>[ <Sender<T> as Clone>::clone ](tx: &Sender<T>) -> (copy: Sender<T>)
;

/// `mpsc::Receiver::try_recv`: the next value if one is waiting; it never
/// blocks.
pub assume_specification<T>[ Receiver::<T>::try_recv ](rx: &mut Receiver<T>) -> (got: Result<
    T,
    TryRecvError,
>)
;

/// Why a receive on an mpsc channel brought no value.
#[derive(Debug, Clone, Copy, PartialEq, Eq, Structural)]
pub enum Idle {
    /// Nothing is waiting, but a sender is still there.
    Empty,
    /// Nothing is waiting and every sender is gone.
    Disconnected,
}

/// Tells the variants of tokio's mpsc `TryRecvError` apart.
#[verifier::external_body]
pub(crate) fn idle(error: TryRecvError) -> (why: Idle) {
    match error {
        TryRecvError::Empty => Idle::Empty,
        TryRecvError::Disconnected => Idle::Disconnected,
    }
}

} // verus!
