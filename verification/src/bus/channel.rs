//! The bounded fan-out queue behind a topic: tokio's broadcast channel.
//!
//! Every value sent is seen by every receiver that was subscribed at the
//! time, in the order of sending; a receiver that falls behind by more than
//! the channel holds is told how many values it lost and goes on from the
//! oldest one kept. All of that is tokio's doing and tokio's promise. Verus
//! does not see inside the channel, and other handlers use it at the same
//! time, so the declarations here promise nothing of what a send or a
//! receive returns. They keep out the arguments on which tokio panics, and
//! they say two things that do not change while a channel lives: the
//! capacity it was made with, and that a clone of a sender is a sender on
//! the same channel.

use tokio::sync::broadcast::error::{SendError, TryRecvError};
use tokio::sync::broadcast::{Receiver, Sender};
use crate::bus::protocol::Message;
use vstd::prelude::*;

verus! {

/// The sending end of a broadcast channel. Opaque.
#[verifier::external_type_specification]
#[verifier::external_body]
#[verifier::reject_recursive_types(T)]
pub struct ExSender<T>(tokio::sync::broadcast::Sender<T>);

/// A receiving end of a broadcast channel. Opaque.
#[verifier::external_type_specification]
#[verifier::external_body]
#[verifier::reject_recursive_types(T)]
pub struct ExReceiver<T>(tokio::sync::broadcast::Receiver<T>);

/// What `send` hands back when nobody is subscribed. Opaque.
#[verifier::external_type_specification]
#[verifier::external_body]
#[verifier::reject_recursive_types(T)]
pub struct ExSendError<T>(tokio::sync::broadcast::error::SendError<T>);

/// Why `try_recv` brought no value. Opaque; [`missed`] tells its variants
/// apart.
#[verifier::external_type_specification]
#[verifier::external_body]
pub struct ExTryRecvError(tokio::sync::broadcast::error::TryRecvError);

/// The capacity that the channel of a sender was asked to have when it was
/// made: how many messages it keeps for its slowest receiver. (tokio rounds
/// it up to a power of two; 1024 is one.)
pub uninterp spec fn capacity_made(tx: Sender<Message>) -> usize;

/// `broadcast::channel`: a new channel of the capacity asked for, and its
/// first receiver. tokio panics on a capacity of zero and on one above
/// `usize::MAX / 2`.
#[verifier::external_body]
pub(crate) fn message_channel(capacity: usize) -> (ends: (Sender<Message>, Receiver<Message>))
    requires
        0 < capacity <= usize::MAX / 2,
    ensures
        capacity_made(ends.0) == capacity,
{
    tokio::sync::broadcast::channel(capacity)
}

/// `Sender::new`: the sending end of a new channel that has no receiver
/// yet. tokio panics on a capacity of zero and on one above
/// `usize::MAX / 2`.
pub assume_specification<T>[ Sender::<T>::new ](capacity: usize) -> (tx: Sender<T>)
    requires
        0 < capacity <= usize::MAX / 2,
;

/// `Sender::clone`: one more handle on the same channel. To Verus a sender
/// is the channel that it sends on, so the two are equal.
pub assume_specification<T>[ <Sender<T> as Clone>::clone ](tx: &Sender<T>) -> (copy: Sender<T>)
    ensures
        copy == *tx,
;

/// `Sender::send`: hands the value to the receivers subscribed right now
/// and says how many there are, or hands it back when there is none.
pub assume_specification<T>[ Sender::<T>::send ](tx: &Sender<T>, value: T) -> (sent: Result<
    usize,
    SendError<T>,
>)
;

/// `Sender::subscribe`: a receiver for the values sent from now on. tokio
/// panics once a channel has `usize::MAX / 4` receivers, more than fit in
/// memory.
pub assume_specification<T>[ Sender::<T>::subscribe ](tx: &Sender<T>) -> (rx: Receiver<T>)
;

/// `Receiver::is_closed`: whether every sender of the channel is gone.
pub assume_specification<T>[ Receiver::<T>::is_closed ](rx: &Receiver<T>) -> (closed: bool)
;

/// `Receiver::try_recv`: the next value if one is waiting; it never blocks.
pub assume_specification<T: Clone>[ Receiver::<T>::try_recv ](rx: &mut Receiver<T>) -> (got:
    Result<T, TryRecvError>)
;

/// Why a receive attempt brought no value.
#[derive(Debug, Clone, Copy, PartialEq, Eq, Structural)]
pub enum Missed {
    /// Nothing is waiting, but the channel is open.
    Empty,
    /// The receiver fell behind and lost this many values; it now stands
    /// at the oldest value that the channel still holds.
    Lagged(u64),
    /// Every sender is gone and nothing is waiting.
    Closed,
}

/// Tells the variants of tokio's `TryRecvError` apart.
#[verifier::external_body]
pub(crate) fn missed(error: TryRecvError) -> (why: Missed) {
    match error {
        TryRecvError::Empty => Missed::Empty,
        TryRecvError::Lagged(skipped) => Missed::Lagged(skipped),
        TryRecvError::Closed => Missed::Closed,
    }
}

} // verus!
