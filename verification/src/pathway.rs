//! The trusted boundary to tokio's bounded multi-producer channels.
//!
//! A pathway is one bounded FIFO queue with a producer handle and a consumer
//! handle. Everything the routing core knows about a pathway it knows through
//! the contracts in this module; the queue's own behaviour (capacity,
//! suspension, FIFO order, closure on drop) is tokio's. The queue state is
//! shared between its two handles and changes through `&self` calls from any
//! holder, so no contract here can speak of the queue's contents: each
//! wrapper states only what holds of every outcome.

use vstd::prelude::*;

verus! {

#[verifier::external_type_specification]
#[verifier::external_body]
#[verifier::reject_recursive_types(T)]
pub struct ExSender<T>(tokio::sync::mpsc::Sender<T>);

#[verifier::external_type_specification]
#[verifier::external_body]
#[verifier::reject_recursive_types(T)]
pub struct ExReceiver<T>(tokio::sync::mpsc::Receiver<T>);

/// The outcome of a non-suspending push into a pathway, carrying the
/// rejected value back to the caller when the pathway could not accept it.
pub enum TryPush<T> {
    /// The value entered the queue.
    Delivered,
    /// The queue was at capacity; the value comes back.
    Full(T),
    /// The consumer handle was dropped; the value comes back.
    Closed(T),
}

/// Relies on `tokio::sync::mpsc::channel`: builds one bounded FIFO pathway
/// and returns its producer and consumer handles. tokio panics on a buffer
/// size of zero, and on one above the permit limit of its semaphore,
/// `usize::MAX >> 3`; the precondition excludes both.
#[verifier::external_body]
pub(crate) fn new_pathway<T>(capacity: usize) -> (r: (
    tokio::sync::mpsc::Sender<T>,
    tokio::sync::mpsc::Receiver<T>,
))
    requires
        1 <= capacity <= usize::MAX >> 3,
{
    tokio::sync::mpsc::channel(capacity)
}

/// Relies on `tokio::sync::mpsc::Sender::clone`: the clone is a further
/// producer handle of the same pathway.
#[verifier::external_body]
pub(crate) fn clone_producer<T>(tx: &tokio::sync::mpsc::Sender<T>) -> (r: tokio::sync::mpsc::Sender<T>) {
    tx.clone()
}

/// Relies on `tokio::sync::mpsc::Sender::blocking_send`: waits while the
/// pathway is at capacity, delivers the value once room frees up, and returns
/// it inside `Err` once every consumer handle is gone. Must be called from
/// synchronous code; tokio panics when it is called inside an asynchronous
/// execution context.
#[verifier::external_body]
pub(crate) fn push_blocking<T>(tx: &tokio::sync::mpsc::Sender<T>, value: T) -> (r: Result<(), T>)
    ensures
        r matches Err(v) ==> v == value,
{
    match tx.blocking_send(value) {
        Ok(()) => Ok(()),
        Err(tokio::sync::mpsc::error::SendError(v)) => Err(v),
    }
}

/// Relies on `tokio::sync::mpsc::Sender::try_send`: never waits; delivers the
/// value when the pathway has room, and otherwise hands it back, telling a
/// full pathway apart from one whose consumer handle is gone.
#[verifier::external_body]
pub(crate) fn push_now<T>(tx: &tokio::sync::mpsc::Sender<T>, value: T) -> (r: TryPush<T>)
    ensures
        r matches TryPush::Full(v) ==> v == value,
        r matches TryPush::Closed(v) ==> v == value,
{
    match tx.try_send(value) {
        Ok(()) => TryPush::Delivered,
        Err(tokio::sync::mpsc::error::TrySendError::Full(v)) => TryPush::Full(v),
        Err(tokio::sync::mpsc::error::TrySendError::Closed(v)) => TryPush::Closed(v),
    }
}

} // verus!
