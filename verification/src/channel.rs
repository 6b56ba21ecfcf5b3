//! The channel primitives that the scheduler is built on.
//!
//! Nothing in this file is proved: each item states what the scheduler takes
//! for granted of `tokio::sync::oneshot` and of `flume`.

use vstd::prelude::*;
use crate::batched_engine::QueuedRequest;

verus! {

/// `tokio::sync::oneshot::Sender`: the sending half of a single-shot channel.
#[verifier::external_type_specification]
#[verifier::external_body]
#[verifier::reject_recursive_types(T)]
pub struct ExOneshotSender<T>(tokio::sync::oneshot::Sender<T>);

/// `tokio::sync::oneshot::Receiver`: the awaiting half of a single-shot channel.
#[verifier::external_type_specification]
#[verifier::external_body]
#[verifier::reject_recursive_types(T)]
pub struct ExOneshotReceiver<T>(tokio::sync::oneshot::Receiver<T>);

/// `tokio::sync::oneshot::error::RecvError`: what awaiting a receiver yields
/// when its sender went away without sending.
#[verifier::external_type_specification]
#[verifier::external_body]
pub struct ExOneshotRecvError(tokio::sync::oneshot::error::RecvError);

/// `flume::Sender`: a handle through which records enter a channel.
#[verifier::external_type_specification]
#[verifier::external_body]
#[verifier::reject_recursive_types(T)]
pub struct ExFlumeSender<T>(flume::Sender<T>);

/// `flume::Receiver`: the handle from which the records of a channel are taken.
#[verifier::external_type_specification]
#[verifier::external_body]
#[verifier::reject_recursive_types(T)]
pub struct ExFlumeReceiver<T>(flume::Receiver<T>);

/// `flume::SendError`: what sending yields when every receiver is gone; it
/// holds the record that could not be sent.
#[verifier::external_type_specification]
#[verifier::external_body]
#[verifier::reject_recursive_types(T)]
pub struct ExFlumeSendError<T>(flume::SendError<T>);

/// `flume::RecvError`: what receiving yields when every sender is gone and the
/// channel is empty.
#[verifier::external_type_specification]
#[verifier::external_body]
pub struct ExFlumeRecvError(flume::RecvError);

/// `tokio::sync::oneshot::channel` makes a connected pair. Nothing is claimed
/// of the pair: which receiver belongs to which sender is not visible in
/// contracts.
pub assume_specification<T>[ tokio::sync::oneshot::channel::<T> ]() -> (pair: (
    tokio::sync::oneshot::Sender<T>,
    tokio::sync::oneshot::Receiver<T>,
));

/// `tokio::sync::oneshot::Sender::send` consumes the sender and never waits.
/// Whether it succeeds depends on whether the receiver is still alive, so that
/// is left open; when it fails, the value handed back is the one that was
/// given.
pub assume_specification<T>[ tokio::sync::oneshot::Sender::<T>::send ](
    sender: tokio::sync::oneshot::Sender<T>,
    value: T,
) -> (returned: Result<(), T>)
    ensures
        returned matches Err(back) ==> back == value,
;

/// The capacity that an admission channel was made with; zero for a
/// rendezvous channel. It is fixed when the channel is made and is what
/// `flume::Receiver::capacity` reports for a bounded channel.
pub uninterp spec fn capacity_of(receiver: flume::Receiver<QueuedRequest>) -> nat;

/// `flume::bounded` makes a channel that holds at most `capacity` records;
/// with capacity zero a sender waits until a receiver takes the record from
/// its hands. The contract states the capacity and nothing else: that the two
/// handles belong together is not visible in contracts.
#[verifier::external_body]
pub(crate) fn bounded_channel(capacity: usize) -> (pair: (
    flume::Sender<QueuedRequest>,
    flume::Receiver<QueuedRequest>,
))
    ensures
        capacity_of(pair.1) == capacity,
{
    flume::bounded(capacity)
}

} // verus!
