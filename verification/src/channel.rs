//! The bounded channel that carries outcomes from the workers to the
//! consumer, and the few facts about it that the rest of the crate relies on.

use vstd::prelude::*;
use crossbeam_channel::{Receiver, RecvTimeoutError, Sender};
use std::time::Duration;
use crate::outcome::ReadOutcome;

verus! {

/// How many outcomes may wait in the channel at once. A worker that finds
/// the channel full waits; nothing is dropped.
pub const CHANNEL_CAPACITY: usize = 4096;

/// How long the consumer waits for the next outcome before it looks for a
/// request to stop, in milliseconds.
pub const POLL_TIMEOUT_MS: u32 = 50;

/// How many files one worker has in flight at the same time.
pub const PER_THREAD_CONCURRENCY: usize = 32;

/// The largest capacity that `bounded_channel` is asked for.
pub const MAX_CHANNEL_CAPACITY: usize = 65_535;

/// The receiving side of a `crossbeam_channel` channel, opaque to Verus.
#[verifier::external_type_specification]
#[verifier::external_body]
#[verifier::reject_recursive_types(T)]
pub struct ExReceiver<T>(Receiver<T>);

/// The sending side of a `crossbeam_channel` channel, opaque to Verus.
#[verifier::external_type_specification]
#[verifier::external_body]
#[verifier::reject_recursive_types(T)]
pub struct ExSender<T>(Sender<T>);

/// The capacity that the channel behind `receiver` was made with, `None` for
/// an unbounded one. It is fixed when the channel is made.
pub uninterp spec fn channel_capacity(receiver: Receiver<ReadOutcome>) -> Option<usize>;

/// What one bounded wait on the channel came to.
pub enum Received {
    /// The next outcome in the channel.
    Outcome(ReadOutcome),
    /// The wait ran out with the channel empty and some sender still alive.
    Timeout,
    /// The channel is empty and every sender is gone.
    Disconnected,
}

/// Trusted: calls `crossbeam_channel::bounded`. Claimed of it: the receiver
/// that comes back belongs to a channel of exactly the capacity asked for
/// (zero gives a rendezvous channel, which reports capacity zero). The bound
/// on `capacity` keeps clear of the sizes at which `bounded` panics.
#[verifier::external_body]
pub(crate) fn bounded_channel(capacity: usize) -> (ends: (Sender<ReadOutcome>, Receiver<ReadOutcome>))
    requires
        capacity <= MAX_CHANNEL_CAPACITY,
    ensures
        channel_capacity(ends.1) == Some(capacity),
{
    crossbeam_channel::bounded(capacity)
}

/// Trusted: calls `crossbeam_channel::Receiver::capacity`. Claimed of it: it
/// reports the capacity that the channel was made with.
#[verifier::external_body]
pub(crate) fn capacity_of(receiver: &Receiver<ReadOutcome>) -> (capacity: Option<usize>)
    ensures
        capacity == channel_capacity(*receiver),
{
    receiver.capacity()
}

/// Trusted: calls `crossbeam_channel::Receiver::recv_timeout` with a timeout
/// of `timeout_ms` milliseconds and names the three ways it can end. Nothing
/// is claimed about which of them happens: that depends on the senders.
#[verifier::external_body]
pub(crate) fn receive_within(receiver: &Receiver<ReadOutcome>, timeout_ms: u32) -> Received {
    match receiver.recv_timeout(Duration::from_millis(u64::from(timeout_ms))) {
        Ok(outcome) => Received::Outcome(outcome),
        Err(RecvTimeoutError::Timeout) => Received::Timeout,
        Err(RecvTimeoutError::Disconnected) => Received::Disconnected,
    }
}

} // verus!
