//! The unbounded, ordered channel between the ingestion and buffering stages.
//!
//! The channel is `std::sync::mpsc`. Its other end lives on another thread, so
//! nothing here says which outcome a call observes; the stages decide what to
//! do for every outcome.

use vstd::prelude::*;
use std::sync::mpsc::{Receiver, Sender, TryRecvError};

verus! {

#[verifier::external_type_specification]
#[verifier::external_body]
#[verifier::reject_recursive_types(T)]
pub struct ExSender<T>(Sender<T>);

#[verifier::external_type_specification]
#[verifier::external_body]
#[verifier::reject_recursive_types(T)]
pub struct ExReceiver<T>(Receiver<T>);

/// What one non-blocking receive observed.
#[derive(Clone, Copy, Debug, PartialEq, Eq, Structural)]
pub enum ChannelEvent {
    /// A sample was waiting.
    Received(u64),
    /// Nothing is waiting; the producer is still connected.
    Empty,
    /// Nothing is waiting and the producer is gone.
    Disconnected,
}

/// `Receiver::try_recv`: returns at once. Which of the three events is
/// observed depends on the producer, so nothing is promised about it.
#[verifier::external_body]
pub(crate) fn try_receive(rx: &Receiver<u64>) -> (event: ChannelEvent) {
    match rx.try_recv() {
        Ok(sample) => ChannelEvent::Received(sample),
        Err(TryRecvError::Empty) => ChannelEvent::Empty,
        Err(TryRecvError::Disconnected) => ChannelEvent::Disconnected,
    }
}

/// `Sender::send`: queues the sample, or, when the receiver is gone, hands
/// the same sample back.
#[verifier::external_body]
pub(crate) fn send(tx: &Sender<u64>, sample: u64) -> (r: Result<(), u64>)
    ensures
        r is Err ==> r->Err_0 == sample,
{
    tx.send(sample).map_err(|refused| refused.0)
}

} // verus!
