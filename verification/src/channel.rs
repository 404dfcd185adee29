//! The one-shot outcome channel of a job, seen from the consumer side.
//!
//! The background computation owns the sending half and sends at most one
//! terminal value; the registry holds the receiving half and only ever looks
//! at it without blocking.

use std::sync::mpsc::Receiver;
use std::sync::mpsc::TryRecvError;
use vstd::prelude::*;

verus! {

/// Declares std's mpsc receiver so that it can stand in fields and
/// signatures. Its content is opaque here: what a receive attempt yields
/// depends on the producer, so nothing is assumed about it.
#[verifier::external_type_specification]
#[verifier::external_body]
#[verifier::reject_recursive_types(T)]
pub struct ExReceiver<T>(Receiver<T>);

/// What one non-blocking look at an outcome channel yielded: a delivered
/// value, an empty but still open channel, or a channel closed without a
/// value (the computation went away before sending).
pub enum RecvOutcome<V> {
    Value(V),
    Empty,
    Disconnected,
}

/// Relies on std's `mpsc::Receiver::try_recv`: it never blocks, and it
/// reports either a delivered value, an empty open channel, or a channel
/// whose sender is gone. Which of the three comes back depends on the
/// background computation, so no outcome is promised here; the registry
/// states what holds of every outcome.
#[verifier::external_body]
pub(crate) fn try_recv_outcome<V>(receiver: &Receiver<V>) -> (o: RecvOutcome<V>) {
    match receiver.try_recv() {
        Ok(v) => RecvOutcome::Value(v),
        Err(TryRecvError::Empty) => RecvOutcome::Empty,
        Err(TryRecvError::Disconnected) => RecvOutcome::Disconnected,
    }
}

} // verus!
