//! Trusted declarations for the multi-producer, single-consumer, unbounded
//! event channel supplied by the `flume` crate.
use vstd::prelude::*;

verus! {

#[verifier::external_type_specification]
#[verifier::external_body]
#[verifier::reject_recursive_types(T)]
/// Declares `flume::Sender` so that it can stand in signatures and fields.
pub struct ExSender<T>(flume::Sender<T>);

#[verifier::external_type_specification]
#[verifier::external_body]
#[verifier::reject_recursive_types(T)]
/// Declares `flume::Receiver` so that it can stand in signatures and fields.
pub struct ExReceiver<T>(flume::Receiver<T>);

/// Relies on flume::unbounded: creates a connected sender/receiver pair for
/// an unbounded channel, on which sends never block.
#[verifier::external_body]
pub(crate) fn new_channel<T>() -> (r: (flume::Sender<T>, flume::Receiver<T>)) {
    flume::unbounded()
}

/// Relies on flume::Sender::send: on an unbounded channel it does not block,
/// and it fails only once the receiver has been dropped. Whether the receiver
/// is still alive depends on another thread, so nothing is promised about
/// which outcome occurs.
#[verifier::external_body]
pub(crate) fn send_raw<T>(tx: &flume::Sender<T>, value: T) -> (r: Result<(), ()>) {
    match tx.send(value) {
        Ok(()) => Ok(()),
        Err(_) => Err(()),
    }
}

/// Relies on flume::Receiver::recv: blocks until a message is available and
/// returns it, or fails once every sender has been dropped and the queue has
/// drained. Which event arrives depends on the producing threads, so nothing
/// is promised about the returned value.
#[verifier::external_body]
pub(crate) fn recv_raw<T>(rx: &flume::Receiver<T>) -> (r: Result<T, ()>) {
    match rx.recv() {
        Ok(v) => Ok(v),
        Err(flume::RecvError::Disconnected) => Err(()),
    }
}

/// Relies on flume::Sender::clone: the clone is a handle sending into the
/// same channel.
#[verifier::external_body]
pub(crate) fn clone_sender<T>(tx: &flume::Sender<T>) -> (r: flume::Sender<T>) {
    tx.clone()
}

} // verus!
