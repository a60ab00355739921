//! The channels that carry messages between caller, dispatcher and workers.
//!
//! All communication runs over `std::sync::mpsc` channels, which vstd gives
//! no specification, so the channel ends are declared opaque and each
//! operation the pool uses stands behind one trusted wrapper. What a receive
//! yields depends on the other execution units, so the wrappers promise
//! nothing about which message arrives; the dispatcher's and workers' own
//! contracts state what holds of every outcome.

use std::sync::mpsc::{Receiver, Sender, TryRecvError};
use vstd::prelude::*;

verus! {

/// Declares `std::sync::mpsc::Sender` so that it can stand in signatures
/// and fields; its values are opaque here.
#[verifier::external_type_specification]
#[verifier::external_body]
#[verifier::reject_recursive_types(T)]
pub struct ExSender<T>(Sender<T>);

/// Declares `std::sync::mpsc::Receiver` so that it can stand in signatures
/// and fields; its values are opaque here.
#[verifier::external_type_specification]
#[verifier::external_body]
#[verifier::reject_recursive_types(T)]
pub struct ExReceiver<T>(Receiver<T>);

/// Outcome of a non-blocking poll of a receiver.
pub(crate) enum Polled<T> {
    /// A message was waiting.
    Received(T),
    /// Nothing was waiting, and at least one sender is still connected.
    Nothing,
    /// Every sender is gone and the channel holds nothing more.
    Closed,
}

/// Relies on `std::sync::mpsc::channel`: it returns the sending and the
/// receiving end of a fresh unbounded channel.
#[verifier::external_body]
pub(crate) fn new_channel<T>() -> (Sender<T>, Receiver<T>) {
    std::sync::mpsc::channel()
}

/// Relies on `std::sync::mpsc::Sender::send`: it either delivers `v` to the
/// channel, or fails and hands `v` back (out of the `SendError`) exactly when
/// the receiving end has been dropped.
#[verifier::external_body]
pub(crate) fn channel_send<T>(s: &Sender<T>, v: T) -> (r: Result<(), T>)
    ensures
        r is Err ==> r->Err_0 == v,
{
    match s.send(v) {
        Ok(()) => Ok(()),
        Err(e) => Err(e.0),
    }
}

/// Relies on `std::sync::mpsc::Receiver::recv`: it blocks until a message
/// arrives (`Some`), or reports `None` exactly when every sender is gone and
/// the channel is drained. Which message arrives depends on the other
/// execution units, so nothing is promised of the value.
#[verifier::external_body]
pub(crate) fn channel_recv<T>(r: &Receiver<T>) -> Option<T> {
    match r.recv() {
        Ok(v) => Some(v),
        Err(_) => None,
    }
}

/// Relies on `std::sync::mpsc::Receiver::try_recv`: it never blocks, and
/// reports a waiting message, an empty channel, or a disconnected one, each
/// variant mapped one for one.
#[verifier::external_body]
pub(crate) fn channel_try_recv<T>(r: &Receiver<T>) -> Polled<T> {
    match r.try_recv() {
        Ok(v) => Polled::Received(v),
        Err(TryRecvError::Empty) => Polled::Nothing,
        Err(TryRecvError::Disconnected) => Polled::Closed,
    }
}

/// Relies on `std::sync::mpsc::Sender::clone`: the clone feeds the same
/// channel as the sender it was made from.
#[verifier::external_body]
pub(crate) fn clone_sender<T>(s: &Sender<T>) -> Sender<T> {
    s.clone()
}

} // verus!
