//! The job queue: an unbounded channel of the standard library, with its
//! receive side behind a lock that the workers share.
//!
//! What the channel does depends on threads that the verifier does not see, so
//! the declarations here promise next to nothing, and nothing in this crate is
//! proved from the behaviour of the channel. The module `protocol` states what
//! the pool guarantees if the channel delivers first in, first out and fails a
//! fetch only once it is closed and empty.

use vstd::prelude::*;
use std::sync::mpsc::{Receiver, Sender};
use std::sync::{Arc, Mutex};

verus! {

/// `std::sync::mpsc::Sender`, the send side of the queue. Opaque to the
/// verifier.
#[verifier::external_type_specification]
#[verifier::external_body]
#[verifier::reject_recursive_types(T)]
pub struct ExSender<T>(Sender<T>);

/// `std::sync::mpsc::Receiver`, the receive side of the queue. Opaque to the
/// verifier.
#[verifier::external_type_specification]
#[verifier::external_body]
#[verifier::reject_recursive_types(T)]
pub struct ExReceiver<T>(Receiver<T>);

/// `std::sync::Mutex`, the lock round the receive side. Opaque to the verifier.
#[verifier::external_type_specification]
#[verifier::external_body]
#[verifier::reject_recursive_types(T)]
pub struct ExMutex<T: ?Sized>(Mutex<T>);

/// `std::sync::mpsc::channel` returns the two sides of a new queue. Nothing is
/// claimed of them.
pub assume_specification<T>[ std::sync::mpsc::channel::<T> ]() -> (ends: (Sender<T>, Receiver<T>));

/// `std::sync::Mutex::new` puts a value behind a new lock. Nothing is claimed of
/// the lock.
pub assume_specification<T>[ Mutex::<T>::new ](t: T) -> (lock: Mutex<T>);

/// `std::sync::mpsc::Sender::send` either enqueues the job or, if the receive
/// side is gone, hands it back inside its error. Which of the two happens is up
/// to the threads on the other side; the contract claims only that a job
/// handed back is the job that was given.
#[verifier::external_body]
pub(crate) fn send<T>(sender: &Sender<T>, job: T) -> (refused: Option<T>)
    ensures
        refused matches Some(back) ==> back == job,
{
    match sender.send(job) {
        Ok(()) => None,
        Err(error) => Some(error.0),
    }
}

/// The receive side as the workers hold it.
pub type SharedReceiver<T> = Arc<Mutex<Receiver<T>>>;

/// A new queue: its send side, and its receive side behind a lock and ready to
/// be shared. Both sides are opaque, and that the one feeds the other is a
/// fact about the channel that no contract here can express, so nothing is
/// claimed of the result.
pub(crate) fn open_queue<T>() -> (ends: (Sender<T>, SharedReceiver<T>)) {
    let (sender, receiver) = std::sync::mpsc::channel();
    (sender, Arc::new(Mutex::new(receiver)))
}

} // verus!
