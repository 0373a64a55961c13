//! The shared queue of directories that wait to be scanned.

use crossbeam::channel::{Receiver, Sender};
use vstd::prelude::*;

verus! {

/// `crossbeam::channel::Sender`, the sending side of a queue, carried
/// through as an opaque value.
#[verifier::external_type_specification]
#[verifier::external_body]
#[verifier::reject_recursive_types(T)]
pub struct ExSender<T>(Sender<T>);

/// `crossbeam::channel::Receiver`, the receiving side of a queue, carried
/// through as an opaque value.
#[verifier::external_type_specification]
#[verifier::external_body]
#[verifier::reject_recursive_types(T)]
pub struct ExReceiver<T>(Receiver<T>);

/// How long a worker waits for a directory before it gives up, in
/// milliseconds.
pub const IDLE_MILLIS: u32 = 50;

/// `crossbeam::channel::Sender::try_send`: hands `path` to the queue without
/// blocking and tells whether the queue took it. Nothing is claimed of the
/// answer: it depends on whether a receiver is still alive.
#[verifier::external_body]
pub(crate) fn offer(sender: &Sender<String>, path: String) -> (accepted: bool) {
    sender.try_send(path).is_ok()
}

/// `crossbeam::channel::Receiver::recv_timeout`: waits up to `millis`
/// milliseconds for the next queued directory. Nothing is claimed of the
/// answer: it depends on what the other threads have sent by then.
#[verifier::external_body]
pub(crate) fn await_path(receiver: &Receiver<String>, millis: u32) -> (path: Option<String>) {
    receiver.recv_timeout(std::time::Duration::from_millis(millis.into())).ok()
}

/// Hands the directories of `pending` to the queue, first to last, and stops
/// at the first that the queue refuses. Returns how many it took: all of
/// them, or the index of the one refused.
pub fn dispatch(pending: &Vec<String>, sender: &Sender<String>) -> (sent: usize)
    ensures
        sent <= pending.len(),
{
    let mut i: usize = 0;
    while i < pending.len()
        invariant
            i <= pending.len(),
        decreases pending.len() - i,
    {
        if !offer(sender, pending[i].clone()) {
            return i;
        }
        i = i + 1;
    }
    i
}

} // verus!
