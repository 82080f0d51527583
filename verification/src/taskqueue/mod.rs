//! The queue of background tasks: the dispatcher that fills it, the worker
//! that empties it, and the tasks themselves.

pub mod dispatcher;
pub mod task;
pub mod worker;

pub use dispatcher::Dispatcher;
pub use task::Task;
pub use worker::Worker;

use dispatcher::sender_bound;
use vstd::prelude::*;
use worker::receiver_bound;

verus! {

/// Calls `crossbeam::channel::unbounded`: a new channel without a bound on
/// the number of messages it holds. The contract states that of both halves:
/// the capacity of each is `None`. That the two halves are of one channel is
/// not stated.
#[verifier::external_body]
fn unbounded() -> (halves: (crossbeam::channel::Sender<Task>, crossbeam::channel::Receiver<Task>))
    ensures
        sender_bound(halves.0) is None,
        receiver_bound(halves.1) is None,
{
    crossbeam::channel::unbounded()
}

/// A new task queue: the dispatcher that fills it and a worker that empties
/// it. The queue holds any number of tasks, so that a dispatcher never waits
/// for room.
pub fn channel() -> (queue: (Dispatcher, Worker))
    ensures
        queue.0.bound() is None,
        queue.1.bound() is None,
{
    let (sx, rx) = unbounded();
    (Dispatcher::new(sx), Worker::new(rx))
}

} // verus!
