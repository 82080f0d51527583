//! The receiving half of the task queue.

use crate::taskqueue::task::Task;
use vstd::prelude::*;

verus! {

/// `crossbeam::channel::Receiver`, the receiving half of a channel.
#[verifier::external_type_specification]
#[verifier::external_body]
#[verifier::reject_recursive_types(T)]
pub struct ExReceiver<T>(crossbeam::channel::Receiver<T>);

/// `Clone::clone` of `crossbeam::channel::Receiver`: another receiver on the
/// same channel. Nothing is stated of it.
pub assume_specification<T>[ <crossbeam::channel::Receiver<T> as Clone>::clone ](
    receiver: &crossbeam::channel::Receiver<T>,
) -> crossbeam::channel::Receiver<T>;

/// Takes tasks off the queue. Several workers may share one queue: each task
/// goes to one of them.
#[derive(Clone)]
pub struct Worker {
    rx: crossbeam::channel::Receiver<Task>,
}

/// What a worker does next.
#[derive(Debug, Clone, PartialEq, Eq)]
pub enum Work {
    /// A task was taken: run it to completion, then take the next one.
    Run(Task),
    /// The queue is closed for good: stop.
    Stop,
}

/// Calls `crossbeam::channel::Receiver::recv`: waits until a message is on
/// the channel and takes it. It fails where the channel is empty and every
/// sender is gone; nothing is stated of the message.
#[verifier::external_body]
fn receive(rx: &crossbeam::channel::Receiver<Task>) -> Option<Task> {
    match rx.recv() {
        Ok(task) => Some(task),
        Err(_) => None,
    }
}

/// What a worker does with what it took off the queue: it runs a task, and
/// stops where the queue gave none.
pub open spec fn work_for(taken: Option<Task>) -> Work {
    match taken {
        Some(task) => Work::Run(task),
        None => Work::Stop,
    }
}

impl Worker {
    /// A worker on the receiving half `rx` of the task queue: what it takes
    /// is received on `rx`.
    pub fn new(rx: crossbeam::channel::Receiver<Task>) -> (worker: Worker)
        ensures
            worker.receiver() == rx,
    {
        Worker { rx }
    }

    /// Waits for the next task. `None` where the queue is closed for good:
    /// it is empty and no dispatcher is left to fill it.
    pub fn take(&self) -> Option<Task> {
        receive(&self.rx)
    }

    /// What the worker does with what it took off the queue.
    pub fn decide(taken: Option<Task>) -> (work: Work)
        ensures
            work == work_for(taken),
    {
        match taken {
            Some(task) => Work::Run(task),
            None => Work::Stop,
        }
    }

    /// Waits for the next task and says what to do: run the task that was
    /// taken, or stop where the queue is closed for good.
    pub fn next(&self) -> Work {
        Worker::decide(self.take())
    }

    /// The receiving half that the worker takes tasks from.
    pub closed spec fn receiver(self) -> crossbeam::channel::Receiver<Task> {
        self.rx
    }

    /// The number of tasks that the queue of the worker holds at most, `None`
    /// where it holds any number.
    pub open spec fn bound(self) -> Option<usize> {
        receiver_bound(self.receiver())
    }
}

/// What `crossbeam::channel::Receiver::capacity` gives for a receiver: the
/// number of messages that its channel holds at most, `None` where the
/// channel has no bound. A channel has the bound it was made with for as
/// long as it lasts.
pub uninterp spec fn receiver_bound(rx: crossbeam::channel::Receiver<Task>) -> Option<usize>;

} // verus!
