//! The sending half of the task queue.

use crate::taskqueue::task::Task;
use vstd::prelude::*;

verus! {

/// `crossbeam::channel::Sender`, the sending half of a channel.
#[verifier::external_type_specification]
#[verifier::external_body]
#[verifier::reject_recursive_types(T)]
pub struct ExSender<T>(crossbeam::channel::Sender<T>);

/// `Clone::clone` of `crossbeam::channel::Sender`: another sender on the same
/// channel. Nothing is stated of it.
pub assume_specification<T>[ <crossbeam::channel::Sender<T> as Clone>::clone ](
    sender: &crossbeam::channel::Sender<T>,
) -> crossbeam::channel::Sender<T>;

/// Hands tasks to the workers. Dispatching does not wait for the task to be
/// run and learns nothing of how it ends.
#[derive(Clone)]
pub struct Dispatcher {
    sx: crossbeam::channel::Sender<Task>,
}

/// Calls `crossbeam::channel::Sender::send`. The channel is unbounded, so the
/// call does not wait for room. It fails where every receiver of the
/// channel is gone; the error then holds the message, which is handed back.
#[verifier::external_body]
fn send(sx: &crossbeam::channel::Sender<Task>, task: Task) -> (sent: Result<(), Task>)
    ensures
        sent is Err ==> sent->Err_0 == task,
{
    match sx.send(task) {
        Ok(()) => Ok(()),
        Err(e) => Err(e.0),
    }
}

impl Dispatcher {
    /// A dispatcher on the sending half `sx` of the task queue: what it
    /// dispatches is sent on `sx`.
    pub fn new(sx: crossbeam::channel::Sender<Task>) -> (dispatcher: Dispatcher)
        ensures
            dispatcher.sender() == sx,
    {
        Dispatcher { sx }
    }

    /// Puts `task` on the queue and returns at once. Fails only where no
    /// worker is left to take tasks. Whether one is left is for the queue to
    /// say; `report` says what is returned for either answer.
    pub fn dispatch(&self, task: Task) -> (sent: Result<(), ()>) {
        Dispatcher::report(send(&self.sx, task))
    }

    /// As `dispatch`; a task that could not be put on the queue is handed
    /// back.
    pub fn try_dispatch(&self, task: Task) -> (sent: Result<(), Task>)
        ensures
            sent is Err ==> sent->Err_0 == task,
    {
        send(&self.sx, task)
    }

    /// What dispatching returns for what the queue answered: success where
    /// the task was taken on, failure, without the task, where it was handed
    /// back.
    pub fn report(answer: Result<(), Task>) -> (sent: Result<(), ()>)
        ensures
            sent == reported(answer),
    {
        match answer {
            Ok(()) => Ok(()),
            Err(_) => Err(()),
        }
    }

    /// The sending half that the dispatcher sends on.
    pub closed spec fn sender(self) -> crossbeam::channel::Sender<Task> {
        self.sx
    }

    /// The number of tasks that the queue of the dispatcher holds at most,
    /// `None` where it holds any number.
    pub open spec fn bound(self) -> Option<usize> {
        sender_bound(self.sender())
    }
}

/// What dispatching returns for what the queue answered.
pub open spec fn reported(answer: Result<(), Task>) -> Result<(), ()> {
    match answer {
        Ok(_) => Ok(()),
        Err(_) => Err(()),
    }
}

/// What `crossbeam::channel::Sender::capacity` gives for a sender: the number
/// of messages that its channel holds at most, `None` where the channel has
/// no bound. A channel has the bound it was made with for as long as it
/// lasts.
pub uninterp spec fn sender_bound(sx: crossbeam::channel::Sender<Task>) -> Option<usize>;

} // verus!
