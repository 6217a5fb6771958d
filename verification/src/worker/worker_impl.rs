use std::collections::VecDeque;
use vstd::prelude::*;

use crate::worker::envelope::TaskEnvelope;

verus! {

/// A worker's local task queue (FIFO). Tasks handed to the worker join the
/// back; the worker itself takes from the front, and peers steal from the
/// back.
pub struct Worker<T> {
    id: usize,
    queue: VecDeque<TaskEnvelope<T>>,
}

impl<T> View for Worker<T> {
    type V = Seq<TaskEnvelope<T>>;

    /// The tasks waiting in the worker's queue, front first.
    closed spec fn view(&self) -> Seq<TaskEnvelope<T>> {
        self.queue@
    }
}

impl<T> Worker<T> {
    /// The worker's identifier, its position among the pool's workers.
    pub closed spec fn spec_id(&self) -> usize {
        self.id
    }

    /// Creates a worker with an empty queue.
    pub fn new(id: usize) -> (w: Self)
        ensures
            w.spec_id() == id,
            w@ == Seq::<TaskEnvelope<T>>::empty(),
    {
        Worker { id, queue: VecDeque::new() }
    }

    /// The worker's identifier.
    pub fn id(&self) -> (id: usize)
        ensures
            id == self.spec_id(),
    {
        self.id
    }

    /// Whether the worker has any task waiting.
    pub fn has_tasks(&self) -> (b: bool)
        ensures
            b == (self@.len() > 0),
    {
        self.queue.len() > 0
    }

    /// Pushes a task to the back of this worker's queue.
    pub fn push_task(&mut self, task: TaskEnvelope<T>)
        ensures
            final(self)@ == old(self)@.push(task),
            final(self).spec_id() == old(self).spec_id(),
    {
        self.queue.push_back(task);
    }

    /// Takes the oldest task of this worker's queue, as the worker itself does.
    pub fn take_local(&mut self) -> (task: Option<TaskEnvelope<T>>)
        ensures
            final(self).spec_id() == old(self).spec_id(),
            old(self)@.len() == 0 ==> task is None && final(self)@ == old(self)@,
            old(self)@.len() > 0 ==> task == Some(old(self)@[0]) && final(self)@ == old(self)@.drop_first(),
    {
        self.queue.pop_front()
    }

    /// Takes the newest task of this worker's queue, as a thief does.
    pub fn take_stolen(&mut self) -> (task: Option<TaskEnvelope<T>>)
        ensures
            final(self).spec_id() == old(self).spec_id(),
            old(self)@.len() == 0 ==> task is None && final(self)@ == old(self)@,
            old(self)@.len() > 0 ==> task == Some(old(self)@.last()) && final(self)@ == old(self)@.drop_last(),
    {
        self.queue.pop_back()
    }
}

} // verus!
