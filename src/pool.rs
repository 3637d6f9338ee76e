//! The shared task queue of the worker pool: tasks leave in the order they
//! were submitted, each exactly once, and once the queue is closed a worker
//! that finds it empty stops. Locking and waiting are left to the caller,
//! which guards one `TaskQueue` for all workers.

use vstd::prelude::*;
use std::collections::VecDeque;

verus! {

/// What a worker does next.
pub enum Step<T> {
    /// The task to execute next.
    Run(T),
    /// The queue is empty but open: waits for a submission, then asks again.
    Wait,
    /// The queue is closed and empty: stops.
    Exit,
}

/// An unbounded first-in first-out queue of tasks that can be closed.
pub struct TaskQueue<T> {
    pending: VecDeque<T>,
    closed: bool,
}

impl<T> TaskQueue<T> {
    /// The tasks waiting, oldest first.
    pub closed spec fn pending(&self) -> Seq<T> {
        self.pending@
    }

    /// Whether the queue has been closed.
    pub closed spec fn is_closed(&self) -> bool {
        self.closed
    }

    /// An open queue with no task in it.
    pub fn new() -> (r: Self)
        ensures
            r.pending() == Seq::<T>::empty(),
            !r.is_closed(),
    {
        TaskQueue { pending: VecDeque::new(), closed: false }
    }

    /// Adds `task` behind all waiting tasks. There is no bound and no
    /// rejection; a task submitted after closing still runs before the
    /// workers stop.
    pub fn submit(&mut self, task: T)
        ensures
            final(self).pending() == old(self).pending().push(task),
            final(self).is_closed() == old(self).is_closed(),
    {
        self.pending.push_back(task);
    }

    /// Closes the queue: workers stop once it is empty.
    pub fn close(&mut self)
        ensures
            final(self).pending() == old(self).pending(),
            final(self).is_closed(),
    {
        self.closed = true;
    }

    /// How many tasks are waiting.
    pub fn len(&self) -> (r: usize)
        ensures
            r == self.pending().len(),
    {
        self.pending.len()
    }

    /// What a worker that asks for work does next: the oldest task leaves the
    /// queue and runs; an empty queue makes it wait, or stop once closed.
    pub fn next_step(&mut self) -> (r: Step<T>)
        ensures
            final(self).is_closed() == old(self).is_closed(),
            old(self).pending().len() > 0 ==> r == Step::Run(old(self).pending()[0])
                && final(self).pending() == old(self).pending().drop_first(),
            old(self).pending().len() == 0 ==> final(self).pending() == old(self).pending()
                && r == (if old(self).is_closed() { Step::<T>::Exit } else { Step::<T>::Wait }),
    {
        match self.pending.pop_front() {
            Some(task) => Step::Run(task),
            None => if self.closed {
                Step::Exit
            } else {
                Step::Wait
            },
        }
    }
}

} // verus!
