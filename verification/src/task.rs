//! The queue of deferred tasks.
//!
//! A change that an event asks for is not made while the event is being
//! delivered. It is queued as a task, and the host runs the queue on a later
//! tick. A tick takes the whole queue at once: what is queued while its
//! batch runs waits for the next tick.

use vstd::prelude::*;

verus! {

/// A request to the host for one tick: whoever holds it owes the queue one
/// call of [`run_tasks`] when the host is idle.
#[must_use]
#[derive(Debug, Clone, Copy, PartialEq, Eq, Structural)]
pub struct Tick {}

/// Tasks waiting for a tick, oldest first.
pub struct TaskQueue<T> {
    tasks: Vec<T>,
}

impl<T> View for TaskQueue<T> {
    type V = Seq<T>;

    closed spec fn view(&self) -> Seq<T> {
        self.tasks@
    }
}

impl<T> TaskQueue<T> {
    /// A queue with nothing waiting.
    pub fn new() -> (queue: TaskQueue<T>)
        ensures
            queue@ == Seq::<T>::empty(),
    {
        TaskQueue { tasks: Vec::new() }
    }

    /// How many tasks wait.
    pub fn len(&self) -> (len: usize)
        ensures
            len == self@.len(),
    {
        self.tasks.len()
    }

    /// Whether nothing waits.
    pub fn is_empty(&self) -> (empty: bool)
        ensures
            empty == (self@.len() == 0),
    {
        self.tasks.len() == 0
    }
}

/// The queue after `task` is added to it.
pub open spec fn added<T>(queue: Seq<T>, task: T) -> Seq<T> {
    queue.push(task)
}

/// The batch that a tick takes from the queue, and the queue that it leaves.
pub open spec fn flushed<T>(queue: Seq<T>) -> (Seq<T>, Seq<T>) {
    (queue, Seq::empty())
}

/// Queues `task` behind all that wait, and asks the host for a tick.
pub fn add_task<T>(queue: &mut TaskQueue<T>, task: T) -> (tick: Tick)
    ensures
        final(queue)@ == added(old(queue)@, task),
{
    queue.tasks.push(task);
    Tick {}
}

/// The tick: takes everything that waits, in the order in which it was
/// queued, and leaves the queue empty. The caller runs each task of the
/// batch once, in that order; a task that it adds meanwhile goes to the
/// queue, not to the batch.
pub fn run_tasks<T>(queue: &mut TaskQueue<T>) -> (batch: Vec<T>)
    ensures
        (batch@, final(queue)@) == flushed(old(queue)@),
{
    let mut batch: Vec<T> = Vec::new();
    std::mem::swap(&mut batch, &mut queue.tasks);
    batch
}

/// The queue after the tasks `tasks` are added to it, one by one.
pub open spec fn added_all<T>(queue: Seq<T>, tasks: Seq<T>) -> Seq<T>
    decreases tasks.len(),
{
    if tasks.len() == 0 {
        queue
    } else {
        added(added_all(queue, tasks.drop_last()), tasks.last())
    }
}

/// Tasks are queued behind all that wait, in the order in which they are
/// added.
pub proof fn lemma_added_all<T>(queue: Seq<T>, tasks: Seq<T>)
    ensures
        added_all(queue, tasks) == queue + tasks,
    decreases tasks.len(),
{
    if tasks.len() == 0 {
        assert(queue + tasks =~= queue);
    } else {
        lemma_added_all(queue, tasks.drop_last());
        assert(queue + tasks =~= (queue + tasks.drop_last()).push(tasks.last()));
    }
}

/// Tasks that are added while a batch runs are not part of that batch:
/// the batch is what waited when the tick began, and the tasks added since
/// are the batch of the tick that follows, in the order in which they were
/// added.
pub proof fn lemma_added_during_flush_runs_next<T>(queue: Seq<T>, during: Seq<T>)
    ensures
        ({
            let (batch, left) = flushed(queue);
            let (next_batch, next_left) = flushed(added_all(left, during));
            &&& batch == queue
            &&& next_batch == during
            &&& next_left == Seq::<T>::empty()
        }),
{
    lemma_added_all(Seq::<T>::empty(), during);
    assert(Seq::<T>::empty() + during =~= during);
}

} // verus!
