//! The shared task source: one queue from which every worker takes its next
//! task. It hands each task out once, in the order of arrival, and never
//! does anything else: a worker that shares it holds it only for one
//! `next_task`.

use super::model::Task;
use super::model::TaskView;
use vstd::prelude::*;

verus! {

pub struct TaskSource {
    /// Every task that was sent, in order of arrival.
    tasks: Vec<Task>,
    /// How many of them have been handed out.
    head: usize,
    /// No more will be sent.
    closed: bool,
}

impl TaskSource {
    /// Every task sent so far, in order of arrival.
    pub closed spec fn sent(&self) -> Seq<TaskView> {
        self.tasks.deep_view()
    }

    /// How many tasks have been handed out: they are the first so many of
    /// `sent`.
    pub closed spec fn handed_out(&self) -> nat {
        self.head as nat
    }

    /// Whether the sending side is closed.
    pub closed spec fn is_closed(&self) -> bool {
        self.closed
    }

    /// The source's invariant: no more tasks are handed out than were sent.
    pub closed spec fn wf(&self) -> bool {
        self.head <= self.tasks.len()
    }

    /// The tasks that wait to be handed out.
    pub open spec fn pending(&self) -> Seq<TaskView> {
        self.sent().skip(self.handed_out() as int)
    }

    /// Closed and empty: nothing will ever be handed out again.
    pub open spec fn exhausted(&self) -> bool {
        self.is_closed() && self.handed_out() == self.sent().len()
    }

    /// No more tasks are handed out than were sent.
    pub proof fn lemma_handed_out_bounded(&self)
        requires
            self.wf(),
        ensures
            self.handed_out() <= self.sent().len(),
    {
    }

    /// An open source without tasks.
    pub fn new() -> (source: TaskSource)
        ensures
            source.wf(),
            source.sent() == Seq::<TaskView>::empty(),
            source.handed_out() == 0,
            !source.is_closed(),
    {
        let source = TaskSource { tasks: Vec::new(), head: 0, closed: false };
        assert(source.tasks.deep_view() =~= Seq::<TaskView>::empty());
        source
    }

    /// Puts a task at the end of the queue. A closed source takes no more
    /// tasks: it stays as it is and the answer is `false`.
    pub fn send(&mut self, task: Task) -> (accepted: bool)
        requires
            old(self).wf(),
        ensures
            final(self).wf(),
            accepted == !old(self).is_closed(),
            final(self).handed_out() == old(self).handed_out(),
            final(self).is_closed() == old(self).is_closed(),
            final(self).sent() == if accepted {
                old(self).sent().push(task@)
            } else {
                old(self).sent()
            },
    {
        if self.closed {
            return false;
        }
        let ghost before = self.tasks.deep_view();
        self.tasks.push(task);
        assert(self.tasks.deep_view() =~= before.push(task@));
        true
    }

    /// Closes the sending side. What was sent stays in the queue.
    pub fn close(&mut self)
        requires
            old(self).wf(),
        ensures
            final(self).wf(),
            final(self).is_closed(),
            final(self).sent() == old(self).sent(),
            final(self).handed_out() == old(self).handed_out(),
    {
        self.closed = true;
    }

    /// Hands out the task that has waited longest, if one waits. With none
    /// waiting the source stays as it is and the answer is `None`, now and
    /// at every later call once the source is closed.
    pub fn next_task(&mut self) -> (next: Option<Task>)
        requires
            old(self).wf(),
        ensures
            final(self).wf(),
            final(self).sent() == old(self).sent(),
            final(self).is_closed() == old(self).is_closed(),
            match next {
                Some(task) => {
                    &&& old(self).handed_out() < old(self).sent().len()
                    &&& task@ == old(self).sent()[old(self).handed_out() as int]
                    &&& final(self).handed_out() == old(self).handed_out() + 1
                },
                None => {
                    &&& old(self).handed_out() == old(self).sent().len()
                    &&& final(self).handed_out() == old(self).handed_out()
                },
            },
    {
        if self.head < self.tasks.len() {
            let task = self.tasks[self.head].duplicate();
            self.head = self.head + 1;
            Some(task)
        } else {
            None
        }
    }

    /// Whether the sending side is closed.
    pub fn has_closed(&self) -> (closed: bool)
        ensures
            closed == self.is_closed(),
    {
        self.closed
    }

    /// Whether the source is closed and empty.
    pub fn is_exhausted(&self) -> (exhausted: bool)
        requires
            self.wf(),
        ensures
            exhausted == self.exhausted(),
    {
        self.closed && self.head == self.tasks.len()
    }

    /// How many tasks wait to be handed out.
    pub fn pending_count(&self) -> (count: usize)
        requires
            self.wf(),
        ensures
            count == self.pending().len(),
    {
        self.tasks.len() - self.head
    }

    /// How many tasks have been handed out.
    pub fn handed_out_count(&self) -> (count: usize)
        ensures
            count == self.handed_out(),
    {
        self.head
    }

    /// How many tasks were sent.
    pub fn sent_count(&self) -> (count: usize)
        ensures
            count == self.sent().len(),
    {
        self.tasks.len()
    }
}

} // verus!
