//! The pool as a state machine. It holds the shared task source, what each
//! worker is doing, and the results published so far; each event of a run
//! (a worker asks for a task, publishes an outcome, crashes) is one method.
//! Whoever drives the pool, with threads or in turn, performs the fetches
//! between the events; the pool itself never waits and never fetches.
//!
//! The invariant accounts for every task handed out: it is in the hands of
//! exactly one worker, or reported by exactly one result, or lost with the
//! worker that crashed on it.

use super::model::FetchOutcome;
use super::model::RecordView;
use super::model::ResultRecord;
use super::model::Task;
use super::model::TaskView;
use super::source::TaskSource;
use vstd::prelude::*;

verus! {

/// Where the pool stands in its life.
#[derive(Debug, Clone, Copy, PartialEq, Eq)]
pub enum Phase {
    /// No worker exists yet.
    Idle,
    /// Workers exist and tasks may still be sent.
    Populating,
    /// The task source is closed; some worker has not left yet.
    Draining,
    /// The task source is closed and every worker has left.
    Terminated,
}

/// What one worker is doing.
#[derive(Debug, Clone, Copy, PartialEq, Eq)]
pub enum WorkerState {
    /// Between tasks.
    Ready,
    /// Visiting a task: `task` is its index among the tasks sent.
    Working { task: usize },
    /// Gone, after it found the task source exhausted.
    Exited,
    /// Gone by a crash; `lost` is the task it was visiting, if any.
    Crashed { lost: Option<usize> },
}

/// What the pool tells a worker that asks for its next task.
#[derive(Debug, Clone, PartialEq, Eq)]
pub enum Dispatch {
    /// Visit the task, then publish its outcome.
    Run(Task),
    /// Nothing waits, but more may be sent: ask again later.
    Wait,
    /// The source is exhausted: leave.
    Exit,
}

/// A property of workers that the pool counts.
pub enum Tally {
    /// Has not left: ready or working.
    Active,
    /// Holds a task.
    Working,
    /// Crashed while it held a task.
    Lost,
}

/// Whether a worker in this state counts under `tally`.
pub open spec fn counts_as(state: WorkerState, tally: Tally) -> bool {
    match tally {
        Tally::Active => state is Ready || state is Working,
        Tally::Working => state is Working,
        Tally::Lost => state matches WorkerState::Crashed { lost: Some(_) },
    }
}

/// How many of the workers count under `tally`.
pub open spec fn count(workers: Seq<WorkerState>, tally: Tally) -> nat
    decreases workers.len(),
{
    if workers.len() == 0 {
        0
    } else {
        count(workers.drop_last(), tally) + if counts_as(workers.last(), tally) {
            1nat
        } else {
            0nat
        }
    }
}

/// Changing one worker changes a count by that worker's share alone.
pub proof fn lemma_count_update(
    workers: Seq<WorkerState>,
    at: int,
    state: WorkerState,
    tally: Tally,
)
    requires
        0 <= at < workers.len(),
    ensures
        count(workers.update(at, state), tally) + (if counts_as(workers[at], tally) {
            1nat
        } else {
            0nat
        }) == count(workers, tally) + (if counts_as(state, tally) {
            1nat
        } else {
            0nat
        }),
    decreases workers.len(),
{
    let updated = workers.update(at, state);
    if at == workers.len() - 1 {
        assert(updated.drop_last() == workers.drop_last());
    } else {
        assert(updated.drop_last() == workers.drop_last().update(at, state));
        lemma_count_update(workers.drop_last(), at, state, tally);
    }
}

/// A count is zero exactly when no worker counts.
pub proof fn lemma_count_zero(workers: Seq<WorkerState>, tally: Tally)
    ensures
        count(workers, tally) == 0 <==> forall|w: int|
            0 <= w < workers.len() ==> !counts_as(#[trigger] workers[w], tally),
        count(workers, tally) <= workers.len(),
    decreases workers.len(),
{
    if workers.len() > 0 {
        let front = workers.drop_last();
        lemma_count_zero(front, tally);
        if count(workers, tally) == 0 {
            assert forall|w: int| 0 <= w < workers.len() implies !counts_as(
                #[trigger] workers[w],
                tally,
            ) by {
                if w < front.len() {
                    assert(front[w] == workers[w]);
                }
            }
        } else if !counts_as(workers.last(), tally) {
            let w = choose|w: int| 0 <= w < front.len() && counts_as(#[trigger] front[w], tally);
            assert(workers[w] == front[w]);
        }
    }
}

/// Where a task that was handed out is now.
pub enum Fate {
    /// In the hands of this worker.
    InFlight(nat),
    /// Reported by the result with this index.
    Reported(nat),
    /// Lost with this worker, which crashed on it.
    Lost(nat),
}

pub struct Pool {
    source: TaskSource,
    workers: Vec<WorkerState>,
    results: Vec<ResultRecord>,
    /// For each result, the index of the task that it reports on.
    origins: Ghost<Seq<nat>>,
    /// For each task handed out, where it is now.
    fates: Ghost<Seq<Fate>>,
}

impl Pool {
    /// Every task sent so far, in order of arrival.
    pub closed spec fn tasks(&self) -> Seq<TaskView> {
        self.source.sent()
    }

    /// How many tasks have been handed out: the first so many of `tasks`.
    pub closed spec fn handed_out(&self) -> nat {
        self.source.handed_out()
    }

    /// Whether the task source is closed.
    pub closed spec fn is_closed(&self) -> bool {
        self.source.is_closed()
    }

    /// What each worker is doing; a worker's id is its index.
    pub closed spec fn workers(&self) -> Seq<WorkerState> {
        self.workers@
    }

    /// The results published so far, in order of arrival.
    pub closed spec fn results(&self) -> Seq<RecordView> {
        self.results.deep_view()
    }

    /// For each result, the index of the task that it reports on.
    pub closed spec fn origins(&self) -> Seq<nat> {
        self.origins@
    }

    /// The pool's invariant. Every task handed out is accounted for once:
    /// reported by one result, in the hands of one working worker, or lost
    /// with one crashed worker. A worker has left by exhaustion only if the
    /// source is exhausted.
    pub closed spec fn wf(&self) -> bool {
        &&& self.source.wf()
        &&& self.workers.len() == 0 ==> !self.source.is_closed()
        &&& forall|w: int|
            0 <= w < self.workers.len() && #[trigger] self.workers[w] is Exited
                ==> self.source.exhausted()
        &&& self.origins@.len() == self.results.len()
        &&& self.fates@.len() == self.source.handed_out()
        &&& self.results.len() + count(self.workers@, Tally::Working) + count(
            self.workers@,
            Tally::Lost,
        ) == self.source.handed_out()
        &&& forall|i: int|
            0 <= i < self.results.len() ==> {
                &&& (#[trigger] self.origins@[i]) < self.fates@.len()
                &&& self.fates@[self.origins@[i] as int] == Fate::Reported(i as nat)
                &&& self.results[i].worker_id < self.workers.len()
            }
        &&& forall|t: int|
            0 <= t < self.fates@.len() ==> match #[trigger] self.fates@[t] {
                Fate::InFlight(w) => {
                    &&& w < self.workers.len()
                    &&& self.workers[w as int] matches WorkerState::Working { task }
                    &&& task == t
                },
                Fate::Reported(i) => i < self.results.len() && self.origins@[i as int] == t,
                Fate::Lost(w) => {
                    &&& w < self.workers.len()
                    &&& self.workers[w as int] matches WorkerState::Crashed { lost: Some(task) }
                    &&& task == t
                },
            }
        &&& forall|w: int|
            0 <= w < self.workers.len() ==> match #[trigger] self.workers[w] {
                WorkerState::Working { task } => task < self.fates@.len() && self.fates@[task as int]
                    == Fate::InFlight(w as nat),
                WorkerState::Crashed { lost: Some(task) } => task < self.fates@.len()
                    && self.fates@[task as int] == Fate::Lost(w as nat),
                _ => true,
            }
    }

    /// Where the pool stands in its life.
    pub open spec fn phase(&self) -> Phase {
        if self.workers().len() == 0 {
            Phase::Idle
        } else if !self.is_closed() {
            Phase::Populating
        } else if count(self.workers(), Tally::Active) > 0 {
            Phase::Draining
        } else {
            Phase::Terminated
        }
    }

    /// The tasks that wait to be handed out.
    pub open spec fn pending(&self) -> Seq<TaskView> {
        self.tasks().skip(self.handed_out() as int)
    }

    /// An upper bound on the events that can still happen once the source
    /// is closed: each waiting task is handed out and then reported, each
    /// task in flight is reported, and each worker leaves once.
    pub open spec fn work_left(&self) -> nat {
        2 * self.pending().len() + count(self.workers(), Tally::Working) + count(
            self.workers(),
            Tally::Active,
        )
    }

    /// Some result reports on the task with this index.
    pub open spec fn reported(&self, task: int) -> bool {
        exists|i: int| 0 <= i < self.origins().len() && #[trigger] self.origins()[i] == task
    }

    /// No worker has crashed.
    pub open spec fn unharmed(&self) -> bool {
        forall|w: int| 0 <= w < self.workers().len() ==> !(#[trigger] self.workers()[w] is Crashed)
    }

    /// Terminated without a crash.
    pub open spec fn completed(&self) -> bool {
        self.phase() is Terminated && self.unharmed()
    }

    /// A pool without workers or tasks.
    pub fn new() -> (pool: Pool)
        ensures
            pool.wf(),
            pool.phase() is Idle,
            pool.tasks() == Seq::<TaskView>::empty(),
            pool.handed_out() == 0,
            pool.results() == Seq::<RecordView>::empty(),
            pool.origins() == Seq::<nat>::empty(),
            pool.workers() == Seq::<WorkerState>::empty(),
            !pool.is_closed(),
    {
        let pool = Pool {
            source: TaskSource::new(),
            workers: Vec::new(),
            results: Vec::new(),
            origins: Ghost(Seq::empty()),
            fates: Ghost(Seq::empty()),
        };
        assert(pool.results.deep_view() =~= Seq::<RecordView>::empty());
        pool
    }

    /// Brings the workers into being, all of them ready.
    pub fn spawn(&mut self, worker_count: usize)
        requires
            old(self).wf(),
            old(self).phase() is Idle,
            worker_count >= 1,
        ensures
            final(self).wf(),
            final(self).phase() is Populating,
            final(self).workers() == Seq::new(worker_count as nat, |w: int| WorkerState::Ready),
            final(self).tasks() == old(self).tasks(),
            final(self).handed_out() == old(self).handed_out(),
            final(self).results() == old(self).results(),
            final(self).origins() == old(self).origins(),
            !final(self).is_closed(),
    {
        proof {
            lemma_count_zero(self.workers@, Tally::Working);
            lemma_count_zero(self.workers@, Tally::Lost);
        }
        let mut w: usize = 0;
        while w < worker_count
            invariant
                w <= worker_count,
                self.workers@ == Seq::new(w as nat, |w: int| WorkerState::Ready),
                self.source == old(self).source,
                self.results == old(self).results,
                self.origins == old(self).origins,
                self.fates == old(self).fates,
            decreases worker_count - w,
        {
            self.workers.push(WorkerState::Ready);
            w = w + 1;
        }
        proof {
            lemma_count_zero(self.workers@, Tally::Working);
            lemma_count_zero(self.workers@, Tally::Lost);
        }
    }

    /// Sends one task to the workers. Tasks are taken while the pool is
    /// populating; in any other phase the pool stays as it is and the
    /// answer is `false`.
    pub fn submit(&mut self, task: Task) -> (accepted: bool)
        requires
            old(self).wf(),
        ensures
            final(self).wf(),
            accepted == (old(self).phase() is Populating),
            final(self).tasks() == if accepted {
                old(self).tasks().push(task@)
            } else {
                old(self).tasks()
            },
            final(self).handed_out() == old(self).handed_out(),
            final(self).is_closed() == old(self).is_closed(),
            final(self).workers() == old(self).workers(),
            final(self).results() == old(self).results(),
            final(self).origins() == old(self).origins(),
    {
        if self.workers.len() == 0 {
            return false;
        }
        self.source.send(task)
    }

    /// Closes the task source: the tasks sent so far are all there will be.
    /// This is what lets the workers leave. Before the workers exist there
    /// is nothing to close: the pool stays as it is and the answer is
    /// `false`.
    pub fn close(&mut self) -> (closed: bool)
        requires
            old(self).wf(),
        ensures
            final(self).wf(),
            closed == !(old(self).phase() is Idle),
            final(self).is_closed() == closed,
            final(self).tasks() == old(self).tasks(),
            final(self).handed_out() == old(self).handed_out(),
            final(self).workers() == old(self).workers(),
            final(self).results() == old(self).results(),
            final(self).origins() == old(self).origins(),
    {
        if self.workers.len() == 0 {
            return false;
        }
        self.source.close();
        true
    }

    /// A ready worker asks for its next task. It gets the task that has
    /// waited longest and becomes busy with it; with none waiting it is
    /// told to wait while more may come, and to leave once the source is
    /// closed. After the close every answer takes from the work that is
    /// left.
    pub fn next_task(&mut self, worker: usize) -> (dispatch: Dispatch)
        requires
            old(self).wf(),
            worker < old(self).workers().len(),
            old(self).workers()[worker as int] is Ready,
        ensures
            final(self).wf(),
            final(self).tasks() == old(self).tasks(),
            final(self).is_closed() == old(self).is_closed(),
            final(self).results() == old(self).results(),
            final(self).origins() == old(self).origins(),
            match dispatch {
                Dispatch::Run(task) => {
                    &&& old(self).handed_out() < old(self).tasks().len()
                    &&& task@ == old(self).tasks()[old(self).handed_out() as int]
                    &&& final(self).handed_out() == old(self).handed_out() + 1
                    &&& final(self).workers() == old(self).workers().update(
                        worker as int,
                        WorkerState::Working { task: old(self).handed_out() as usize },
                    )
                },
                Dispatch::Wait => {
                    &&& old(self).handed_out() == old(self).tasks().len()
                    &&& !old(self).is_closed()
                    &&& final(self).handed_out() == old(self).handed_out()
                    &&& final(self).workers() == old(self).workers()
                },
                Dispatch::Exit => {
                    &&& old(self).handed_out() == old(self).tasks().len()
                    &&& old(self).is_closed()
                    &&& final(self).handed_out() == old(self).handed_out()
                    &&& final(self).workers() == old(self).workers().update(
                        worker as int,
                        WorkerState::Exited,
                    )
                },
            },
            !(dispatch is Wait) ==> final(self).work_left() < old(self).work_left(),
    {
        let index = self.source.handed_out_count();
        match self.source.next_task() {
            Some(task) => {
                let state = WorkerState::Working { task: index };
                proof {
                    lemma_count_update(self.workers@, worker as int, state, Tally::Working);
                    lemma_count_update(self.workers@, worker as int, state, Tally::Lost);
                    lemma_count_update(self.workers@, worker as int, state, Tally::Active);
                    self.fates@ = self.fates@.push(Fate::InFlight(worker as nat));
                }
                self.workers.set(worker, state);
                Dispatch::Run(task)
            },
            None => {
                if self.source.is_exhausted() {
                    let state = WorkerState::Exited;
                    proof {
                        lemma_count_update(self.workers@, worker as int, state, Tally::Working);
                        lemma_count_update(self.workers@, worker as int, state, Tally::Lost);
                        lemma_count_update(self.workers@, worker as int, state, Tally::Active);
                    }
                    self.workers.set(worker, state);
                    Dispatch::Exit
                } else {
                    Dispatch::Wait
                }
            },
        }
    }

    /// A working worker publishes the outcome of its task and is ready
    /// again. The result joins the others at the end and carries the
    /// worker's id.
    pub fn publish(&mut self, worker: usize, outcome: FetchOutcome)
        requires
            old(self).wf(),
            worker < old(self).workers().len(),
            old(self).workers()[worker as int] is Working,
        ensures
            final(self).wf(),
            final(self).tasks() == old(self).tasks(),
            final(self).handed_out() == old(self).handed_out(),
            final(self).is_closed() == old(self).is_closed(),
            final(self).workers() == old(self).workers().update(worker as int, WorkerState::Ready),
            final(self).results() == old(self).results().push(
                RecordView { outcome: outcome@, worker_id: worker },
            ),
            final(self).origins() == old(self).origins().push(
                old(self).workers()[worker as int]->task as nat,
            ),
            final(self).work_left() < old(self).work_left(),
    {
        let ghost task = self.workers@[worker as int]->task;
        let ghost before = self.results.deep_view();
        let state = WorkerState::Ready;
        proof {
            lemma_count_update(self.workers@, worker as int, state, Tally::Working);
            lemma_count_update(self.workers@, worker as int, state, Tally::Lost);
            lemma_count_update(self.workers@, worker as int, state, Tally::Active);
            self.fates@ = self.fates@.update(task as int, Fate::Reported(self.results.len() as nat));
            self.origins@ = self.origins@.push(task as nat);
        }
        self.workers.set(worker, state);
        self.results.push(ResultRecord { outcome, worker_id: worker });
        assert(self.results.deep_view() =~= before.push(
            RecordView { outcome: outcome@, worker_id: worker },
        ));
    }

    /// A worker that has not left yet is found to have crashed. The task it
    /// was visiting, if any, is lost: no result will report on it.
    pub fn crash(&mut self, worker: usize)
        requires
            old(self).wf(),
            worker < old(self).workers().len(),
            counts_as(old(self).workers()[worker as int], Tally::Active),
        ensures
            final(self).wf(),
            final(self).tasks() == old(self).tasks(),
            final(self).handed_out() == old(self).handed_out(),
            final(self).is_closed() == old(self).is_closed(),
            final(self).results() == old(self).results(),
            final(self).origins() == old(self).origins(),
            final(self).workers() == old(self).workers().update(
                worker as int,
                WorkerState::Crashed {
                    lost: match old(self).workers()[worker as int] {
                        WorkerState::Working { task } => Some(task),
                        _ => None,
                    },
                },
            ),
            final(self).work_left() < old(self).work_left(),
    {
        let lost = match self.workers[worker] {
            WorkerState::Working { task } => Some(task),
            _ => None,
        };
        let state = WorkerState::Crashed { lost };
        proof {
            lemma_count_update(self.workers@, worker as int, state, Tally::Working);
            lemma_count_update(self.workers@, worker as int, state, Tally::Lost);
            lemma_count_update(self.workers@, worker as int, state, Tally::Active);
            if let Some(task) = lost {
                self.fates@ = self.fates@.update(task as int, Fate::Lost(worker as nat));
            }
        }
        self.workers.set(worker, state);
    }

    /// Where the pool stands in its life.
    pub fn current_phase(&self) -> (phase: Phase)
        requires
            self.wf(),
        ensures
            phase == self.phase(),
    {
        if self.workers.len() == 0 {
            return Phase::Idle;
        }
        if !self.source.has_closed() {
            return Phase::Populating;
        }
        let mut w: usize = 0;
        while w < self.workers.len()
            invariant
                w <= self.workers.len(),
                self.workers.len() > 0,
                self.is_closed(),
                forall|k: int| 0 <= k < w ==> !counts_as(#[trigger] self.workers@[k], Tally::Active),
            decreases self.workers.len() - w,
        {
            match self.workers[w] {
                WorkerState::Ready => {
                    proof {
                        lemma_count_zero(self.workers@, Tally::Active);
                    }
                    return Phase::Draining;
                },
                WorkerState::Working { .. } => {
                    proof {
                        lemma_count_zero(self.workers@, Tally::Active);
                    }
                    return Phase::Draining;
                },
                _ => {},
            }
            w = w + 1;
        }
        proof {
            lemma_count_zero(self.workers@, Tally::Active);
        }
        Phase::Terminated
    }

    /// What one worker is doing.
    pub fn worker_state(&self, worker: usize) -> (state: WorkerState)
        requires
            worker < self.workers().len(),
        ensures
            state == self.workers()[worker as int],
    {
        self.workers[worker]
    }

    /// How many workers the pool has.
    pub fn worker_count(&self) -> (count: usize)
        ensures
            count == self.workers().len(),
    {
        self.workers.len()
    }

    /// How many tasks were sent.
    pub fn task_count(&self) -> (count: usize)
        ensures
            count == self.tasks().len(),
    {
        self.source.sent_count()
    }

    /// How many results were published.
    pub fn result_count(&self) -> (count: usize)
        ensures
            count == self.results().len(),
    {
        proof {
            assert(self.results.deep_view().len() == self.results.len());
        }
        self.results.len()
    }

    /// Whether the task source is closed.
    pub fn has_closed(&self) -> (closed: bool)
        ensures
            closed == self.is_closed(),
    {
        self.source.has_closed()
    }

    /// Ends a terminated pool: hands over the results in order of arrival,
    /// and says how many tasks no result reports on. A pool whose workers
    /// all left without a crash misses none.
    pub fn finish(self) -> (report: PoolReport)
        requires
            self.wf(),
            self.phase() is Terminated,
        ensures
            report.records.deep_view() == self.results(),
            report.missing == self.tasks().len() - self.results().len(),
            self.unharmed() ==> report.missing == 0,
    {
        proof {
            self.lemma_accounting();
            if self.unharmed() {
                self.lemma_exactly_once();
            }
        }
        let missing = self.source.sent_count() - self.results.len();
        PoolReport { records: self.results, missing }
    }

    /// Every task handed out is accounted for: reported by a result, in
    /// the hands of a working worker, or lost with a crashed one. Each
    /// result reports on a task that was handed out and names a worker of
    /// the pool.
    pub proof fn lemma_accounting(&self)
        requires
            self.wf(),
        ensures
            self.results().len() + count(self.workers(), Tally::Working) + count(
                self.workers(),
                Tally::Lost,
            ) == self.handed_out(),
            self.handed_out() <= self.tasks().len(),
            self.origins().len() == self.results().len(),
            forall|i: int|
                0 <= i < self.results().len() ==> (#[trigger] self.origins()[i])
                    < self.handed_out(),
            forall|i: int|
                0 <= i < self.results().len() ==> (#[trigger] self.results()[i]).worker_id
                    < self.workers().len(),
    {
        self.source.lemma_handed_out_bounded();
        assert forall|i: int| 0 <= i < self.results().len() implies (#[trigger] self.results()[i]).worker_id
            < self.workers().len() by {
            assert(self.origins@[i] < self.fates@.len());
            assert(self.results()[i] == self.results[i]@);
        }
    }

    /// No task is reported twice.
    pub proof fn lemma_never_twice(&self)
        requires
            self.wf(),
        ensures
            forall|i: int, j: int|
                0 <= i < j < self.results().len() ==> #[trigger] self.origins()[i]
                    != #[trigger] self.origins()[j],
    {
        assert forall|i: int, j: int| 0 <= i < j < self.results().len() implies #[trigger]
            self.origins()[i] != #[trigger] self.origins()[j] by {
            assert(self.fates@[self.origins@[i] as int] == Fate::Reported(i as nat));
            assert(self.fates@[self.origins@[j] as int] == Fate::Reported(j as nat));
        }
    }

    /// Once every worker has left without a crash, each task sent is
    /// reported by exactly one result: as many results as tasks, no task
    /// twice, none missing.
    pub proof fn lemma_exactly_once(&self)
        requires
            self.wf(),
            self.completed(),
        ensures
            self.handed_out() == self.tasks().len(),
            self.results().len() == self.tasks().len(),
            self.origins().len() == self.tasks().len(),
            forall|i: int|
                0 <= i < self.origins().len() ==> (#[trigger] self.origins()[i])
                    < self.tasks().len(),
            forall|i: int, j: int|
                0 <= i < j < self.origins().len() ==> #[trigger] self.origins()[i]
                    != #[trigger] self.origins()[j],
            forall|t: int| 0 <= t < self.tasks().len() ==> #[trigger] self.reported(t),
    {
        self.lemma_accounting();
        self.lemma_never_twice();
        lemma_count_zero(self.workers@, Tally::Active);
        lemma_count_zero(self.workers@, Tally::Working);
        lemma_count_zero(self.workers@, Tally::Lost);
        assert forall|w: int| 0 <= w < self.workers@.len() implies #[trigger] self.workers@[w]
            is Exited by {
            assert(!counts_as(self.workers@[w], Tally::Active));
            assert(!(self.workers()[w] is Crashed));
        }
        assert(self.workers@[0] is Exited);
        assert forall|t: int| 0 <= t < self.tasks().len() implies #[trigger] self.reported(
            t,
        ) by {
            match self.fates@[t] {
                Fate::InFlight(w) => {
                    assert(self.workers@[w as int] is Working);
                },
                Fate::Reported(i) => {
                    assert(self.origins()[i as int] == t);
                },
                Fate::Lost(w) => {
                    assert(self.workers@[w as int] is Crashed);
                },
            }
        }
    }

    /// While the pool drains, some worker can take the next step: one that
    /// is ready can ask for a task and will not be told to wait, one that
    /// is working can publish. With every step taking from the work that
    /// is left, a closed pool cannot go on for ever and cannot get stuck.
    pub proof fn lemma_draining_can_step(&self)
        requires
            self.wf(),
            self.phase() is Draining,
        ensures
            self.work_left() > 0,
            exists|w: int|
                0 <= w < self.workers().len() && counts_as(
                    #[trigger] self.workers()[w],
                    Tally::Active,
                ),
    {
        lemma_count_zero(self.workers@, Tally::Active);
    }

    /// When no work is left in a closed pool, it has terminated; and a pool
    /// that completed has no work left.
    pub proof fn lemma_no_work_left(&self)
        requires
            self.wf(),
            self.is_closed(),
        ensures
            self.work_left() == 0 ==> self.phase() is Terminated,
            self.completed() ==> self.work_left() == 0,
    {
        self.lemma_accounting();
        if self.completed() {
            self.lemma_exactly_once();
            lemma_count_zero(self.workers@, Tally::Active);
            lemma_count_zero(self.workers@, Tally::Working);
            assert forall|w: int| 0 <= w < self.workers@.len() implies !counts_as(
                #[trigger] self.workers@[w],
                Tally::Working,
            ) by {
                assert(!counts_as(self.workers@[w], Tally::Active));
            }
        }
    }
}

/// What a finished pool hands over.
pub struct PoolReport {
    /// The results, in order of arrival.
    pub records: Vec<ResultRecord>,
    /// How many tasks no result reports on; above zero, the pool was
    /// degraded by a crash.
    pub missing: usize,
}

} // verus!
