//! Running a pool to its end in one thread: the workers take their turns,
//! one task each, round and round. The fetches are made by the function
//! that the caller hands in.

use super::model::OutcomeView;
use super::model::RecordView;
use super::model::Response;
use super::model::ResponseView;
use super::model::ResultRecord;
use super::model::Task;
use super::model::TaskView;
use super::model::TransportError;
use super::model::reply_view;
use super::pool::Dispatch;
use super::pool::Pool;
use super::pool::Tally;
use super::pool::WorkerState;
use super::pool::counts_as;
use super::pool::lemma_count_zero;
use super::visit::outcome_of;
use super::visit::visit_page;
use vstd::prelude::*;

verus! {

/// The tasks that a run starts with: one for each URL, in order.
pub open spec fn initial_tasks(urls: Seq<Seq<char>>, extract_links: bool) -> Seq<TaskView> {
    Seq::new(urls.len(), |i: int| TaskView { url: urls[i], extract_links })
}

/// The outcome of each task, given what the fetcher handed back for it.
pub open spec fn outcomes(
    tasks: Seq<TaskView>,
    replies: Seq<Result<ResponseView, TransportError>>,
) -> Seq<OutcomeView> {
    Seq::new(tasks.len(), |i: int| outcome_of(tasks[i], replies[i]))
}

/// The records of a run in which `worker_count` workers take turns: the
/// task with index `i` falls to worker `i % worker_count`, and the records
/// come in the order of the tasks.
pub open spec fn turn_records(
    tasks: Seq<TaskView>,
    replies: Seq<Result<ResponseView, TransportError>>,
    worker_count: usize,
) -> Seq<RecordView> {
    Seq::new(
        tasks.len(),
        |i: int|
            RecordView {
                outcome: outcome_of(tasks[i], replies[i]),
                worker_id: (i % worker_count as int) as usize,
            },
    )
}

/// What the fetcher handed back, each reply by its view.
pub open spec fn reply_views(replies: Seq<Result<Response, TransportError>>) -> Seq<
    Result<ResponseView, TransportError>,
> {
    Seq::new(replies.len(), |i: int| reply_view(replies[i]))
}

/// What a run leaves behind: one record for each URL, each holding the
/// outcome of its task under a reply that `fetch` gave for the task's URL.
pub open spec fn ran<F: Fn(&String) -> Result<Response, TransportError>>(
    fetch: F,
    urls: Seq<String>,
    extract_links: bool,
    worker_count: usize,
    records: Seq<RecordView>,
) -> bool {
    exists|replies: Seq<Result<Response, TransportError>>|
        {
            &&& replies.len() == urls.len()
            &&& forall|i: int|
                0 <= i < replies.len() ==> call_ensures(fetch, (&urls[i],), #[trigger] replies[i])
            &&& records == turn_records(
                initial_tasks(urls.map_values(|url: String| url@), extract_links),
                reply_views(replies),
                worker_count,
            )
        }
}

/// Visits every URL with a pool of `worker_count` workers and returns one
/// record for each, whatever the fetcher hands back: a failed fetch fails
/// its own task and no other.
///
/// `fetch` is called once for each URL. Each record holds the outcome of its
/// task under the reply that `fetch` gave for the task's URL.
pub fn run_pool<F>(
    initial_urls: &Vec<String>,
    worker_count: usize,
    extract_links: bool,
    fetch: F,
) -> (records: Vec<ResultRecord>) where F: Fn(&String) -> Result<Response, TransportError>
    requires
        worker_count >= 1,
        forall|i: int|
            0 <= i < initial_urls.len() ==> call_requires(fetch, (&#[trigger] initial_urls[i],)),
    ensures
        records.len() == initial_urls.len(),
        ran(fetch, initial_urls@, extract_links, worker_count, records.deep_view()),
{
    let ghost tasks = initial_tasks(initial_urls.deep_view(), extract_links);
    let ghost ready = Seq::new(worker_count as nat, |w: int| WorkerState::Ready);
    let mut pool = Pool::new();
    pool.spawn(worker_count);
    let mut i: usize = 0;
    while i < initial_urls.len()
        invariant
            i <= initial_urls.len(),
            pool.wf(),
            !pool.is_closed(),
            pool.workers() == ready,
            ready.len() == worker_count >= 1,
            pool.tasks() == tasks.take(i as int),
            tasks == initial_tasks(initial_urls.deep_view(), extract_links),
            pool.handed_out() == 0,
            pool.results() == Seq::<RecordView>::empty(),
        decreases initial_urls.len() - i,
    {
        let task = Task::new(initial_urls[i].clone(), extract_links);
        assert(tasks.take(i as int).push(task@) == tasks.take(i as int + 1));
        pool.submit(task);
        i = i + 1;
    }
    assert(tasks.take(i as int) == tasks);
    pool.close();

    let ghost mut replies: Seq<Result<Response, TransportError>> = Seq::empty();
    let mut k: usize = 0;
    while k < initial_urls.len()
        invariant
            k <= initial_urls.len(),
            pool.wf(),
            pool.is_closed(),
            pool.workers() == ready,
            ready == Seq::new(worker_count as nat, |w: int| WorkerState::Ready),
            worker_count >= 1,
            pool.tasks() == tasks,
            tasks == initial_tasks(initial_urls.deep_view(), extract_links),
            pool.handed_out() == k,
            replies.len() == k,
            forall|j: int|
                0 <= j < initial_urls.len() ==> call_requires(
                    fetch,
                    (&#[trigger] initial_urls[j],),
                ),
            forall|j: int|
                0 <= j < k ==> call_ensures(fetch, (&initial_urls[j],), #[trigger] replies[j]),
            pool.results() == turn_records(tasks, reply_views(replies), worker_count).take(
                k as int,
            ),
        decreases initial_urls.len() - k,
    {
        let worker = k % worker_count;
        // A task waits, so the worker is given one: the next of the list.
        if let Dispatch::Run(task) = pool.next_task(worker) {
            // The task holds the text of this URL.
            let reply = fetch(&initial_urls[k]);
            let visit = visit_page(&task, reply);
            pool.publish(worker, visit.outcome);
            proof {
                let longer = replies.push(reply);
                assert(pool.workers() == ready);
                assert forall|j: int| 0 <= j < k + 1 implies call_ensures(
                    fetch,
                    (&initial_urls[j],),
                    #[trigger] longer[j],
                ) by {
                    if j < k {
                        assert(longer[j] == replies[j]);
                    }
                }
                assert(pool.results() == turn_records(
                    tasks,
                    reply_views(longer),
                    worker_count,
                ).take(k as int + 1)) by {
                    let old_all = turn_records(tasks, reply_views(replies), worker_count);
                    let new_all = turn_records(tasks, reply_views(longer), worker_count);
                    assert forall|j: int| 0 <= j < k implies old_all[j] == new_all[j] by {
                        assert(reply_views(replies)[j] == reply_views(longer)[j]);
                    }
                    assert(reply_views(longer)[k as int] == reply_view(reply));
                    assert(pool.results() =~= new_all.take(k as int + 1));
                }
                replies = longer;
            }
        }
        k = k + 1;
    }

    let mut w: usize = 0;
    while w < worker_count
        invariant
            w <= worker_count,
            pool.wf(),
            pool.is_closed(),
            pool.workers().len() == worker_count,
            forall|v: int| 0 <= v < w ==> #[trigger] pool.workers()[v] is Exited,
            forall|v: int| w <= v < worker_count ==> #[trigger] pool.workers()[v] is Ready,
            pool.tasks() == tasks,
            pool.handed_out() == tasks.len(),
            pool.results() == turn_records(tasks, reply_views(replies), worker_count),
        decreases worker_count - w,
    {
        pool.next_task(w);
        w = w + 1;
    }
    proof {
        lemma_count_zero(pool.workers(), Tally::Active);
        assert forall|v: int| 0 <= v < pool.workers().len() implies !counts_as(
            #[trigger] pool.workers()[v],
            Tally::Active,
        ) by {
            assert(pool.workers()[v] is Exited);
        }
    }
    let report = pool.finish();
    proof {
        assert(initial_urls@.map_values(|url: String| url@) == initial_urls.deep_view());
        assert(replies.len() == initial_urls@.len());
    }
    report.records
}

} // verus!
