//! What holds of every run, whatever the pages hold, however many workers
//! there are and in whatever order they take their steps.

use super::links::joined;
use super::links::resolved_links;
use super::model::CrawlErrorView;
use super::model::OutcomeView;
use super::model::RecordView;
use super::model::Response;
use super::model::ResponseView;
use super::model::TaskView;
use super::model::TransportError;
use super::pool::Pool;
use super::run::initial_tasks;
use super::run::outcomes;
use super::run::ran;
use super::run::reply_views;
use super::run::turn_records;
use super::visit::decimal;
use super::visit::is_success;
use super::visit::outcome_of;
use super::model::reply_view;
use vstd::prelude::*;
use vstd::seq_lib::to_multiset_build;
use vstd::seq_lib::to_multiset_insert;

verus! {

/// The outcomes that a sequence of records holds, in order.
pub open spec fn record_outcomes(records: Seq<RecordView>) -> Seq<OutcomeView> {
    Seq::new(records.len(), |i: int| records[i].outcome)
}

/// Every result of the pool holds the outcome of the task it reports on,
/// under the reply that the fetcher gives for that task.
pub open spec fn faithful(pool: Pool, replies: Seq<Result<ResponseView, TransportError>>) -> bool {
    forall|i: int|
        0 <= i < pool.results().len() ==> (#[trigger] pool.results()[i]).outcome == outcome_of(
            pool.tasks()[pool.origins()[i] as int],
            replies[pool.origins()[i] as int],
        )
}

/// A task whose fetch fails ends in a transport error, and changes nothing
/// for any other task: the others end as they would, had it been answered
/// in any other way.
pub proof fn lemma_failed_fetch_fails_its_task_alone(
    tasks: Seq<TaskView>,
    replies: Seq<Result<ResponseView, TransportError>>,
    failed: int,
    otherwise: Result<ResponseView, TransportError>,
)
    requires
        tasks.len() == replies.len(),
        0 <= failed < tasks.len(),
        replies[failed] is Err,
    ensures
        outcomes(tasks, replies)[failed] == (OutcomeView::Failure {
            error: CrawlErrorView::TransportError,
        }),
        forall|other: int|
            0 <= other < tasks.len() && other != failed ==> #[trigger] outcomes(
                tasks,
                replies,
            )[other] == outcomes(tasks, replies.update(failed, otherwise))[other],
{
}

/// A response outside the success range ends the task in a bad response
/// that names the status in decimal: for 404, the text "404".
pub proof fn lemma_bad_status_is_named(task: TaskView, response: ResponseView)
    requires
        !is_success(response.status),
    ensures
        outcome_of(task, Ok(response)) == (OutcomeView::Failure {
            error: CrawlErrorView::BadResponse(decimal(response.status as nat)),
        }),
        decimal(404) == seq!['4', '0', '4'],
{
    reveal_with_fuel(decimal, 3);
    assert(decimal(40) == seq!['4', '0']);
    assert(decimal(404) =~= seq!['4', '0', '4']);
}

/// Where no links are asked for, none are discovered, whatever the body
/// holds.
pub proof fn lemma_no_links_unless_asked(
    task: TaskView,
    reply: Result<ResponseView, TransportError>,
)
    requires
        !task.extract_links,
    ensures
        outcome_of(task, reply) matches OutcomeView::Success { discovered_links, .. }
            ==> discovered_links.len() == 0,
{
}

/// A successful response gives a successful outcome, whatever its links
/// resolve to.
pub proof fn lemma_links_never_fail_the_page(task: TaskView, response: ResponseView)
    requires
        is_success(response.status),
    ensures
        outcome_of(task, Ok(response)) is Success,
        outcome_of(task, Ok(response))->base_url == response.final_url,
{
}

/// A reference that does not resolve leaves no trace in the links: they
/// are the links of the page without it.
pub proof fn lemma_unresolvable_link_is_left_out(
    base: Seq<char>,
    hrefs: Seq<Seq<char>>,
    at: int,
)
    requires
        0 <= at < hrefs.len(),
        joined(base, hrefs[at]) is Err,
    ensures
        resolved_links(base, hrefs) == resolved_links(base, hrefs.remove(at)),
    decreases hrefs.len(),
{
    if at == hrefs.len() - 1 {
        assert(hrefs.remove(at) == hrefs.drop_last());
    } else {
        let shorter = hrefs.remove(at);
        assert(shorter.drop_last() == hrefs.drop_last().remove(at));
        assert(shorter.last() == hrefs.last());
        lemma_unresolvable_link_is_left_out(base, hrefs.drop_last(), at);
    }
}

/// Where every reference resolves, the links are the references, each
/// resolved against the base, in their order: as many links as references,
/// each at the place of its reference.
pub proof fn lemma_all_resolve(base: Seq<char>, hrefs: Seq<Seq<char>>)
    requires
        forall|i: int| 0 <= i < hrefs.len() ==> joined(base, #[trigger] hrefs[i]) is Ok,
    ensures
        resolved_links(base, hrefs).len() == hrefs.len(),
        forall|i: int|
            0 <= i < hrefs.len() ==> (joined(base, hrefs[i]) matches Ok(url) && url
                == #[trigger] resolved_links(base, hrefs)[i]),
    decreases hrefs.len(),
{
    if hrefs.len() > 0 {
        let front = hrefs.drop_last();
        assert forall|i: int| 0 <= i < front.len() implies joined(base, #[trigger] front[i])
            is Ok by {
            assert(front[i] == hrefs[i]);
        }
        lemma_all_resolve(base, front);
        assert(joined(base, hrefs[hrefs.len() - 1]) is Ok);
        assert forall|i: int| 0 <= i < hrefs.len() implies (joined(base, hrefs[i]) matches Ok(
            url,
        ) && url == #[trigger] resolved_links(base, hrefs)[i]) by {
            if i < front.len() {
                assert(front[i] == hrefs[i]);
                assert(resolved_links(base, hrefs)[i] == resolved_links(base, front)[i]);
            }
        }
    }
}

/// Two sequences hold the same items, each as often, when one lists the
/// items of the other in another order: `origin` says, without naming a
/// place twice, where in `want` each item of `got` stands.
pub proof fn lemma_rearranged<A>(got: Seq<A>, want: Seq<A>, origin: Seq<nat>)
    requires
        got.len() == want.len(),
        origin.len() == got.len(),
        forall|i: int|
            0 <= i < got.len() ==> (#[trigger] origin[i]) < want.len() && got[i] == want[origin[i] as int],
        forall|i: int, j: int|
            0 <= i < j < origin.len() ==> #[trigger] origin[i] != #[trigger] origin[j],
    ensures
        got.to_multiset() == want.to_multiset(),
    decreases got.len(),
{
    if got.len() == 0 {
        assert(got == want);
    } else {
        let last = got.len() - 1;
        let place = origin[last] as int;
        let got_rest = got.drop_last();
        let want_rest = want.remove(place);
        let origin_rest = Seq::new(
            last as nat,
            |i: int|
                if origin[i] > place {
                    (origin[i] - 1) as nat
                } else {
                    origin[i]
                },
        );
        assert forall|i: int| 0 <= i < got_rest.len() implies (#[trigger] origin_rest[i])
            < want_rest.len() && got_rest[i] == want_rest[origin_rest[i] as int] by {
            assert(origin[i] != origin[last]);
            assert(origin[i] < want.len());
        }
        assert forall|i: int, j: int| 0 <= i < j < origin_rest.len() implies #[trigger]
            origin_rest[i] != #[trigger] origin_rest[j] by {
            assert(origin[i] != origin[j]);
            assert(origin[i] != origin[last]);
            assert(origin[j] != origin[last]);
        }
        lemma_rearranged(got_rest, want_rest, origin_rest);
        assert(got == got_rest.push(got[last]));
        to_multiset_build(got_rest, got[last]);
        assert(want == want_rest.insert(place, want[place]));
        to_multiset_insert(want_rest, place, want[place]);
    }
}

/// The outcomes of a pool that completed are those of its tasks, each once,
/// in some order.
pub proof fn lemma_completed_outcomes(
    pool: Pool,
    replies: Seq<Result<ResponseView, TransportError>>,
)
    requires
        pool.wf(),
        pool.completed(),
        replies.len() == pool.tasks().len(),
        faithful(pool, replies),
    ensures
        pool.results().len() == pool.tasks().len(),
        record_outcomes(pool.results()).to_multiset() == outcomes(
            pool.tasks(),
            replies,
        ).to_multiset(),
{
    pool.lemma_exactly_once();
    let got = record_outcomes(pool.results());
    let want = outcomes(pool.tasks(), replies);
    assert forall|i: int| 0 <= i < got.len() implies (#[trigger] pool.origins()[i]) < want.len()
        && got[i] == want[pool.origins()[i] as int] by {
        assert(got[i] == pool.results()[i].outcome);
    }
    lemma_rearranged(got, want, pool.origins());
}

/// Two pools that complete the same tasks against the same fetcher report
/// the same outcomes, each as often, though not in the same order: it does
/// not matter how many workers a pool has, nor how their steps interleave.
pub proof fn lemma_same_outcomes_whatever_the_workers(
    one: Pool,
    other: Pool,
    replies: Seq<Result<ResponseView, TransportError>>,
)
    requires
        one.wf(),
        other.wf(),
        one.completed(),
        other.completed(),
        one.tasks() == other.tasks(),
        replies.len() == one.tasks().len(),
        faithful(one, replies),
        faithful(other, replies),
    ensures
        one.results().len() == other.results().len(),
        record_outcomes(one.results()).to_multiset() == record_outcomes(
            other.results(),
        ).to_multiset(),
{
    lemma_completed_outcomes(one, replies);
    lemma_completed_outcomes(other, replies);
}

/// When the workers take turns, the outcomes do not depend on how many
/// they are: each task gets its own, in the order of the tasks.
pub proof fn lemma_turns_give_each_task_its_outcome(
    tasks: Seq<TaskView>,
    replies: Seq<Result<ResponseView, TransportError>>,
    worker_count: usize,
)
    requires
        worker_count >= 1,
    ensures
        turn_records(tasks, replies, worker_count).len() == tasks.len(),
        record_outcomes(turn_records(tasks, replies, worker_count)) == outcomes(tasks, replies),
        forall|i: int|
            0 <= i < tasks.len() ==> (#[trigger] turn_records(
                tasks,
                replies,
                worker_count,
            )[i]).worker_id < worker_count,
{
    assert forall|i: int| 0 <= i < tasks.len() implies (#[trigger] turn_records(
        tasks,
        replies,
        worker_count,
    )[i]).worker_id < worker_count by {
        assert(0 <= i % (worker_count as int) < worker_count);
    }
    assert(record_outcomes(turn_records(tasks, replies, worker_count)) =~= outcomes(
        tasks,
        replies,
    ));
}

/// The fetcher answers a URL in one way only: whatever it hands back for
/// the same URL has the same view.
pub open spec fn single_valued<F: Fn(&String) -> Result<Response, TransportError>>(fetch: F) -> bool {
    forall|url: &String, one: Result<Response, TransportError>, other: Result<
        Response,
        TransportError,
    >| #[trigger]
        call_ensures(fetch, (url,), one) && #[trigger] call_ensures(fetch, (url,), other)
            ==> reply_view(one) == reply_view(other)
}

/// Two runs over the same URLs against a fetcher that answers each URL in
/// one way report the same outcomes, task by task, however many workers
/// each run has.
pub proof fn lemma_runs_agree<F: Fn(&String) -> Result<Response, TransportError>>(
    fetch: F,
    urls: Seq<String>,
    extract_links: bool,
    few: usize,
    many: usize,
    records_of_few: Seq<RecordView>,
    records_of_many: Seq<RecordView>,
)
    requires
        few >= 1,
        many >= 1,
        single_valued(fetch),
        ran(fetch, urls, extract_links, few, records_of_few),
        ran(fetch, urls, extract_links, many, records_of_many),
    ensures
        record_outcomes(records_of_few) == record_outcomes(records_of_many),
        record_outcomes(records_of_few).to_multiset() == record_outcomes(
            records_of_many,
        ).to_multiset(),
{
    let tasks = initial_tasks(urls.map_values(|url: String| url@), extract_links);
    let one = choose|replies: Seq<Result<Response, TransportError>>|
        {
            &&& replies.len() == urls.len()
            &&& forall|i: int|
                0 <= i < replies.len() ==> call_ensures(fetch, (&urls[i],), #[trigger] replies[i])
            &&& records_of_few == turn_records(tasks, reply_views(replies), few)
        };
    let other = choose|replies: Seq<Result<Response, TransportError>>|
        {
            &&& replies.len() == urls.len()
            &&& forall|i: int|
                0 <= i < replies.len() ==> call_ensures(fetch, (&urls[i],), #[trigger] replies[i])
            &&& records_of_many == turn_records(tasks, reply_views(replies), many)
        };
    assert forall|i: int| 0 <= i < urls.len() implies reply_views(one)[i] == reply_views(
        other,
    )[i] by {
        assert(call_ensures(fetch, (&urls[i],), one[i]));
        assert(call_ensures(fetch, (&urls[i],), other[i]));
    }
    assert(reply_views(one) == reply_views(other));
    lemma_turns_give_each_task_its_outcome(tasks, reply_views(one), few);
    lemma_turns_give_each_task_its_outcome(tasks, reply_views(one), many);
}

/// In a run, a URL for which the fetcher has nothing but failure ends in a
/// transport error.
pub proof fn lemma_run_reports_failed_fetch<F: Fn(&String) -> Result<Response, TransportError>>(
    fetch: F,
    urls: Seq<String>,
    extract_links: bool,
    worker_count: usize,
    records: Seq<RecordView>,
    failed: int,
)
    requires
        ran(fetch, urls, extract_links, worker_count, records),
        0 <= failed < urls.len(),
        forall|reply: Result<Response, TransportError>| #[trigger]
            call_ensures(fetch, (&urls[failed],), reply) ==> reply is Err,
    ensures
        records.len() == urls.len(),
        records[failed].outcome == (OutcomeView::Failure {
            error: CrawlErrorView::TransportError,
        }),
{
    let tasks = initial_tasks(urls.map_values(|url: String| url@), extract_links);
    let replies = choose|replies: Seq<Result<Response, TransportError>>|
        {
            &&& replies.len() == urls.len()
            &&& forall|i: int|
                0 <= i < replies.len() ==> call_ensures(fetch, (&urls[i],), #[trigger] replies[i])
            &&& records == turn_records(tasks, reply_views(replies), worker_count)
        };
    assert(call_ensures(fetch, (&urls[failed],), replies[failed]));
    assert(reply_views(replies)[failed] is Err);
}

} // verus!
