use exercises::crawler::model::CrawlError;
use exercises::crawler::model::FetchOutcome;
use exercises::crawler::model::ResultRecord;
use exercises::crawler::model::Task;
use exercises::crawler::pool::Dispatch;
use exercises::crawler::pool::Phase;
use exercises::crawler::pool::Pool;
use exercises::crawler::pool::WorkerState;
use exercises::crawler::source::TaskSource;

fn task(name: &str) -> Task {
    Task::new(format!("https://ok.test/{name}"), false)
}

fn done(name: &str) -> FetchOutcome {
    FetchOutcome::Success {
        discovered_links: Vec::new(),
        base_url: format!("https://ok.test/{name}"),
    }
}

fn failed() -> FetchOutcome {
    FetchOutcome::Failure {
        error: CrawlError::TransportError,
    }
}

#[test]
fn the_source_hands_out_each_task_once_in_order() {
    let mut source = TaskSource::new();
    assert!(source.send(task("a")));
    assert!(source.send(task("b")));
    assert_eq!(source.sent_count(), 2);
    assert_eq!(source.pending_count(), 2);
    assert_eq!(source.next_task(), Some(task("a")));
    assert_eq!(source.handed_out_count(), 1);
    assert!(source.send(task("c")));
    assert_eq!(source.next_task(), Some(task("b")));
    assert_eq!(source.next_task(), Some(task("c")));
    assert_eq!(source.next_task(), None);
    assert!(!source.is_exhausted());
    assert_eq!(source.pending_count(), 0);
}

#[test]
fn an_empty_open_source_may_still_get_tasks() {
    let mut source = TaskSource::new();
    assert_eq!(source.next_task(), None);
    assert!(!source.is_exhausted());
    assert!(source.send(task("late")));
    assert_eq!(source.next_task(), Some(task("late")));
}

#[test]
fn a_closed_source_takes_nothing_and_stays_exhausted() {
    let mut source = TaskSource::new();
    assert!(source.send(task("a")));
    assert!(!source.has_closed());
    source.close();
    assert!(source.has_closed());
    assert!(!source.send(task("b")));
    assert_eq!(source.sent_count(), 1);
    assert!(!source.is_exhausted());
    assert_eq!(source.next_task(), Some(task("a")));
    assert!(source.is_exhausted());
    assert_eq!(source.next_task(), None);
    assert_eq!(source.next_task(), None);
    assert!(source.is_exhausted());
}

#[test]
fn the_pool_goes_through_its_phases() {
    let mut pool = Pool::new();
    assert_eq!(pool.current_phase(), Phase::Idle);
    assert!(!pool.submit(task("early")));
    assert!(!pool.close());
    assert_eq!(pool.task_count(), 0);
    pool.spawn(2);
    assert_eq!(pool.current_phase(), Phase::Populating);
    assert_eq!(pool.worker_count(), 2);
    assert!(pool.submit(task("a")));
    assert!(pool.close());
    assert!(pool.has_closed());
    assert_eq!(pool.current_phase(), Phase::Draining);
    assert!(!pool.submit(task("late")));
    assert_eq!(pool.task_count(), 1);
    assert_eq!(pool.next_task(0), Dispatch::Run(task("a")));
    assert_eq!(pool.next_task(1), Dispatch::Exit);
    assert_eq!(pool.current_phase(), Phase::Draining);
    pool.publish(0, done("a"));
    assert_eq!(pool.next_task(0), Dispatch::Exit);
    assert_eq!(pool.current_phase(), Phase::Terminated);
    let report = pool.finish();
    assert_eq!(report.missing, 0);
    assert_eq!(
        report.records,
        vec![ResultRecord {
            outcome: done("a"),
            worker_id: 0
        }]
    );
}

#[test]
fn a_worker_waits_while_the_source_is_open_and_empty() {
    let mut pool = Pool::new();
    pool.spawn(1);
    assert_eq!(pool.next_task(0), Dispatch::Wait);
    assert_eq!(pool.worker_state(0), WorkerState::Ready);
    assert!(pool.submit(task("a")));
    assert_eq!(pool.next_task(0), Dispatch::Run(task("a")));
    assert_eq!(pool.worker_state(0), WorkerState::Working { task: 0 });
    pool.publish(0, failed());
    assert_eq!(pool.next_task(0), Dispatch::Wait);
    assert!(pool.close());
    assert_eq!(pool.next_task(0), Dispatch::Exit);
    assert_eq!(pool.worker_state(0), WorkerState::Exited);
    assert_eq!(pool.result_count(), 1);
}

#[test]
fn results_arrive_in_the_order_of_completion() {
    let mut pool = Pool::new();
    pool.spawn(3);
    for name in ["a", "b", "c", "d"] {
        assert!(pool.submit(task(name)));
    }
    assert!(pool.close());
    assert_eq!(pool.next_task(2), Dispatch::Run(task("a")));
    assert_eq!(pool.next_task(0), Dispatch::Run(task("b")));
    assert_eq!(pool.next_task(1), Dispatch::Run(task("c")));
    pool.publish(1, done("c"));
    assert_eq!(pool.next_task(1), Dispatch::Run(task("d")));
    pool.publish(0, failed());
    pool.publish(1, done("d"));
    assert_eq!(pool.next_task(1), Dispatch::Exit);
    pool.publish(2, done("a"));
    assert_eq!(pool.next_task(0), Dispatch::Exit);
    assert_eq!(pool.next_task(2), Dispatch::Exit);
    assert_eq!(pool.current_phase(), Phase::Terminated);
    let report = pool.finish();
    assert_eq!(report.missing, 0);
    let expected = vec![
        ResultRecord { outcome: done("c"), worker_id: 1 },
        ResultRecord { outcome: failed(), worker_id: 0 },
        ResultRecord { outcome: done("d"), worker_id: 1 },
        ResultRecord { outcome: done("a"), worker_id: 2 },
    ];
    assert_eq!(report.records, expected);
}

#[test]
fn a_crash_loses_the_task_in_hand_and_degrades_the_pool() {
    let mut pool = Pool::new();
    pool.spawn(2);
    for name in ["a", "b", "c"] {
        assert!(pool.submit(task(name)));
    }
    assert!(pool.close());
    assert_eq!(pool.next_task(0), Dispatch::Run(task("a")));
    assert_eq!(pool.next_task(1), Dispatch::Run(task("b")));
    pool.crash(0);
    assert_eq!(pool.worker_state(0), WorkerState::Crashed { lost: Some(0) });
    pool.publish(1, done("b"));
    assert_eq!(pool.next_task(1), Dispatch::Run(task("c")));
    pool.publish(1, done("c"));
    assert_eq!(pool.next_task(1), Dispatch::Exit);
    assert_eq!(pool.current_phase(), Phase::Terminated);
    let report = pool.finish();
    assert_eq!(report.missing, 1);
    assert_eq!(report.records.len(), 2);
}

#[test]
fn a_pool_whose_workers_all_crashed_misses_what_was_left() {
    let mut pool = Pool::new();
    pool.spawn(1);
    assert!(pool.submit(task("a")));
    assert!(pool.submit(task("b")));
    pool.crash(0);
    assert_eq!(pool.worker_state(0), WorkerState::Crashed { lost: None });
    assert_eq!(pool.current_phase(), Phase::Populating);
    assert!(pool.close());
    assert_eq!(pool.current_phase(), Phase::Terminated);
    let report = pool.finish();
    assert_eq!(report.missing, 2);
    assert!(report.records.is_empty());
}
