use exercises::crawler::links::extract_hrefs;
use exercises::crawler::links::file_link;
use exercises::crawler::links::is_parsable;
use exercises::crawler::links::MAX_DOCUMENT_BYTES;
use exercises::crawler::links::present_values;
use exercises::crawler::links::resolve_links;
use exercises::crawler::links::PageLinks;
use exercises::crawler::model::CrawlError;
use exercises::crawler::model::FetchOutcome;
use exercises::crawler::model::Response;
use exercises::crawler::model::ResultRecord;
use exercises::crawler::model::Task;
use exercises::crawler::model::TransportError;
use exercises::crawler::run::run_pool;
use exercises::crawler::visit::status_is_success;
use exercises::crawler::visit::status_text;
use exercises::crawler::visit::visit_page;
use exercises::crawler::visit::wants_body;

fn page(url: &str, body: &str) -> Result<Response, TransportError> {
    Ok(Response::new(200, url.to_string(), body.to_string()).unwrap())
}

fn answer(status: u16, url: &str) -> Result<Response, TransportError> {
    let body = "<a href=\"/never\">never</a>".to_string();
    Ok(Response::new(status, url.to_string(), body).unwrap())
}

/// A fetcher over three hosts: pages of `ok.test` hold two links each,
/// `gone.test` answers 404, and `bad.test` cannot be reached.
fn fixed_fetcher(url: &String) -> Result<Response, TransportError> {
    if url.starts_with("https://ok.test/") {
        let body = format!(
            "<html><body><a href=\"/first\">1</a><p><a href=\"{}/second\">2</a></p></body></html>",
            url
        );
        page(url, &body)
    } else if url.starts_with("https://gone.test/") {
        answer(404, url)
    } else {
        Err(TransportError)
    }
}

fn success(links: &[&str], base_url: &str) -> FetchOutcome {
    FetchOutcome::Success {
        discovered_links: links.iter().map(|link| link.to_string()).collect(),
        base_url: base_url.to_string(),
    }
}

fn transport_failure() -> FetchOutcome {
    FetchOutcome::Failure {
        error: CrawlError::TransportError,
    }
}

fn urls(list: &[&str]) -> Vec<String> {
    list.iter().map(|url| url.to_string()).collect()
}

fn sorted_outcomes(records: &[ResultRecord]) -> Vec<String> {
    let mut outcomes: Vec<String> = records
        .iter()
        .map(|record| format!("{:?}", record.outcome))
        .collect();
    outcomes.sort();
    outcomes
}

#[test]
fn every_task_gets_exactly_one_record() {
    let list = urls(&[
        "https://ok.test/a",
        "https://bad.test/x",
        "https://ok.test/b",
        "https://gone.test/y",
        "https://ok.test/c",
    ]);
    for workers in 1..=7 {
        let records = run_pool(&list, workers, true, fixed_fetcher);
        assert_eq!(records.len(), 5);
        for (i, record) in records.iter().enumerate() {
            assert_eq!(record.worker_id, i % workers);
        }
    }
    assert_eq!(run_pool(&Vec::new(), 3, true, fixed_fetcher), Vec::new());
}

#[test]
fn a_failed_fetch_fails_its_task_alone() {
    let list = urls(&["https://ok.test/a", "https://bad.test/x", "https://ok.test/b"]);
    let records = run_pool(&list, 2, true, fixed_fetcher);
    assert_eq!(records[1].outcome, transport_failure());
    let without = run_pool(
        &urls(&["https://ok.test/a", "https://ok.test/b"]),
        2,
        true,
        fixed_fetcher,
    );
    assert_eq!(records[0].outcome, without[0].outcome);
    assert_eq!(records[2].outcome, without[1].outcome);
}

#[test]
fn status_404_is_a_bad_response_named_404() {
    let task = Task::new("https://gone.test/y".to_string(), true);
    let visit = visit_page(&task, answer(404, "https://gone.test/y"));
    assert_eq!(
        visit.outcome,
        FetchOutcome::Failure {
            error: CrawlError::BadResponse("404".to_string())
        }
    );
    assert!(visit.ignored.is_empty());
}

#[test]
fn only_the_two_hundreds_are_success() {
    assert!(!status_is_success(199));
    assert!(status_is_success(200));
    assert!(status_is_success(204));
    assert!(status_is_success(299));
    assert!(!status_is_success(300));
    assert!(!status_is_success(404));
    assert!(!status_is_success(0));
    let task = Task::new("https://ok.test/".to_string(), false);
    for (status, text) in [(199, "199"), (300, "300"), (500, "500"), (0, "0"), (65535, "65535")] {
        let visit = visit_page(&task, answer(status, "https://ok.test/"));
        assert_eq!(
            visit.outcome,
            FetchOutcome::Failure {
                error: CrawlError::BadResponse(text.to_string())
            }
        );
    }
}

#[test]
fn status_text_is_decimal() {
    assert_eq!(status_text(0), "0");
    assert_eq!(status_text(7), "7");
    assert_eq!(status_text(10), "10");
    assert_eq!(status_text(404), "404");
    assert_eq!(status_text(1000), "1000");
    assert_eq!(status_text(65535), "65535");
}

#[test]
fn no_links_unless_asked() {
    let task = Task::new("https://ok.test/a".to_string(), false);
    let visit = visit_page(&task, fixed_fetcher(&"https://ok.test/a".to_string()));
    assert_eq!(visit.outcome, success(&[], "https://ok.test/a"));
    assert!(visit.ignored.is_empty());
    let records = run_pool(&urls(&["https://ok.test/a"]), 1, false, fixed_fetcher);
    assert_eq!(records[0].outcome, success(&[], "https://ok.test/a"));
}

#[test]
fn an_unresolvable_link_is_left_out_and_fails_nothing() {
    let body = "<a href=\"/one\">1</a><a href=\"http://[::1\">broken</a><a href=\"two\">2</a>\
                <a href=\"https://\">empty</a>";
    let task = Task::new("https://ok.test/dir/a".to_string(), true);
    let visit = visit_page(&task, page("https://ok.test/dir/a", body));
    assert_eq!(
        visit.outcome,
        success(
            &["https://ok.test/one", "https://ok.test/dir/two"],
            "https://ok.test/dir/a"
        )
    );
    assert_eq!(visit.ignored.len(), 2);
    assert!(matches!(
        &visit.ignored[0],
        CrawlError::UnparsableLink(href, reason) if href == "http://[::1" && !reason.is_empty()
    ));
    assert!(matches!(
        &visit.ignored[1],
        CrawlError::UnparsableLink(href, _) if href == "https://"
    ));
}

#[test]
fn text_that_is_no_url_resolves_as_a_relative_reference() {
    let page = resolve_links("https://ok.test/dir/a", &urls(&["not a url"]));
    assert_eq!(page.links, urls(&["https://ok.test/dir/not%20a%20url"]));
    assert!(page.ignored.is_empty());
}

#[test]
fn links_resolve_against_the_final_url() {
    let hrefs = urls(&[
        "c.png",
        "../up",
        "/root",
        "//other.test/p",
        "http://abs.test/q?x=1#f",
        "#frag",
        "",
    ]);
    let page = resolve_links("https://ok.test/a/b/index.html", &hrefs);
    assert_eq!(
        page.links,
        urls(&[
            "https://ok.test/a/b/c.png",
            "https://ok.test/a/up",
            "https://ok.test/root",
            "https://other.test/p",
            "http://abs.test/q?x=1#f",
            "https://ok.test/a/b/index.html#frag",
            "https://ok.test/a/b/index.html",
        ])
    );
    assert!(page.ignored.is_empty());
}

#[test]
fn nothing_resolves_against_a_base_that_is_no_url() {
    let page = resolve_links("nonsense", &urls(&["/a", "b"]));
    assert!(page.links.is_empty());
    assert_eq!(page.ignored.len(), 2);
    // An absolute reference does not help either: the base is parsed first.
    let page = resolve_links("nonsense", &urls(&["https://ok.test/"]));
    assert!(page.links.is_empty());
}

#[test]
fn hrefs_come_in_order_and_only_from_anchors() {
    let body = "<html><head><link href=\"style.css\"></head><body>\
                <a href=\"first\">1</a><a name=\"no-href\">x</a>\
                <div><a href=\"\">empty</a><A HREF=\"upper\">u</A></div>\
                <img src=\"pic.png\"><a href=\"last\">l</a></body></html>";
    assert_eq!(extract_hrefs(body), urls(&["first", "", "upper", "last"]));
    assert_eq!(extract_hrefs(""), Vec::<String>::new());
    assert_eq!(extract_hrefs("plain text, no markup"), Vec::<String>::new());
}

#[test]
fn present_values_drops_the_missing() {
    let found = vec![
        Some("a".to_string()),
        None,
        Some(String::new()),
        None,
        Some("b".to_string()),
    ];
    assert_eq!(present_values(&found), urls(&["a", "", "b"]));
    assert_eq!(present_values(&Vec::new()), Vec::<String>::new());
}

#[test]
fn file_link_sorts_by_resolution() {
    let mut page = PageLinks {
        links: urls(&["https://ok.test/"]),
        ignored: Vec::new(),
    };
    file_link("x", Ok("https://ok.test/x".to_string()), &mut page);
    file_link("y", Err("no good".to_string()), &mut page);
    assert_eq!(page.links, urls(&["https://ok.test/", "https://ok.test/x"]));
    assert_eq!(
        page.ignored,
        vec![CrawlError::UnparsableLink(
            "y".to_string(),
            "no good".to_string()
        )]
    );
}

#[test]
fn one_worker_and_eight_report_the_same_outcomes() {
    let list = urls(&[
        "https://ok.test/a",
        "https://gone.test/1",
        "https://bad.test/x",
        "https://ok.test/b",
        "https://ok.test/a",
        "https://bad.test/y",
        "https://ok.test/c",
        "https://gone.test/2",
        "https://ok.test/d",
        "https://ok.test/e",
    ]);
    let one = run_pool(&list, 1, true, fixed_fetcher);
    let eight = run_pool(&list, 8, true, fixed_fetcher);
    assert_eq!(sorted_outcomes(&one), sorted_outcomes(&eight));
    assert!(one.iter().all(|record| record.worker_id == 0));
    assert!(eight.iter().any(|record| record.worker_id == 7));
}

#[test]
fn run_pool_ends_for_any_numbers_of_tasks_and_workers() {
    for tasks in 0..6 {
        let list: Vec<String> = (0..tasks)
            .map(|i| format!("https://ok.test/{i}"))
            .collect();
        for workers in 1..6 {
            assert_eq!(run_pool(&list, workers, false, fixed_fetcher).len(), tasks);
        }
    }
}

#[test]
fn two_pages_and_one_host_out_of_reach() {
    let list = urls(&["https://ok.test/a", "https://ok.test/b", "https://bad.test/x"]);
    let records = run_pool(&list, 2, true, fixed_fetcher);
    assert_eq!(records.len(), 3);
    let failures = records
        .iter()
        .filter(|record| record.outcome == transport_failure())
        .count();
    assert_eq!(failures, 1);
    assert!(records.contains(&ResultRecord {
        outcome: success(
            &["https://ok.test/first", "https://ok.test/a/second"],
            "https://ok.test/a"
        ),
        worker_id: 0,
    }));
    assert!(records.contains(&ResultRecord {
        outcome: success(
            &["https://ok.test/first", "https://ok.test/b/second"],
            "https://ok.test/b"
        ),
        worker_id: 1,
    }));
    assert!(records.contains(&ResultRecord {
        outcome: transport_failure(),
        worker_id: 0,
    }));
}

#[test]
fn the_base_url_is_the_final_url_after_redirects() {
    let task = Task::new("https://ok.test/old".to_string(), true);
    let visit = visit_page(
        &task,
        page("https://moved.test/new/", "<a href=\"here\">h</a>"),
    );
    assert_eq!(
        visit.outcome,
        success(&["https://moved.test/new/here"], "https://moved.test/new/")
    );
}

#[test]
fn a_task_can_be_duplicated() {
    let task = Task::new("https://ok.test/".to_string(), true);
    assert_eq!(task.duplicate(), task);
}

#[test]
fn a_document_is_parsable_up_to_the_limit() {
    assert_eq!(MAX_DOCUMENT_BYTES, 268_435_456);
    assert!(is_parsable(""));
    assert!(is_parsable("<a href=\"x\">x</a>"));
    let mut long = "a".repeat(MAX_DOCUMENT_BYTES);
    assert!(is_parsable(&long));
    long.push('a');
    assert!(!is_parsable(&long));
}

#[test]
fn the_limit_counts_bytes_not_characters() {
    // Each character takes two bytes.
    let mut long = "é".repeat(MAX_DOCUMENT_BYTES / 2);
    assert!(is_parsable(&long));
    long.push('a');
    assert!(!is_parsable(&long));
}

#[test]
fn a_response_takes_no_body_that_is_too_long() {
    let url = "https://ok.test/a".to_string();
    let mut long = "a".repeat(MAX_DOCUMENT_BYTES);
    let response = Response::new(200, url.clone(), long.clone()).unwrap();
    assert_eq!(response.status(), 200);
    assert_eq!(response.final_url(), "https://ok.test/a");
    assert_eq!(response.body().len(), MAX_DOCUMENT_BYTES);
    long.push('a');
    assert_eq!(Response::new(200, url.clone(), long.clone()), None);
    assert_eq!(Response::new(404, url, long), None);
}

#[test]
fn a_response_hands_over_its_parts() {
    let response = Response::new(204, "https://ok.test/".to_string(), "body".to_string());
    assert_eq!(
        response.unwrap().into_parts(),
        (204, "https://ok.test/".to_string(), "body".to_string())
    );
}

#[test]
fn the_body_is_wanted_for_links_of_a_successful_page() {
    let asks = Task::new("https://ok.test/a".to_string(), true);
    let asks_not = Task::new("https://ok.test/a".to_string(), false);
    assert!(wants_body(&asks, 200));
    assert!(wants_body(&asks, 299));
    assert!(!wants_body(&asks, 199));
    assert!(!wants_body(&asks, 300));
    assert!(!wants_body(&asks, 404));
    assert!(!wants_body(&asks_not, 200));
    assert!(!wants_body(&asks_not, 404));
}

#[test]
fn a_body_that_is_not_wanted_changes_nothing() {
    let url = "https://ok.test/a";
    let asks_not = Task::new(url.to_string(), false);
    let asks = Task::new(url.to_string(), true);
    let with = |status: u16, body: &str| -> Result<Response, TransportError> {
        Ok(Response::new(status, url.to_string(), body.to_string()).unwrap())
    };
    assert_eq!(
        visit_page(&asks_not, with(200, "<a href=\"x\">x</a>")).outcome,
        visit_page(&asks_not, with(200, "")).outcome
    );
    assert_eq!(
        visit_page(&asks, with(404, "<a href=\"x\">x</a>")).outcome,
        visit_page(&asks, with(404, "")).outcome
    );
}
