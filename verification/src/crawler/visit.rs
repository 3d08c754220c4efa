//! What a worker makes of one task, once the fetcher has answered.

use super::links::anchor_hrefs;
use super::links::extract_hrefs;
use super::links::resolve_links;
use super::links::resolved_links;
use super::links::unparsable_links;
use super::model::CrawlError;
use super::model::CrawlErrorView;
use super::model::FetchOutcome;
use super::model::OutcomeView;
use super::model::Response;
use super::model::ResponseView;
use super::model::Task;
use super::model::TaskView;
use super::model::TransportError;
use super::model::reply_view;
use vstd::prelude::*;

verus! {

/// The character that writes a digit below ten.
pub open spec fn digit_char(digit: nat) -> char {
    if digit == 0 {
        '0'
    } else if digit == 1 {
        '1'
    } else if digit == 2 {
        '2'
    } else if digit == 3 {
        '3'
    } else if digit == 4 {
        '4'
    } else if digit == 5 {
        '5'
    } else if digit == 6 {
        '6'
    } else if digit == 7 {
        '7'
    } else if digit == 8 {
        '8'
    } else {
        '9'
    }
}

/// A number in decimal, without leading zeros.
pub open spec fn decimal(n: nat) -> Seq<char>
    decreases n,
{
    if n < 10 {
        seq![digit_char(n)]
    } else {
        decimal(n / 10).push(digit_char(n % 10))
    }
}

/// Whether a status code reports success: 200 to 299.
pub open spec fn is_success(status: u16) -> bool {
    200 <= status < 300
}

/// How the visit of `task` ends, given what the fetcher handed back.
///
/// A failed request ends it in a transport error, a status outside the
/// success range in a bad response that names the status. Otherwise the
/// visit succeeds: with no links where none were asked for, else with the
/// anchors of the body that resolve against the response's final URL. A
/// reference that does not resolve is left out and fails nothing.
pub open spec fn outcome_of(task: TaskView, reply: Result<ResponseView, TransportError>) -> OutcomeView {
    match reply {
        Err(_) => OutcomeView::Failure { error: CrawlErrorView::TransportError },
        Ok(response) => if !is_success(response.status) {
            OutcomeView::Failure {
                error: CrawlErrorView::BadResponse(decimal(response.status as nat)),
            }
        } else if !task.extract_links {
            OutcomeView::Success { discovered_links: Seq::empty(), base_url: response.final_url }
        } else {
            OutcomeView::Success {
                discovered_links: resolved_links(response.final_url, anchor_hrefs(response.body)),
                base_url: response.final_url,
            }
        },
    }
}

/// The references of the page that are left out of its links, each with the
/// reason. There are none unless the visit succeeds and links were asked
/// for.
pub open spec fn ignored_of(task: TaskView, reply: Result<ResponseView, TransportError>) -> Seq<
    CrawlErrorView,
> {
    match reply {
        Ok(response) if is_success(response.status) && task.extract_links => unparsable_links(
            response.final_url,
            anchor_hrefs(response.body),
        ),
        _ => Seq::empty(),
    }
}

/// Whether the body of the response has a part in the visit: it has
/// where the status reports success and links are asked for. Elsewhere the
/// outcome is the same whatever the body holds, and the fetcher need not
/// read it.
pub open spec fn reads_body(task: TaskView, status: u16) -> bool {
    is_success(status) && task.extract_links
}

/// The outcome of one visit, and the references that were set aside on the
/// way: they are for the log, and no part of the outcome.
pub struct Visit {
    pub outcome: FetchOutcome,
    pub ignored: Vec<CrawlError>,
}

fn digit_text(digit: u16) -> (text: &'static str)
    requires
        digit < 10,
    ensures
        text@ == seq![digit_char(digit as nat)],
{
    proof {
        reveal_strlit("0");
        reveal_strlit("1");
        reveal_strlit("2");
        reveal_strlit("3");
        reveal_strlit("4");
        reveal_strlit("5");
        reveal_strlit("6");
        reveal_strlit("7");
        reveal_strlit("8");
        reveal_strlit("9");
    }
    if digit == 0 {
        "0"
    } else if digit == 1 {
        "1"
    } else if digit == 2 {
        "2"
    } else if digit == 3 {
        "3"
    } else if digit == 4 {
        "4"
    } else if digit == 5 {
        "5"
    } else if digit == 6 {
        "6"
    } else if digit == 7 {
        "7"
    } else if digit == 8 {
        "8"
    } else {
        "9"
    }
}

fn append_decimal(n: u16, text: &mut String)
    ensures
        final(text)@ == old(text)@ + decimal(n as nat),
    decreases n,
{
    if n >= 10 {
        append_decimal(n / 10, text);
    }
    text.append(digit_text(n % 10));
}

/// The status code as text: its decimal digits.
pub fn status_text(status: u16) -> (text: String)
    ensures
        text@ == decimal(status as nat),
{
    let mut text = String::new();
    append_decimal(status, &mut text);
    text
}

/// Whether a status code reports success.
pub fn status_is_success(status: u16) -> (ok: bool)
    ensures
        ok == is_success(status),
{
    200 <= status && status < 300
}

fn no_links() -> (links: Vec<String>)
    ensures
        links.deep_view() == Seq::<Seq<char>>::empty(),
{
    let links: Vec<String> = Vec::new();
    assert(links.deep_view() =~= Seq::<Seq<char>>::empty());
    links
}

fn no_errors() -> (errors: Vec<CrawlError>)
    ensures
        errors.deep_view() == Seq::<CrawlErrorView>::empty(),
{
    let errors: Vec<CrawlError> = Vec::new();
    assert(errors.deep_view() =~= Seq::<CrawlErrorView>::empty());
    errors
}

/// Whether the visit of `task` will read the body of a response with this
/// status.
pub fn wants_body(task: &Task, status: u16) -> (wanted: bool)
    ensures
        wanted == reads_body(task@, status),
{
    status_is_success(status) && task.extract_links
}

/// Ends the visit of `task` with what the fetcher handed back for its URL.
/// The outcome rests on the task and the reply alone: no visit leaves
/// anything behind for another.
pub fn visit_page(task: &Task, reply: Result<Response, TransportError>) -> (visit: Visit)
    ensures
        visit.outcome@ == outcome_of(task@, reply_view(reply)),
        visit.ignored.deep_view() == ignored_of(task@, reply_view(reply)),
{
    match reply {
        Err(_) => Visit {
            outcome: FetchOutcome::Failure { error: CrawlError::TransportError },
            ignored: no_errors(),
        },
        Ok(response) => {
            let (status, final_url, body) = response.into_parts();
            if !status_is_success(status) {
                Visit {
                    outcome: FetchOutcome::Failure {
                        error: CrawlError::BadResponse(status_text(status)),
                    },
                    ignored: no_errors(),
                }
            } else if !task.extract_links {
                Visit {
                    outcome: FetchOutcome::Success { discovered_links: no_links(), base_url: final_url },
                    ignored: no_errors(),
                }
            } else {
                let hrefs = extract_hrefs(body.as_str());
                let page = resolve_links(final_url.as_str(), &hrefs);
                Visit {
                    outcome: FetchOutcome::Success {
                        discovered_links: page.links,
                        base_url: final_url,
                    },
                    ignored: page.ignored,
                }
            }
        },
    }
}

} // verus!
