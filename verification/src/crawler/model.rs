//! The data a crawl works on: tasks, what the fetcher hands back, and what a
//! worker reports. Every type has a view in which text is a sequence of
//! characters; the contracts of the crawler speak of these views.

use super::links::is_parsable;
use super::links::parsable;
use vstd::prelude::*;

verus! {

/// One unit of work: a page to visit, and whether its links are wanted.
#[derive(Debug, Clone, PartialEq, Eq)]
pub struct Task {
    pub url: String,
    pub extract_links: bool,
}

pub struct TaskView {
    pub url: Seq<char>,
    pub extract_links: bool,
}

impl View for Task {
    type V = TaskView;

    open spec fn view(&self) -> TaskView {
        TaskView { url: self.url@, extract_links: self.extract_links }
    }
}

impl DeepView for Task {
    type V = TaskView;

    open spec fn deep_view(&self) -> TaskView {
        self@
    }
}

impl Task {
    pub fn new(url: String, extract_links: bool) -> (task: Task)
        ensures
            task@ == (TaskView { url: url@, extract_links }),
    {
        Task { url, extract_links }
    }

    /// A second task with the same contents.
    pub fn duplicate(&self) -> (task: Task)
        ensures
            task@ == self@,
    {
        Task { url: self.url.clone(), extract_links: self.extract_links }
    }
}

/// The request itself failed: no response arrived.
#[derive(Debug, Clone, Copy, PartialEq, Eq)]
pub struct TransportError;

/// A response as the fetcher reports it, after redirects. Its body is
/// short enough to be parsed: a response is made by `Response::new`, which
/// takes no longer one.
#[derive(Debug, PartialEq, Eq)]
pub struct Response {
    status: u16,
    final_url: String,
    body: String,
}

pub struct ResponseView {
    pub status: u16,
    pub final_url: Seq<char>,
    pub body: Seq<char>,
}

impl View for Response {
    type V = ResponseView;

    closed spec fn view(&self) -> ResponseView {
        ResponseView { status: self.status, final_url: self.final_url@, body: self.body@ }
    }
}

impl Response {
    #[verifier::type_invariant]
    spec fn fits(&self) -> bool {
        parsable(self.body@)
    }

    /// A response with this status, final URL and body; `None` where the
    /// body is too long to be parsed.
    pub fn new(status: u16, final_url: String, body: String) -> (made: Option<Response>)
        ensures
            match made {
                Some(response) => {
                    &&& parsable(body@)
                    &&& response@ == (ResponseView {
                        status,
                        final_url: final_url@,
                        body: body@,
                    })
                },
                None => !parsable(body@),
            },
    {
        if is_parsable(body.as_str()) {
            Some(Response { status, final_url, body })
        } else {
            None
        }
    }

    /// The status code.
    pub fn status(&self) -> (status: u16)
        ensures
            status == self@.status,
    {
        self.status
    }

    /// The URL that answered, after redirects.
    pub fn final_url(&self) -> (url: &str)
        ensures
            url@ == self@.final_url,
    {
        self.final_url.as_str()
    }

    /// The body.
    pub fn body(&self) -> (body: &str)
        ensures
            body@ == self@.body,
            parsable(body@),
    {
        proof {
            use_type_invariant(self);
        }
        self.body.as_str()
    }

    /// Status, final URL and body, handed over.
    pub fn into_parts(self) -> (parts: (u16, String, String))
        ensures
            parts.0 == self@.status,
            parts.1@ == self@.final_url,
            parts.2@ == self@.body,
            parsable(parts.2@),
    {
        proof {
            use_type_invariant(&self);
        }
        (self.status, self.final_url, self.body)
    }
}

/// What the fetcher hands back for one URL.
pub open spec fn reply_view(reply: Result<Response, TransportError>) -> Result<
    ResponseView,
    TransportError,
> {
    match reply {
        Ok(response) => Ok(response@),
        Err(error) => Err(error),
    }
}

/// Why a task, or one link of a page, came to nothing.
#[derive(Debug, Clone, PartialEq, Eq)]
pub enum CrawlError {
    /// The request failed before any response arrived.
    TransportError,
    /// The server answered with a status outside the success range; the
    /// text is the status code in decimal.
    BadResponse(String),
    /// A link of the page could not be resolved against the page's URL: the
    /// raw reference, then the reason.
    UnparsableLink(String, String),
}

pub enum CrawlErrorView {
    TransportError,
    BadResponse(Seq<char>),
    UnparsableLink(Seq<char>, Seq<char>),
}

impl View for CrawlError {
    type V = CrawlErrorView;

    open spec fn view(&self) -> CrawlErrorView {
        match self {
            CrawlError::TransportError => CrawlErrorView::TransportError,
            CrawlError::BadResponse(status) => CrawlErrorView::BadResponse(status@),
            CrawlError::UnparsableLink(href, reason) => CrawlErrorView::UnparsableLink(
                href@,
                reason@,
            ),
        }
    }
}

impl DeepView for CrawlError {
    type V = CrawlErrorView;

    open spec fn deep_view(&self) -> CrawlErrorView {
        self@
    }
}

/// How the visit of one task ended.
#[derive(Debug, Clone, PartialEq, Eq)]
pub enum FetchOutcome {
    Success { discovered_links: Vec<String>, base_url: String },
    Failure { error: CrawlError },
}

pub enum OutcomeView {
    Success { discovered_links: Seq<Seq<char>>, base_url: Seq<char> },
    Failure { error: CrawlErrorView },
}

impl View for FetchOutcome {
    type V = OutcomeView;

    open spec fn view(&self) -> OutcomeView {
        match self {
            FetchOutcome::Success { discovered_links, base_url } => OutcomeView::Success {
                discovered_links: discovered_links.deep_view(),
                base_url: base_url@,
            },
            FetchOutcome::Failure { error } => OutcomeView::Failure { error: error@ },
        }
    }
}

/// What a worker publishes for one task.
#[derive(Debug, Clone, PartialEq, Eq)]
pub struct ResultRecord {
    pub outcome: FetchOutcome,
    pub worker_id: usize,
}

pub struct RecordView {
    pub outcome: OutcomeView,
    pub worker_id: usize,
}

impl View for ResultRecord {
    type V = RecordView;

    open spec fn view(&self) -> RecordView {
        RecordView { outcome: self.outcome@, worker_id: self.worker_id }
    }
}

impl DeepView for ResultRecord {
    type V = RecordView;

    open spec fn deep_view(&self) -> RecordView {
        self@
    }
}

} // verus!
