//! Finding the links of a page: the anchors of its HTML, each resolved
//! against the page's own URL.

use super::model::CrawlError;
use super::model::CrawlErrorView;
use scraper::Html;
use scraper::Selector;
use url::Url;
use vstd::prelude::*;
use vstd::utf8::encode_utf8;

verus! {

/// The most bytes of a document that are handed to the parser: 256 MiB.
///
/// The parser keeps every piece of text in a buffer whose length is counted
/// in a `u32` and whose capacity is rounded up to a power of two, and it may
/// write three bytes for one byte read. Up to this length no buffer comes
/// near those limits.
pub const MAX_DOCUMENT_BYTES: usize = 0x1000_0000;

/// Whether a document is short enough to be parsed.
pub open spec fn parsable(document: Seq<char>) -> bool {
    encode_utf8(document).len() <= MAX_DOCUMENT_BYTES
}

/// What `scraper` finds in a document: `None` where it rejects the
/// selector, else one entry for each element that the selector matches, in
/// the order in which `Html::select` yields them, holding the value of the
/// attribute where the element has it.
pub uninterp spec fn selected_attrs(
    document: Seq<char>,
    selector: Seq<char>,
    attribute: Seq<char>,
) -> Option<Seq<Option<Seq<char>>>>;

/// What `url` makes of a reference found on the page at `base`: the
/// serialization of the URL it resolves to, or the text of the parse error
/// where `base` is no absolute URL or the reference does not resolve.
pub uninterp spec fn joined(base: Seq<char>, reference: Seq<char>) -> Result<Seq<char>, Seq<char>>;

pub open spec fn resolution_view(resolution: Result<String, String>) -> Result<
    Seq<char>,
    Seq<char>,
> {
    match resolution {
        Ok(url) => Ok(url@),
        Err(reason) => Err(reason@),
    }
}

/// Calls `scraper`: `Selector::parse` on the selector, `Html::parse_document`
/// on the document, `Html::select`, and `Element::attr` on each element
/// selected. Believed, not proved: for the anchor selector and a document
/// within the limit above the calls return, and the outcome is the one
/// that `selected_attrs` names for these three texts.
///
/// Other inputs are left out. A longer document can make the parser panic.
/// A selector that looks into an element, such as `:has(a)`, makes the
/// matcher descend once for each level of nesting in the document, without
/// bound; the anchor selector looks at the element's name alone.
#[verifier::external_body]
fn select_attrs(document: &str, selector: &str, attribute: &str) -> (found: Option<
    Vec<Option<String>>,
>)
    requires
        parsable(document@),
        selector@ == anchor_selector(),
    ensures
        found.deep_view() == selected_attrs(document@, selector@, attribute@),
{
    match Selector::parse(selector) {
        Ok(selector) => Some(
            Html::parse_document(document)
                .select(&selector)
                .map(|element| element.value().attr(attribute).map(String::from))
                .collect(),
        ),
        Err(_) => None,
    }
}

/// Calls `url`: `Url::parse` on the base, then `Url::join` with the
/// reference. Believed, not proved: the outcome is the one that `joined`
/// names for these two texts.
#[verifier::external_body]
fn join_url(base: &str, reference: &str) -> (resolution: Result<String, String>)
    ensures
        resolution_view(resolution) == joined(base@, reference@),
{
    match Url::parse(base) {
        Ok(base) => match base.join(reference) {
            Ok(url) => Ok(url.into()),
            Err(error) => Err(error.to_string()),
        },
        Err(error) => Err(error.to_string()),
    }
}

/// The selector that finds the anchors of a page.
pub open spec fn anchor_selector() -> Seq<char> {
    seq!['a']
}

/// The attribute that holds an anchor's reference.
pub open spec fn href_attribute() -> Seq<char> {
    seq!['h', 'r', 'e', 'f']
}

/// The entries that hold a value, in their order.
pub open spec fn present(found: Seq<Option<Seq<char>>>) -> Seq<Seq<char>>
    decreases found.len(),
{
    if found.len() == 0 {
        Seq::empty()
    } else {
        match found.last() {
            Some(value) => present(found.drop_last()).push(value),
            None => present(found.drop_last()),
        }
    }
}

/// The raw references of a page's anchors: the `href` of each `a` element
/// that has one, in the order in which `Html::select` yields the elements.
/// Nothing, should the selector be rejected.
pub open spec fn anchor_hrefs(body: Seq<char>) -> Seq<Seq<char>> {
    match selected_attrs(body, anchor_selector(), href_attribute()) {
        Some(found) => present(found),
        None => Seq::empty(),
    }
}

/// The references that resolve against `base`, each as the URL it resolves
/// to, in their order.
pub open spec fn resolved_links(base: Seq<char>, hrefs: Seq<Seq<char>>) -> Seq<Seq<char>>
    decreases hrefs.len(),
{
    if hrefs.len() == 0 {
        Seq::empty()
    } else {
        match joined(base, hrefs.last()) {
            Ok(url) => resolved_links(base, hrefs.drop_last()).push(url),
            Err(_) => resolved_links(base, hrefs.drop_last()),
        }
    }
}

/// The references that do not resolve against `base`, each with the reason,
/// in their order.
pub open spec fn unparsable_links(base: Seq<char>, hrefs: Seq<Seq<char>>) -> Seq<CrawlErrorView>
    decreases hrefs.len(),
{
    if hrefs.len() == 0 {
        Seq::empty()
    } else {
        match joined(base, hrefs.last()) {
            Ok(_) => unparsable_links(base, hrefs.drop_last()),
            Err(reason) => unparsable_links(base, hrefs.drop_last()).push(
                CrawlErrorView::UnparsableLink(hrefs.last(), reason),
            ),
        }
    }
}

/// The links of one page, and the references that were left out.
pub struct PageLinks {
    pub links: Vec<String>,
    pub ignored: Vec<CrawlError>,
}

/// Keeps the values that are present, in their order.
pub fn present_values(found: &Vec<Option<String>>) -> (values: Vec<String>)
    ensures
        values.deep_view() == present(found.deep_view()),
{
    let mut values: Vec<String> = Vec::new();
    let mut i: usize = 0;
    while i < found.len()
        invariant
            i <= found.len(),
            values.deep_view() == present(found.deep_view().take(i as int)),
        decreases found.len() - i,
    {
        let ghost before = values.deep_view();
        proof {
            let upto = found.deep_view().take(i as int + 1);
            assert(upto.drop_last() == found.deep_view().take(i as int));
            assert(upto.last() == found[i as int].deep_view());
        }
        match &found[i] {
            Some(value) => {
                values.push(value.clone());
                assert(values.deep_view() == before.push(value@));
            },
            None => {},
        }
        i = i + 1;
    }
    assert(found.deep_view().take(i as int) == found.deep_view());
    values
}

/// Whether a document is short enough to be parsed.
pub fn is_parsable(document: &str) -> (fits: bool)
    ensures
        fits == parsable(document@),
{
    document.as_bytes().len() <= MAX_DOCUMENT_BYTES
}

/// The raw references of a page's anchors. The page must be short enough
/// to be parsed.
pub fn extract_hrefs(body: &str) -> (hrefs: Vec<String>)
    requires
        parsable(body@),
    ensures
        hrefs.deep_view() == anchor_hrefs(body@),
{
    proof {
        reveal_strlit("a");
        reveal_strlit("href");
        assert("a"@ == anchor_selector());
        assert("href"@ == href_attribute());
    }
    match select_attrs(body, "a", "href") {
        Some(found) => present_values(&found),
        None => Vec::new(),
    }
}

/// Files one reference under the links, with the URL it resolved to, or
/// under the ignored references, with the reason why it did not resolve.
pub fn file_link(href: &str, resolution: Result<String, String>, page: &mut PageLinks)
    ensures
        match resolution_view(resolution) {
            Ok(url) => {
                &&& final(page).links.deep_view() == old(page).links.deep_view().push(url)
                &&& final(page).ignored.deep_view() == old(page).ignored.deep_view()
            },
            Err(reason) => {
                &&& final(page).links.deep_view() == old(page).links.deep_view()
                &&& final(page).ignored.deep_view() == old(page).ignored.deep_view().push(
                    CrawlErrorView::UnparsableLink(href@, reason),
                )
            },
        },
{
    match resolution {
        Ok(url) => {
            let ghost before = page.links.deep_view();
            let ghost text = url@;
            page.links.push(url);
            assert(page.links.deep_view() == before.push(text));
        },
        Err(reason) => {
            let ghost before = page.ignored.deep_view();
            let ghost text = reason@;
            page.ignored.push(CrawlError::UnparsableLink(href.to_owned(), reason));
            assert(page.ignored.deep_view() == before.push(
                CrawlErrorView::UnparsableLink(href@, text),
            ));
        },
    }
}

/// Resolves each reference against `base`. The ones that resolve become the
/// page's links; the others are set aside, each with its reason, and do not
/// fail the page.
pub fn resolve_links(base: &str, hrefs: &Vec<String>) -> (page: PageLinks)
    ensures
        page.links.deep_view() == resolved_links(base@, hrefs.deep_view()),
        page.ignored.deep_view() == unparsable_links(base@, hrefs.deep_view()),
{
    let mut page = PageLinks { links: Vec::new(), ignored: Vec::new() };
    let mut i: usize = 0;
    while i < hrefs.len()
        invariant
            i <= hrefs.len(),
            page.links.deep_view() == resolved_links(base@, hrefs.deep_view().take(i as int)),
            page.ignored.deep_view() == unparsable_links(base@, hrefs.deep_view().take(i as int)),
        decreases hrefs.len() - i,
    {
        proof {
            let upto = hrefs.deep_view().take(i as int + 1);
            assert(upto.drop_last() == hrefs.deep_view().take(i as int));
            assert(upto.last() == hrefs[i as int]@);
        }
        let resolution = join_url(base, hrefs[i].as_str());
        file_link(hrefs[i].as_str(), resolution, &mut page);
        i = i + 1;
    }
    assert(hrefs.deep_view().take(i as int) == hrefs.deep_view());
    page
}

} // verus!
