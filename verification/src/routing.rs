//! Matching a request path against a route prefix. A prefix matches the
//! paths that begin with it and then end or go on with `/`. A `*` in the
//! prefix stands for one segment: it takes the request up to its next `/`.

use crate::text::chars_of;
use vstd::prelude::*;

verus! {

/// The place of the first `/` of `request` at or after `from`.
pub open spec fn next_slash(request: Seq<char>, from: int) -> Option<int>
    decreases request.len() - from,
{
    if from < 0 || from >= request.len() {
        None
    } else if request[from] == '/' {
        Some(from)
    } else {
        next_slash(request, from + 1)
    }
}

/// How the match goes on from place `i` of the prefix and place `at` of
/// the request, both having agreed so far.
///
/// `None` where a wildcard finds no `/` in what is left of the request: the
/// segment it stands for has no end, and the match has no answer.
pub open spec fn matches_from(prefix: Seq<char>, request: Seq<char>, i: int, at: int) -> Option<
    bool,
>
    decreases prefix.len() - i,
{
    if i < 0 || i >= prefix.len() {
        Some(at == request.len() || request[at] == '/')
    } else if at == request.len() {
        Some(false)
    } else if prefix[i] == '*' {
        match next_slash(request, at) {
            Some(slash) => matches_from(prefix, request, i + 1, slash),
            None => None,
        }
    } else if prefix[i] != request[at] {
        Some(false)
    } else {
        matches_from(prefix, request, i + 1, at + 1)
    }
}

/// Whether `prefix` matches `request`, where the match has an answer.
pub open spec fn prefix_match(prefix: Seq<char>, request: Seq<char>) -> Option<bool> {
    matches_from(prefix, request, 0, 0)
}

/// The place of the first `/` at or after `from`, if there is one.
fn find_slash(request: &Vec<char>, from: usize) -> (found: Option<usize>)
    requires
        from <= request.len(),
    ensures
        match found {
            Some(slash) => next_slash(request@, from as int) == Some(slash as int) && from <= slash
                < request.len(),
            None => next_slash(request@, from as int) is None,
        },
{
    let mut at: usize = from;
    while at < request.len()
        invariant
            from <= at <= request.len(),
            next_slash(request@, from as int) == next_slash(request@, at as int),
        decreases request.len() - at,
    {
        if request[at] == '/' {
            return Some(at);
        }
        at = at + 1;
    }
    None
}

/// Whether `prefix` matches `request_path`; `None` where a wildcard of the
/// prefix finds no `/` in what is left of the request.
pub fn try_prefix_matches(prefix: &str, request_path: &str) -> (answer: Option<bool>)
    ensures
        answer == prefix_match(prefix@, request_path@),
{
    let request = chars_of(request_path);
    let pattern = chars_of(prefix);
    let mut at: usize = 0;
    let mut i: usize = 0;
    while i < pattern.len()
        invariant
            i <= pattern.len(),
            at <= request.len(),
            pattern@ == prefix@,
            request@ == request_path@,
            prefix_match(prefix@, request_path@) == matches_from(
                pattern@,
                request@,
                i as int,
                at as int,
            ),
        decreases pattern.len() - i,
    {
        if at == request.len() {
            return Some(false);
        }
        if pattern[i] == '*' {
            match find_slash(&request, at) {
                Some(slash) => {
                    at = slash;
                },
                None => {
                    return None;
                },
            }
        } else if pattern[i] != request[at] {
            return Some(false);
        } else {
            at = at + 1;
        }
        i = i + 1;
    }
    if at == request.len() {
        return Some(true);
    }
    Some(request[at] == '/')
}

/// Whether `prefix` matches `request_path`.
///
/// The match must have an answer: each wildcard that the match comes to
/// finds a `/` in what is left of the request.
pub fn prefix_matches(prefix: &str, request_path: &str) -> (matched: bool)
    requires
        prefix_match(prefix@, request_path@) is Some,
    ensures
        prefix_match(prefix@, request_path@) == Some(matched),
{
    match try_prefix_matches(prefix, request_path) {
        Some(matched) => matched,
        None => false,
    }
}

/// The next `/` is the first at or after `from`: none stands before it,
/// and where there is none at all, there is no next one.
pub proof fn lemma_next_slash(request: Seq<char>, from: int)
    requires
        0 <= from <= request.len(),
    ensures
        match next_slash(request, from) {
            Some(slash) => {
                &&& from <= slash < request.len()
                &&& request[slash] == '/'
                &&& forall|j: int| from <= j < slash ==> #[trigger] request[j] != '/'
            },
            None => forall|j: int| from <= j < request.len() ==> #[trigger] request[j] != '/',
        },
    decreases request.len() - from,
{
    if from < request.len() && request[from] != '/' {
        lemma_next_slash(request, from + 1);
    }
}

/// A wildcard takes one segment of the request: what stands from the place
/// of the match up to the next `/`, which may be nothing. The match then
/// goes on with the rest of the prefix at that `/`.
///
/// With the request used up, the wildcard does not match. With no `/`
/// left in the request, the segment has no end and the match no answer.
pub proof fn lemma_wildcard_takes_a_segment(
    prefix: Seq<char>,
    request: Seq<char>,
    i: int,
    at: int,
)
    requires
        0 <= i < prefix.len(),
        prefix[i] == '*',
        0 <= at <= request.len(),
    ensures
        at == request.len() ==> matches_from(prefix, request, i, at) == Some(false),
        forall|slash: int|
            at <= slash < request.len() && #[trigger] request[slash] == '/' && (forall|j: int|
                at <= j < slash ==> #[trigger] request[j] != '/') ==> matches_from(
                prefix,
                request,
                i,
                at,
            ) == matches_from(prefix, request, i + 1, slash),
        at < request.len() && (forall|j: int|
            at <= j < request.len() ==> #[trigger] request[j] != '/') ==> matches_from(
            prefix,
            request,
            i,
            at,
        ) is None,
{
    lemma_next_slash(request, at);
    assert forall|slash: int|
        at <= slash < request.len() && #[trigger] request[slash] == '/' && (forall|j: int|
            at <= j < slash ==> #[trigger] request[j] != '/') implies matches_from(
        prefix,
        request,
        i,
        at,
    ) == matches_from(prefix, request, i + 1, slash) by {
        let next = next_slash(request, at);
        assert(next is Some);
        let found = next->0;
        if found < slash {
            assert(request[found] != '/');
        } else if slash < found {
            assert(request[slash] != '/');
        }
    }
}

/// A prefix that ends in a wildcard matches a request that agrees with it
/// up to the wildcard and then holds a `/`: the wildcard takes the segment
/// before that `/`, and what follows is free.
pub proof fn lemma_trailing_wildcard(prefix: Seq<char>, request: Seq<char>, at: int)
    requires
        prefix.len() > 0,
        prefix.last() == '*',
        0 <= at < request.len(),
        exists|slash: int| at <= slash < request.len() && #[trigger] request[slash] == '/',
    ensures
        matches_from(prefix, request, prefix.len() - 1, at) == Some(true),
{
    lemma_next_slash(request, at);
    let slash = choose|slash: int| at <= slash < request.len() && #[trigger] request[slash] == '/';
    assert(next_slash(request, at) is Some);
    let found = next_slash(request, at)->0;
    assert(matches_from(prefix, request, prefix.len() as int, found) == Some(true));
}

/// A prefix without wildcards matches the paths that begin with it and
/// then end or go on with `/`.
pub proof fn lemma_plain_prefix(prefix: Seq<char>, request: Seq<char>)
    requires
        !prefix.contains('*'),
    ensures
        prefix_match(prefix, request) == Some(
            {
                &&& prefix.len() <= request.len()
                &&& request.take(prefix.len() as int) == prefix
                &&& (prefix.len() == request.len() || request[prefix.len() as int] == '/')
            },
        ),
{
    lemma_plain_from(prefix, request, 0);
    assert(prefix.skip(0) == prefix);
    if prefix.len() <= request.len() {
        assert(request.subrange(0, prefix.len() as int) == request.take(prefix.len() as int));
    }
}

proof fn lemma_plain_from(prefix: Seq<char>, request: Seq<char>, i: int)
    requires
        !prefix.contains('*'),
        0 <= i <= prefix.len(),
        i <= request.len(),
    ensures
        matches_from(prefix, request, i, i) == Some(
            {
                &&& prefix.len() <= request.len()
                &&& request.subrange(i, prefix.len() as int) == prefix.skip(i)
                &&& (prefix.len() == request.len() || request[prefix.len() as int] == '/')
            },
        ),
    decreases prefix.len() - i,
{
    if i < prefix.len() {
        assert(prefix.contains(prefix[i]));
        if i < request.len() {
            if prefix[i] == request[i] {
                lemma_plain_from(prefix, request, i + 1);
                if prefix.len() <= request.len() {
                    let here = request.subrange(i, prefix.len() as int);
                    let there = request.subrange(i + 1, prefix.len() as int);
                    assert(here.drop_first() == there);
                    assert(prefix.skip(i).drop_first() == prefix.skip(i + 1));
                    assert(here.first() == prefix.skip(i).first());
                    if there == prefix.skip(i + 1) {
                        assert forall|j: int| 0 <= j < here.len() implies here[j] == prefix.skip(
                            i,
                        )[j] by {
                            if j > 0 {
                                assert(here[j] == there[j - 1]);
                                assert(prefix.skip(i)[j] == prefix.skip(i + 1)[j - 1]);
                            }
                        }
                        assert(here == prefix.skip(i));
                    }
                }
            } else {
                if prefix.len() <= request.len() {
                    assert(request.subrange(i, prefix.len() as int)[0] != prefix.skip(i)[0]);
                }
            }
        }
    } else {
        assert(request.subrange(i, prefix.len() as int) == prefix.skip(i));
    }
}

} // verus!
