use exercises::routing::prefix_matches;
use exercises::routing::try_prefix_matches;

#[test]
fn test_matches_without_wildcard() {
    assert!(prefix_matches("/v1/publishers", "/v1/publishers"));
    assert!(prefix_matches("/v1/publishers", "/v1/publishers/abc-123"));
    assert!(prefix_matches("/v1/publishers", "/v1/publishers/abc/books"));

    assert!(!prefix_matches("/v1/publishers", "/v1"));
    assert!(!prefix_matches("/v1/publishers", "/v1/publishersBooks"));
    assert!(!prefix_matches("/v1/publishers", "/v1/parent/publishers"));
}

#[test]
fn test_matches_with_wildcard() {
    assert!(prefix_matches(
        "/v1/publishers/*/books",
        "/v1/publishers/foo/books"
    ));
    assert!(prefix_matches(
        "/v1/publishers/*/books",
        "/v1/publishers/bar/books"
    ));
    assert!(prefix_matches(
        "/v1/publishers/*/books",
        "/v1/publishers/foo/books/book1"
    ));

    assert!(!prefix_matches("/v1/publishers/*/books", "/v1/publishers"));
    assert!(!prefix_matches(
        "/v1/publishers/*/books",
        "/v1/publishers/foo/booksByAuthor"
    ));
}

#[test]
fn a_wildcard_without_a_slash_to_stop_at_has_no_answer() {
    assert_eq!(try_prefix_matches("/v1/*", "/v1/foo"), None);
    assert_eq!(try_prefix_matches("*", ""), Some(false));
    assert_eq!(try_prefix_matches("*", "abc"), None);
}

#[test]
fn a_wildcard_stands_for_one_segment() {
    assert_eq!(try_prefix_matches("/v1/*", "/v1/foo/bar"), Some(true));
    assert_eq!(try_prefix_matches("/*/b", "/a/b"), Some(true));
    assert_eq!(try_prefix_matches("/*/b", "/a/c"), Some(false));
    assert_eq!(try_prefix_matches("/*/*/c", "/a/b/c"), Some(true));
    assert_eq!(try_prefix_matches("/*/b", "//b"), Some(true));
}

#[test]
fn the_empty_prefix_matches_rooted_and_empty_paths() {
    assert_eq!(try_prefix_matches("", ""), Some(true));
    assert_eq!(try_prefix_matches("", "/a"), Some(true));
    assert_eq!(try_prefix_matches("", "a"), Some(false));
}

#[test]
fn checked_and_plain_agree_where_there_is_an_answer() {
    let cases = vec![
        ("/v1", "/v1/x"),
        ("/v1", "/v2"),
        ("/é", "/é/x"),
        ("/*/x", "/y/x"),
    ];
    for (prefix, path) in cases {
        assert_eq!(try_prefix_matches(prefix, path), Some(prefix_matches(prefix, path)));
    }
}
