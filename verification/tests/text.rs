use exercises::text::chars_of;
use exercises::text::first_word;
use exercises::text::helper;
use exercises::text::repeated;
use exercises::text::reversed;
use exercises::text::shorten_string;
use exercises::text::try_shorten_string;

#[test]
fn test_empty() {
    assert_eq!(first_word(""), "");
}

#[test]
fn test_single_word() {
    assert_eq!(first_word("Hello"), "Hello");
}

#[test]
fn test_multiple_words() {
    assert_eq!(first_word("Hello World"), "Hello");
}

#[test]
fn test_helper() {
    assert_eq!(helper("foo", "bar"), "foo bar");
}

#[test]
fn first_word_of_a_text_that_starts_with_a_space_is_empty() {
    assert_eq!(first_word(" Hello"), "");
}

#[test]
fn first_word_counts_characters_not_bytes() {
    assert_eq!(first_word("héllo wörld"), "héllo");
}

#[test]
fn helper_keeps_empty_parts() {
    assert_eq!(helper("", ""), " ");
    assert_eq!(helper("a", ""), "a ");
}

#[test]
fn shorten_string_cuts_or_keeps() {
    assert_eq!(shorten_string("Hello World", 5), "Hello");
    assert_eq!(shorten_string("Hello World", 20), "Hello World");
    assert_eq!(shorten_string("Hello World", 0), "");
    assert_eq!(shorten_string("Hello World", 11), "Hello World");
}

#[test]
fn a_cut_inside_a_character_is_refused() {
    // The second character takes two bytes: 1 and 3 are boundaries, 2 is not.
    assert_eq!(try_shorten_string("héllo", 1), Some("h"));
    assert_eq!(try_shorten_string("héllo", 2), None);
    assert_eq!(try_shorten_string("héllo", 3), Some("hé"));
    assert_eq!(try_shorten_string("héllo", 99), Some("héllo"));
}

#[test]
fn chars_of_keeps_order() {
    assert_eq!(chars_of("aé/"), vec!['a', 'é', '/']);
    assert_eq!(chars_of(""), Vec::<char>::new());
}

#[test]
fn reversed_reads_from_the_end() {
    assert_eq!(reversed("| "), " |");
    assert_eq!(reversed("abc"), "cba");
    assert_eq!(reversed(""), "");
}

#[test]
fn repeated_writes_in_a_row() {
    assert_eq!(repeated("=", 3), "===");
    assert_eq!(repeated("ab", 2), "abab");
    assert_eq!(repeated("ab", 0), "");
}
