//! Small helpers on text.

use vstd::prelude::*;
use vstd::string::StringSliceAdditionalSpecFns;
use vstd::utf8::is_char_boundary;

verus! {

/// The characters of a text, in order.
pub fn chars_of(text: &str) -> (chars: Vec<char>)
    ensures
        chars@ == text@,
{
    let mut chars: Vec<char> = Vec::new();
    for c in it: text.chars()
        invariant
            it.seq() == text@,
            chars@ == it.seq().take(it.index() as int),
    {
        chars.push(c);
    }
    chars
}

/// `String::push` of std puts one character at the end of the text.
pub assume_specification[ String::push ](text: &mut String, ch: char)
    ensures
        final(text)@ == old(text)@.push(ch),
;

/// A text read from its end.
pub fn reversed(text: &str) -> (mirror: String)
    ensures
        mirror@ == text@.reverse(),
{
    let chars = chars_of(text);
    let mut mirror = String::new();
    let mut left: usize = chars.len();
    while left > 0
        invariant
            left <= chars.len(),
            chars@ == text@,
            mirror@ == text@.reverse().take(chars.len() - left),
        decreases left,
    {
        left = left - 1;
        mirror.push(chars[left]);
        assert(mirror@ == text@.reverse().take(chars.len() - left)) by {
            assert(text@.reverse()[chars.len() - left - 1] == chars[left as int]);
        }
    }
    assert(text@.reverse().take(chars.len() as int) == text@.reverse());
    mirror
}

/// A text written `times` times in a row.
pub open spec fn repetition(text: Seq<char>, times: nat) -> Seq<char>
    decreases times,
{
    if times == 0 {
        Seq::empty()
    } else {
        repetition(text, (times - 1) as nat) + text
    }
}

/// Writes a text `times` times in a row.
pub fn repeated(text: &str, times: usize) -> (row: String)
    ensures
        row@ == repetition(text@, times as nat),
{
    let mut row = String::new();
    let mut done: usize = 0;
    while done < times
        invariant
            done <= times,
            row@ == repetition(text@, done as nat),
        decreases times - done,
    {
        row.append(text);
        done = done + 1;
    }
    row
}

/// The place of the first space of a text; its length where it has none.
pub open spec fn first_space(text: Seq<char>) -> int
    decreases text.len(),
{
    if text.len() == 0 || text.first() == ' ' {
        0
    } else {
        1 + first_space(text.drop_first())
    }
}

/// The first space stands within the text, or at its end; no space stands
/// before it.
pub proof fn lemma_first_space(text: Seq<char>)
    ensures
        0 <= first_space(text) <= text.len(),
        first_space(text) < text.len() ==> text[first_space(text)] == ' ',
        forall|i: int| 0 <= i < first_space(text) ==> #[trigger] text[i] != ' ',
    decreases text.len(),
{
    if text.len() > 0 && text.first() != ' ' {
        let rest = text.drop_first();
        lemma_first_space(rest);
        assert forall|i: int| 0 <= i < first_space(text) implies #[trigger] text[i] != ' ' by {
            if i > 0 {
                assert(text[i] == rest[i - 1]);
            }
        }
    }
}

/// The first word of a text: what stands before its first space, all of it
/// where it has none.
pub fn first_word(text: &str) -> (word: &str)
    ensures
        word@ == text@.take(first_space(text@)),
{
    let chars = chars_of(text);
    let mut at: usize = 0;
    assert(text@.skip(0) == text@);
    while at < chars.len() && chars[at] != ' '
        invariant
            at <= chars.len(),
            chars@ == text@,
            first_space(text@) == at + first_space(text@.skip(at as int)),
        decreases chars.len() - at,
    {
        proof {
            let rest = text@.skip(at as int);
            assert(rest.first() == chars[at as int]);
            assert(rest.drop_first() == text@.skip(at as int + 1));
        }
        at = at + 1;
    }
    proof {
        let rest = text@.skip(at as int);
        if at < chars.len() {
            assert(rest.first() == chars[at as int]);
        }
    }
    text.substring_char(0, at)
}

/// Two texts with one space between them.
pub open spec fn spaced(a: Seq<char>, b: Seq<char>) -> Seq<char> {
    a + seq![' '] + b
}

/// Joins two texts with one space.
pub fn helper(a: &str, b: &str) -> (joined: String)
    ensures
        joined@ == spaced(a@, b@),
{
    proof {
        reveal_strlit(" ");
    }
    let mut joined = a.to_owned();
    joined.append(" ");
    joined.append(b);
    joined
}

/// How many bytes are kept of a text of `len` bytes that is cut at
/// `length`.
pub open spec fn cut(len: int, length: int) -> int {
    if length <= len {
        length
    } else {
        len
    }
}

/// Cuts a text to at most `length` bytes; `None` where the cut would fall
/// inside a character.
pub fn try_shorten_string(s: &str, length: usize) -> (short: Option<&str>)
    ensures
        match short {
            Some(short) => {
                &&& is_char_boundary(s.spec_bytes(), cut(s.spec_bytes().len() as int, length as int))
                &&& short.spec_bytes() == s.spec_bytes().take(
                    cut(s.spec_bytes().len() as int, length as int),
                )
            },
            None => !is_char_boundary(
                s.spec_bytes(),
                cut(s.spec_bytes().len() as int, length as int),
            ),
        },
{
    let len = s.as_bytes().len();
    let keep = if length <= len {
        length
    } else {
        len
    };
    if s.is_char_boundary(keep) {
        let (short, _) = s.split_at(keep);
        Some(short)
    } else {
        None
    }
}

/// Cuts a text to at most `length` bytes. The cut must not fall inside a
/// character.
pub fn shorten_string(s: &str, length: usize) -> (short: &str)
    requires
        is_char_boundary(s.spec_bytes(), cut(s.spec_bytes().len() as int, length as int)),
    ensures
        short.spec_bytes() == s.spec_bytes().take(cut(s.spec_bytes().len() as int, length as int)),
{
    let len = s.as_bytes().len();
    let keep = if length <= len {
        length
    } else {
        len
    };
    let (short, _) = s.split_at(keep);
    short
}

} // verus!
