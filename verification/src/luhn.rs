//! The Luhn check of a card number.

use crate::text::chars_of;
use vstd::prelude::*;

verus! {

/// One of the ten digits of ASCII.
pub open spec fn is_digit(c: char) -> bool {
    '0' <= c <= '9'
}

/// The number that a digit character writes.
pub open spec fn digit_value(c: char) -> nat {
    (c as nat - '0' as nat) as nat
}

/// The characters of a text that are not spaces, in order.
pub open spec fn without_spaces(text: Seq<char>) -> Seq<char>
    decreases text.len(),
{
    if text.len() == 0 {
        Seq::empty()
    } else if text.first() == ' ' {
        without_spaces(text.drop_first())
    } else {
        seq![text.first()] + without_spaces(text.drop_first())
    }
}

/// What one digit adds to the checksum. A doubled digit adds the sum of the
/// digits of its double.
pub open spec fn term(value: nat, doubled: bool) -> nat {
    if doubled {
        (2 * value) / 10 + (2 * value) % 10
    } else {
        value
    }
}

/// The Luhn checksum of a sequence of digits: counting from the right,
/// every second digit is doubled.
pub open spec fn checksum(digits: Seq<char>) -> nat
    decreases digits.len(),
{
    if digits.len() == 0 {
        0
    } else {
        term(digit_value(digits.first()), digits.len() % 2 == 0) + checksum(digits.drop_first())
    }
}

/// Nothing but digits and spaces.
pub open spec fn well_formed(text: Seq<char>) -> bool {
    forall|i: int| 0 <= i < text.len() ==> text[i] == ' ' || is_digit(#[trigger] text[i])
}

/// A card number is valid when it holds nothing but digits and spaces, at
/// least two digits, and the checksum of its digits ends in zero.
pub open spec fn luhn_valid(text: Seq<char>) -> bool {
    &&& well_formed(text)
    &&& without_spaces(text).len() >= 2
    &&& checksum(without_spaces(text)) % 10 == 0
}

/// One character that is neither digit nor space spoils the text.
proof fn lemma_bad_character(text: Seq<char>, at: int)
    requires
        0 <= at < text.len(),
        !(text[at] == ' ' || is_digit(text[at])),
    ensures
        !luhn_valid(text),
{
}

/// What the text from `at` on holds, given what the text after `at` holds.
proof fn lemma_one_more(text: Seq<char>, at: int)
    requires
        0 <= at < text.len(),
        well_formed(text.skip(at + 1)),
    ensures
        well_formed(text.skip(at)) == (text[at] == ' ' || is_digit(text[at])),
        text[at] == ' ' ==> without_spaces(text.skip(at)) == without_spaces(text.skip(at + 1)),
        text[at] != ' ' ==> {
            &&& without_spaces(text.skip(at)).len() == without_spaces(text.skip(at + 1)).len()
                + 1
            &&& checksum(without_spaces(text.skip(at))) == term(
                digit_value(text[at]),
                without_spaces(text.skip(at + 1)).len() % 2 == 1,
            ) + checksum(without_spaces(text.skip(at + 1)))
        },
{
    let more = text.skip(at);
    let rest = text.skip(at + 1);
    assert(more.first() == text[at]);
    assert(more.drop_first() == rest);
    if text[at] == ' ' || is_digit(text[at]) {
        assert forall|i: int| 0 <= i < more.len() implies more[i] == ' ' || is_digit(
            #[trigger] more[i],
        ) by {
            if i > 0 {
                assert(more[i] == rest[i - 1]);
            }
        }
    } else {
        assert(more[0] == text[at]);
    }
    if text[at] != ' ' {
        let digits = seq![text[at]] + without_spaces(rest);
        assert(without_spaces(more) == digits);
        assert(digits.drop_first() == without_spaces(rest));
        assert(digits.first() == text[at]);
    }
}

/// What a digit adds to the checksum.
fn digit_term(c: char, doubled: bool) -> (add: u32)
    requires
        is_digit(c),
    ensures
        add == term(digit_value(c), doubled),
        add <= 9,
{
    let value: u32 = (c as u32) - ('0' as u32);
    if doubled {
        let twice: u32 = value * 2;
        twice / 10 + twice % 10
    } else {
        value
    }
}

/// Adds to a checksum that is kept modulo ten.
fn add_mod_ten(sum: u32, add: u32, Ghost(total): Ghost<nat>) -> (next: u32)
    requires
        sum == total % 10,
        add <= 9,
    ensures
        next == (add + total) % 10,
{
    (sum + add) % 10
}

/// Whether `cc_number` passes the Luhn check.
pub fn luhn(cc_number: &str) -> (valid: bool)
    ensures
        valid == luhn_valid(cc_number@),
{
    let chars = chars_of(cc_number);
    let ghost text = chars@;
    // The checksum, modulo ten, of the digits seen so far, from the right.
    let mut sum: u32 = 0;
    // Whether the next digit stands at a place that is doubled.
    let mut doubled: bool = false;
    // How many digits were seen, up to two.
    let mut seen: u8 = 0;
    let mut at: usize = chars.len();
    assert(text.skip(at as int) == Seq::<char>::empty());
    while at > 0
        invariant
            at <= chars.len(),
            text == chars@,
            text == cc_number@,
            well_formed(text.skip(at as int)),
            sum == checksum(without_spaces(text.skip(at as int))) % 10,
            doubled == (without_spaces(text.skip(at as int)).len() % 2 == 1),
            seen == if without_spaces(text.skip(at as int)).len() < 2 {
                without_spaces(text.skip(at as int)).len()
            } else {
                2
            },
        decreases at,
    {
        at = at - 1;
        let c = chars[at];
        proof {
            lemma_one_more(text, at as int);
        }
        if c != ' ' {
            if !(c >= '0' && c <= '9') {
                proof {
                    lemma_bad_character(text, at as int);
                }
                return false;
            }
            let add = digit_term(c, doubled);
            sum = add_mod_ten(
                sum,
                add,
                Ghost(checksum(without_spaces(text.skip(at as int + 1)))),
            );
            doubled = !doubled;
            if seen < 2 {
                seen = seen + 1;
            }
        }
    }
    assert(text.skip(0) == text);
    seen >= 2 && sum == 0
}

} // verus!
