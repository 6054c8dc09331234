//! Operations on text that the configuration and the schema share: comparing
//! names, cutting a text at a separator and reading a decimal number.

use vstd::prelude::*;
use vstd::string::StrSliceExecFns;
use vstd::utf8::encode_utf8;
use vstd::string::StringExecFns;

verus! {

/// The characters of each string of a sequence.
pub open spec fn texts(values: Seq<String>) -> Seq<Seq<char>> {
    values.map_values(|s: String| s@)
}

/// The number of bytes that a text takes in memory, where it is held as
/// UTF-8.
pub open spec fn byte_len(text: Seq<char>) -> nat {
    encode_utf8(text).len()
}

/// The number of bytes of a string slice.
pub fn text_byte_len(text: &str) -> (len: usize)
    ensures
        len == byte_len(text@),
{
    text.as_bytes().len()
}

/// `==` on two string slices (`str`'s `PartialEq`): whether they hold the
/// same characters.
#[verifier::external_body]
pub(crate) fn text_eq(left: &str, right: &str) -> (same: bool)
    ensures
        same == (left@ == right@),
{
    left == right
}

/// Whether a list of strings holds `name`.
pub fn contains_text(list: &Vec<String>, name: &str) -> (held: bool)
    ensures
        held == texts(list@).contains(name@),
{
    let mut at: usize = 0;
    while at < list.len()
        invariant
            at <= list@.len(),
            forall|before: int| 0 <= before < at ==> texts(list@)[before] != name@,
        decreases list@.len() - at,
    {
        assert(texts(list@)[at as int] == list@[at as int]@);
        if text_eq(list[at].as_str(), name) {
            return true;
        }
        at = at + 1;
    }
    false
}

/// The number of characters of `text` before its first `separator`, or all
/// of them where it has none.
pub open spec fn piece_len(text: Seq<char>, separator: char) -> nat
    decreases text.len(),
{
    if text.len() == 0 || text[0] == separator {
        0
    } else {
        1 + piece_len(text.drop_first(), separator)
    }
}

/// The pieces of `text` that lie between its separators, in order. A text
/// with `n` separators has `n + 1` pieces, some of them possibly empty.
pub open spec fn split_text(text: Seq<char>, separator: char) -> Seq<Seq<char>>
    decreases text.len(),
{
    let first = piece_len(text, separator) as int;
    if first >= text.len() {
        seq![text]
    } else {
        seq![text.take(first)] + split_text(text.skip(first + 1), separator)
    }
}

/// Where the first `at` characters hold no separator and the text ends or
/// has a separator at `at`, the first piece is `at` characters long.
pub proof fn lemma_piece_len(text: Seq<char>, separator: char, at: int)
    requires
        0 <= at <= text.len(),
        forall|k: int| 0 <= k < at ==> text[k] != separator,
        at == text.len() || text[at] == separator,
    ensures
        piece_len(text, separator) == at,
    decreases at,
{
    if at > 0 {
        let rest = text.drop_first();
        assert forall|k: int| 0 <= k < at - 1 implies rest[k] != separator by {
            assert(rest[k] == text[k + 1]);
        }
        lemma_piece_len(rest, separator, at - 1);
    }
}

/// Cuts `text` at every `separator`.
pub fn split_on(text: &str, separator: char) -> (pieces: Vec<String>)
    ensures
        texts(pieces@) == split_text(text@, separator),
        pieces@.len() >= 1,
{
    let len: usize = text.unicode_len();
    let mut pieces: Vec<String> = Vec::new();
    let mut start: usize = 0;
    let mut at: usize = 0;
    assert(text@.skip(0) =~= text@);
    assert(texts(pieces@) =~= Seq::<Seq<char>>::empty());
    while at < len
        invariant
            start <= at <= len,
            len == text@.len(),
            forall|k: int| start <= k < at ==> text@[k] != separator,
            split_text(text@, separator) == texts(pieces@) + split_text(
                text@.skip(start as int),
                separator,
            ),
        decreases len - at,
    {
        if text.get_char(at) == separator {
            let piece: &str = text.substring_char(start, at);
            proof {
                let rest = text@.skip(start as int);
                assert forall|k: int| 0 <= k < at - start implies rest[k] != separator by {
                    assert(rest[k] == text@[start + k]);
                }
                lemma_piece_len(rest, separator, at - start);
                assert(rest.take(at - start) =~= text@.subrange(start as int, at as int));
                assert(rest.skip(at - start + 1) =~= text@.skip(at + 1));
            }
            let ghost before = pieces@;
            let owned: String = String::from_str(piece);
            pieces.push(owned);
            assert(texts(pieces@) =~= texts(before).push(piece@));
            start = at + 1;
        }
        at = at + 1;
    }
    let piece: &str = text.substring_char(start, len);
    proof {
        let rest = text@.skip(start as int);
        assert forall|k: int| 0 <= k < len - start implies rest[k] != separator by {
            assert(rest[k] == text@[start + k]);
        }
        lemma_piece_len(rest, separator, len - start);
        assert(rest =~= text@.subrange(start as int, len as int));
    }
    let ghost before = pieces@;
    let last: String = String::from_str(piece);
    pieces.push(last);
    assert(texts(pieces@) =~= texts(before).push(piece@));
    pieces
}

/// Whether a character is one of the ten decimal digits.
pub open spec fn is_digit(c: char) -> bool {
    '0' <= c <= '9'
}

/// The number that a decimal digit stands for.
pub open spec fn digit_value(c: char) -> nat {
    (c as int - '0' as int) as nat
}

/// The number that a sequence of decimal digits writes, the last digit being
/// the units.
pub open spec fn decimal_value(digits: Seq<char>) -> nat
    decreases digits.len(),
{
    if digits.len() == 0 {
        0
    } else {
        decimal_value(digits.drop_last()) * 10 + digit_value(digits.last())
    }
}

/// The digits of an unsigned decimal number: the text itself, without the
/// plus sign that may stand in front.
pub open spec fn unsigned_digits(text: Seq<char>) -> Seq<char> {
    if text.len() > 0 && text[0] == '+' {
        text.skip(1)
    } else {
        text
    }
}

/// Whether every character of a text is a decimal digit.
pub open spec fn all_digits(text: Seq<char>) -> bool {
    forall|i: int| 0 <= i < text.len() ==> is_digit(#[trigger] text[i])
}

/// The `u64` that a text writes in decimal: an optional `+`, then one digit or
/// more, no other character, and a value within `u64`. `None` for every other
/// text.
pub open spec fn parsed_u64(text: Seq<char>) -> Option<u64> {
    let digits = unsigned_digits(text);
    if digits.len() > 0 && all_digits(digits) && decimal_value(digits) <= u64::MAX {
        Some(decimal_value(digits) as u64)
    } else {
        None
    }
}

/// The value of a run of digits does not shrink when more digits follow.
proof fn lemma_decimal_value_grows(digits: Seq<char>, shorter: int)
    requires
        0 <= shorter <= digits.len(),
    ensures
        decimal_value(digits.take(shorter)) <= decimal_value(digits),
    decreases digits.len() - shorter,
{
    if shorter < digits.len() {
        let longer = digits.take(digits.len() - 1);
        assert(longer =~= digits.drop_last());
        if shorter < digits.len() - 1 {
            assert(longer.take(shorter) =~= digits.take(shorter));
            lemma_decimal_value_grows(longer, shorter);
        } else {
            assert(digits.take(shorter) =~= longer);
        }
    } else {
        assert(digits.take(shorter) =~= digits);
    }
}

/// Reads an unsigned decimal number.
pub fn parse_u64(text: &str) -> (number: Option<u64>)
    ensures
        number == parsed_u64(text@),
{
    let len: usize = text.unicode_len();
    let first: usize = if len > 0 && text.get_char(0) == '+' {
        1
    } else {
        0
    };
    if first >= len {
        return None;
    }
    let ghost digits = unsigned_digits(text@);
    assert(digits =~= text@.skip(first as int));
    let mut value: u64 = 0;
    let mut at: usize = first;
    assert(digits.take(0) =~= Seq::<char>::empty());
    while at < len
        invariant
            first <= at <= len,
            len == text@.len(),
            digits == text@.skip(first as int),
            digits == unsigned_digits(text@),
            all_digits(digits.take(at - first)),
            value == decimal_value(digits.take(at - first)),
        decreases len - at,
    {
        let c: char = text.get_char(at);
        let ghost seen = digits.take(at - first);
        let ghost next = digits.take(at - first + 1);
        proof {
            assert(next.drop_last() =~= seen);
            assert(next.last() == c);
            lemma_decimal_value_grows(digits, at - first + 1);
        }
        if c < '0' || c > '9' {
            assert(!is_digit(digits[at - first]));
            return None;
        }
        let digit: u64 = (c as u32 - '0' as u32) as u64;
        assert(digit == digit_value(c));
        if value > (u64::MAX - digit) / 10 {
            assert(decimal_value(next) > u64::MAX);
            return None;
        }
        value = value * 10 + digit;
        at = at + 1;
        assert forall|i: int| 0 <= i < next.len() implies is_digit(#[trigger] next[i]) by {
            if i < seen.len() {
                assert(next[i] == seen[i]);
            }
        }
    }
    assert(digits.take(at - first) =~= digits);
    Some(value)
}

/// The character of a decimal digit.
pub open spec fn digit_char(digit: nat) -> char {
    ('0' as int + digit) as char
}

/// The decimal digits of a number, without leading zeros; the digit 0 for 0.
pub open spec fn decimal_digits(number: nat) -> Seq<char>
    decreases number,
{
    if number < 10 {
        seq![digit_char(number)]
    } else {
        decimal_digits(number / 10).push(digit_char(number % 10))
    }
}

/// One decimal digit as text.
fn digit_text(digit: u64) -> (text: &'static str)
    requires
        digit < 10,
    ensures
        text@ == seq![digit_char(digit as nat)],
{
    proof {
        reveal_strlit("0");
        reveal_strlit("1");
        reveal_strlit("2");
        reveal_strlit("3");
        reveal_strlit("4");
        reveal_strlit("5");
        reveal_strlit("6");
        reveal_strlit("7");
        reveal_strlit("8");
        reveal_strlit("9");
    }
    let text: &'static str = if digit == 0 {
        "0"
    } else if digit == 1 {
        "1"
    } else if digit == 2 {
        "2"
    } else if digit == 3 {
        "3"
    } else if digit == 4 {
        "4"
    } else if digit == 5 {
        "5"
    } else if digit == 6 {
        "6"
    } else if digit == 7 {
        "7"
    } else if digit == 8 {
        "8"
    } else {
        "9"
    };
    assert(text@ =~= seq![digit_char(digit as nat)]);
    text
}

/// Writes a number in decimal.
pub fn decimal_text(number: u64) -> (text: String)
    ensures
        text@ == decimal_digits(number as nat),
    decreases number,
{
    if number < 10 {
        String::from_str(digit_text(number))
    } else {
        let front: String = decimal_text(number / 10);
        let last: &str = digit_text(number % 10);
        assert(front@ + last@ =~= front@.push(digit_char((number % 10) as nat)));
        front.concat(last)
    }
}

} // verus!
