//! Cutting text into words and lines, and reading numbers.

use crate::pattern::texts;
use vstd::prelude::*;
use vstd::string::{StrSliceExecFns, StringExecFns};

verus! {

/// The characters that part words: space, tab, line feed, form feed and carriage return.
pub open spec fn is_space(c: char) -> bool {
    c == ' ' || c == '\t' || c == '\n' || c == '\x0C' || c == '\r'
}

/// The words of a text: its longest runs of characters that are no spaces, in their order.
pub open spec fn words(text: Seq<char>) -> Seq<Seq<char>>
    decreases text.len(),
{
    if text.len() == 0 {
        Seq::empty()
    } else {
        let before = words(text.drop_last());
        if is_space(text.last()) {
            before
        } else if text.len() >= 2 && !is_space(text[text.len() - 2]) {
            before.drop_last().push(before.last().push(text.last()))
        } else {
            before.push(seq![text.last()])
        }
    }
}

/// Whether a run of characters is not empty and holds no space.
pub open spec fn is_word(run: Seq<char>) -> bool {
    run.len() > 0 && forall|j: int| 0 <= j < run.len() ==> !is_space(#[trigger] run[j])
}

/// Each word is not empty and holds no space.
pub proof fn words_hold_no_space(text: Seq<char>)
    ensures
        forall|i: int| 0 <= i < words(text).len() ==> is_word(#[trigger] words(text)[i]),
    decreases text.len(),
{
    if text.len() > 0 {
        let before = words(text.drop_last());
        words_hold_no_space(text.drop_last());
        words_end_with_the_text(text.drop_last());
        assert forall|i: int| 0 <= i < words(text).len() implies is_word(
            #[trigger] words(text)[i],
        ) by {
            if !is_space(text.last()) && i == words(text).len() - 1 {
                if text.len() >= 2 && !is_space(text[text.len() - 2]) {
                    assert(is_word(before[before.len() - 1]));
                }
            } else {
                assert(is_word(before[i]));
            }
        }
    }
}

/// A text that does not end in a space has a last word, which ends as the text does.
pub proof fn words_end_with_the_text(text: Seq<char>)
    ensures
        text.len() > 0 && !is_space(text.last()) ==> words(text).len() > 0 && words(
            text,
        ).last().len() > 0 && words(text).last().last() == text.last(),
    decreases text.len(),
{
    if text.len() > 0 {
        words_end_with_the_text(text.drop_last());
    }
}

fn is_ascii_space(c: char) -> (space: bool)
    ensures
        space == is_space(c),
{
    c == ' ' || c == '\t' || c == '\n' || c == '\x0C' || c == '\r'
}

/// Cuts a text at its spaces.
pub fn split_ascii_whitespace(text: &str) -> (found: Vec<String>)
    ensures
        texts(found@) == words(text@),
{
    broadcast use vstd::string::group_string_axioms;

    let length = text.unicode_len();
    let mut found: Vec<String> = Vec::new();
    let mut start: Option<usize> = None;
    let mut i: usize = 0;
    for c in it: text.chars()
        invariant
            it.seq() == text@,
            i == it.index(),
            length == text@.len(),
            match start {
                Some(s) => s < i && !is_space(text@[i - 1]) && words(text@.take(i as int)) == texts(
                    found@,
                ).push(text@.subrange(s as int, i as int)),
                None => (i == 0 || is_space(text@[i - 1])) && words(text@.take(i as int)) == texts(
                    found@,
                ),
            },
    {
        proof {
            assert(text@.take(i + 1).drop_last() =~= text@.take(i as int));
        }
        if is_ascii_space(c) {
            if let Some(s) = start {
                found.push(String::from_str(text.substring_char(s, i)));
                start = None;
            }
        } else {
            match start {
                Some(s) => {
                    assert(text@.subrange(s as int, i + 1) =~= text@.subrange(s as int, i as int).push(
                        c,
                    ));
                },
                None => {
                    assert(text@.subrange(i as int, i + 1) =~= seq![c]);
                    start = Some(i);
                },
            }
        }
        i += 1;
    }
    assert(text@.take(i as int) =~= text@);
    if let Some(s) = start {
        found.push(String::from_str(text.substring_char(s, i)));
    }
    found
}

/// The place of the first line feed of a text, or its length where it has none.
pub open spec fn first_line_feed(text: Seq<char>) -> int
    decreases text.len(),
{
    if text.len() == 0 || text[0] == '\n' {
        0
    } else {
        1 + first_line_feed(text.drop_first())
    }
}

/// A line without the carriage return at its end, if it has one.
pub open spec fn without_carriage_return(line: Seq<char>) -> Seq<char> {
    if line.len() > 0 && line.last() == '\r' {
        line.drop_last()
    } else {
        line
    }
}

/// The lines of a text. A line ends at a line feed, or at a carriage return
/// with a line feed behind it, and holds neither; what follows the last line
/// feed is a line of its own unless it is empty.
pub open spec fn lines(text: Seq<char>) -> Seq<Seq<char>>
    decreases text.len(),
{
    if text.len() == 0 {
        Seq::empty()
    } else {
        let end = first_line_feed(text);
        if 0 <= end < text.len() {
            seq![without_carriage_return(text.take(end))] + lines(text.skip(end + 1))
        } else {
            seq![text]
        }
    }
}

/// No line holds a line feed.
pub proof fn lines_hold_no_line_feed(text: Seq<char>)
    ensures
        forall|i: int, j: int|
            0 <= i < lines(text).len() && 0 <= j < lines(text)[i].len() ==> #[trigger] lines(
                text,
            )[i][j] != '\n',
    decreases text.len(),
{
    if text.len() > 0 {
        let end = first_line_feed(text);
        first_line_feed_is_first(text);
        if end < text.len() {
            let rest = lines(text.skip(end + 1));
            lines_hold_no_line_feed(text.skip(end + 1));
            assert forall|i: int, j: int|
                0 <= i < lines(text).len() && 0 <= j < lines(text)[i].len() implies #[trigger] lines(
                text,
            )[i][j] != '\n' by {
                if i == 0 {
                    assert(lines(text)[0][j] == text[j]);
                } else {
                    assert(lines(text)[i] == rest[i - 1]);
                    assert(rest[i - 1][j] != '\n');
                }
            }
        }
    }
}

/// The first line feed of a text has no line feed before it.
pub proof fn first_line_feed_is_first(text: Seq<char>)
    ensures
        0 <= first_line_feed(text) <= text.len(),
        forall|j: int| 0 <= j < first_line_feed(text) ==> text[j] != '\n',
        first_line_feed(text) < text.len() ==> text[first_line_feed(text)] == '\n',
    decreases text.len(),
{
    if text.len() > 0 && text[0] != '\n' {
        first_line_feed_is_first(text.drop_first());
        assert forall|j: int| 0 <= j < first_line_feed(text) implies text[j] != '\n' by {
            if j > 0 {
                assert(text.drop_first()[j - 1] == text[j]);
            }
        }
    }
}

/// Where the first line feed of a text lies.
pub proof fn first_line_feed_found(text: Seq<char>, end: int)
    requires
        0 <= end <= text.len(),
        forall|j: int| 0 <= j < end ==> text[j] != '\n',
        end < text.len() ==> text[end] == '\n',
    ensures
        first_line_feed(text) == end,
    decreases end,
{
    if end > 0 {
        first_line_feed_found(text.drop_first(), end - 1);
    }
}

/// Cuts a text into its lines.
pub fn split_lines(text: &str) -> (found: Vec<String>)
    ensures
        texts(found@) == lines(text@),
{
    broadcast use vstd::string::group_string_axioms;

    let length = text.unicode_len();
    let mut found: Vec<String> = Vec::new();
    let mut start: usize = 0;
    let mut after_carriage_return = false;
    let mut i: usize = 0;
    assert(text@.skip(0) =~= text@);
    for c in it: text.chars()
        invariant
            it.seq() == text@,
            i == it.index(),
            length == text@.len(),
            start <= i,
            forall|j: int| start <= j < i ==> text@[j] != '\n',
            after_carriage_return == (start < i && text@[i - 1] == '\r'),
            lines(text@) == texts(found@) + lines(text@.skip(start as int)),
    {
        if c == '\n' {
            let end = if after_carriage_return {
                i - 1
            } else {
                i
            };
            let ghost rest = text@.skip(start as int);
            found.push(String::from_str(text.substring_char(start, end)));
            proof {
                first_line_feed_found(rest, i - start);
                assert(rest.take(i - start) =~= text@.subrange(start as int, i as int));
                assert(without_carriage_return(text@.subrange(start as int, i as int))
                    =~= text@.subrange(start as int, end as int));
                assert(rest.skip(i - start + 1) =~= text@.skip(i + 1));
            }
            start = i + 1;
            after_carriage_return = false;
        } else {
            after_carriage_return = c == '\r';
        }
        i += 1;
    }
    if start < i {
        found.push(String::from_str(text.substring_char(start, i)));
        proof {
            first_line_feed_found(text@.skip(start as int), i - start);
        }
    }
    found
}

/// The digits `0` to `9`.
pub open spec fn is_digit(c: char) -> bool {
    '0' <= c <= '9'
}

/// The number that a run of digits stands for, read in base ten.
pub open spec fn decimal(digits: Seq<char>) -> nat
    decreases digits.len(),
{
    if digits.len() == 0 {
        0
    } else {
        10 * decimal(digits.drop_last()) + (digits.last() as nat - '0' as nat) as nat
    }
}

/// The number of an insertion point such as `{12}`: what stands between its
/// first and its last character, where that is one digit or more and the
/// number fits.
pub open spec fn insertion_point(text: Seq<char>) -> Option<usize> {
    let digits = text.subrange(1, text.len() - 1);
    if text.len() >= 3 && (forall|j: int| 0 <= j < digits.len() ==> is_digit(#[trigger] digits[j]))
        && decimal(digits) <= usize::MAX {
        Some(decimal(digits) as usize)
    } else {
        None
    }
}

/// A run of digits stands for no less than any of its beginnings.
pub proof fn decimal_grows(digits: Seq<char>, shorter: int)
    requires
        0 <= shorter <= digits.len(),
        forall|j: int| 0 <= j < digits.len() ==> is_digit(#[trigger] digits[j]),
    ensures
        decimal(digits.take(shorter)) <= decimal(digits),
    decreases digits.len() - shorter,
{
    if shorter < digits.len() {
        decimal_grows(digits, shorter + 1);
        assert(digits.take(shorter + 1).drop_last() =~= digits.take(shorter));
    } else {
        assert(digits.take(shorter) =~= digits);
    }
}

/// Reads the number of an insertion point.
pub fn parse_insertion_point(text: &str) -> (point: Option<usize>)
    ensures
        point == insertion_point(text@),
{
    broadcast use vstd::string::group_string_axioms;

    let length = text.unicode_len();
    if length < 3 {
        return None;
    }
    let ghost digits = text@.subrange(1, length - 1);
    let mut value: usize = 0;
    let mut i: usize = 0;
    for c in it: text.chars()
        invariant
            it.seq() == text@,
            i == it.index(),
            length == text@.len(),
            length >= 3,
            digits == text@.subrange(1, length - 1),
            i <= 1 ==> value == 0,
            1 <= i <= length - 1 ==> value == decimal(digits.take(i - 1)),
            i == length ==> value == decimal(digits),
            forall|j: int| 0 <= j < i - 1 && j < digits.len() ==> is_digit(#[trigger] digits[j]),
    {
        if 1 <= i && i < length - 1 {
            assert(digits[i - 1] == c);
            if !('0' <= c && c <= '9') {
                return None;
            }
            proof {
                assert(digits.take(i as int).drop_last() =~= digits.take(i - 1));
            }
            let digit = (c as u32 - '0' as u32) as usize;
            let next = match value.checked_mul(10) {
                Some(tenfold) => tenfold.checked_add(digit),
                None => None,
            };
            match next {
                Some(next) => {
                    value = next;
                },
                None => {
                    proof {
                        if forall|j: int| 0 <= j < digits.len() ==> is_digit(#[trigger] digits[j]) {
                            decimal_grows(digits, i as int);
                        }
                    }
                    return None;
                },
            }
        }
        i += 1;
        proof {
            if i == length {
                assert(digits.take(i - 2) =~= digits);
            }
        }
    }
    Some(value)
}

} // verus!
