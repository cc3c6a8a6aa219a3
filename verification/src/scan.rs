//! Trimming, splitting and searching in slices of characters.
use vstd::prelude::*;
use crate::text::{decimal, digit_char, is_space, is_whitespace};

verus! {

/// What is left after white space at the start.
pub open spec fn trimmed_start(text: Seq<char>) -> Seq<char>
    decreases text.len(),
{
    if text.len() > 0 && is_space(text[0]) {
        trimmed_start(text.skip(1))
    } else {
        text
    }
}

/// What is left before white space at the end.
pub open spec fn trimmed_end(text: Seq<char>) -> Seq<char>
    decreases text.len(),
{
    if text.len() > 0 && is_space(text.last()) {
        trimmed_end(text.drop_last())
    } else {
        text
    }
}

pub open spec fn trimmed(text: Seq<char>) -> Seq<char> {
    trimmed_end(trimmed_start(text))
}

pub open spec fn begins_with(text: Seq<char>, prefix: Seq<char>) -> bool {
    prefix.len() <= text.len() && text.take(prefix.len() as int) == prefix
}

/// The pieces of a text between the separators.
pub open spec fn split_on(text: Seq<char>, separator: char) -> Seq<Seq<char>>
    decreases text.len(),
{
    if text.len() == 0 {
        seq![Seq::empty()]
    } else {
        let earlier = split_on(text.drop_last(), separator);
        if text.last() == separator {
            earlier.push(Seq::empty())
        } else {
            earlier.drop_last().push(earlier.last().push(text.last()))
        }
    }
}

/// The text before the first separator, all of it where there is none.
pub open spec fn before_first(text: Seq<char>, separator: char) -> Seq<char>
    decreases text.len(),
{
    if text.len() == 0 || text[0] == separator {
        Seq::empty()
    } else {
        seq![text[0]] + before_first(text.skip(1), separator)
    }
}

pub open spec fn is_digit(c: char) -> bool {
    48 <= c as u32 && c as u32 <= 57
}

/// The number that a text of digits stands for.
pub open spec fn digits_value(text: Seq<char>) -> nat
    decreases text.len(),
{
    if text.len() == 0 {
        0
    } else {
        digits_value(text.drop_last()) * 10 + (text.last() as u32 - 48) as nat
    }
}

pub open spec fn all_digits(text: Seq<char>) -> bool {
    forall|i: int| 0 <= i < text.len() ==> is_digit(#[trigger] text[i])
}

/// A decimal number of 64 bits: digits, with or without a plus sign in front.
pub open spec fn parsed_number(text: Seq<char>) -> Option<u64> {
    let digits = if text.len() > 0 && text[0] == '+' {
        text.skip(1)
    } else {
        text
    };
    if digits.len() > 0 && all_digits(digits) && digits_value(digits) <= u64::MAX {
        Some(digits_value(digits) as u64)
    } else {
        None
    }
}

/// A text with every occurrence of a pattern, from left to right, replaced. An empty pattern
/// occurs before every character and at the end.
pub open spec fn replaced(text: Seq<char>, pattern: Seq<char>, by: Seq<char>) -> Seq<char>
    decreases text.len(),
{
    if pattern.len() == 0 {
        if text.len() == 0 {
            by
        } else {
            by + seq![text[0]] + replaced(text.skip(1), pattern, by)
        }
    } else if text.len() == 0 {
        text
    } else if begins_with(text, pattern) {
        by + replaced(text.skip(pattern.len() as int), pattern, by)
    } else {
        seq![text[0]] + replaced(text.skip(1), pattern, by)
    }
}

pub fn trim_start<'a>(text: &'a [char]) -> (rest: &'a [char])
    ensures
        rest@ == trimmed_start(text@),
{
    let mut i: usize = 0;
    assert(text@.skip(0) =~= text@);
    while i < text.len() && is_whitespace(text[i])
        invariant
            i <= text@.len(),
            trimmed_start(text@) == trimmed_start(text@.skip(i as int)),
        decreases text@.len() - i,
    {
        assert(text@.skip(i as int).skip(1) =~= text@.skip(i as int + 1));
        i = i + 1;
    }
    let rest = vstd::slice::slice_subrange(text, i, text.len());
    assert(rest@ =~= text@.skip(i as int));
    rest
}

pub fn trim_end<'a>(text: &'a [char]) -> (rest: &'a [char])
    ensures
        rest@ == trimmed_end(text@),
{
    let mut end: usize = text.len();
    assert(text@.take(end as int) =~= text@);
    while end > 0 && is_whitespace(text[end - 1])
        invariant
            end <= text@.len(),
            trimmed_end(text@) == trimmed_end(text@.take(end as int)),
        decreases end,
    {
        assert(text@.take(end as int).drop_last() =~= text@.take(end as int - 1));
        end = end - 1;
    }
    let rest = vstd::slice::slice_subrange(text, 0, end);
    assert(rest@ =~= text@.take(end as int));
    rest
}

pub fn trim<'a>(text: &'a [char]) -> (rest: &'a [char])
    ensures
        rest@ == trimmed(text@),
{
    trim_end(trim_start(text))
}

pub fn starts_with(text: &[char], prefix: &[char]) -> (starts: bool)
    ensures
        starts == begins_with(text@, prefix@),
{
    if prefix.len() > text.len() {
        return false;
    }
    let mut i: usize = 0;
    while i < prefix.len()
        invariant
            i <= prefix@.len() <= text@.len(),
            forall|k: int| 0 <= k < i ==> text@[k] == prefix@[k],
        decreases prefix@.len() - i,
    {
        if text[i] != prefix[i] {
            assert(text@.take(prefix@.len() as int)[i as int] == text@[i as int]);
            return false;
        }
        i = i + 1;
    }
    assert(text@.take(prefix@.len() as int) =~= prefix@);
    true
}

/// The text ends with the suffix.
pub open spec fn finishes_with(text: Seq<char>, suffix: Seq<char>) -> bool {
    suffix.len() <= text.len() && text.skip(text.len() - suffix.len()) == suffix
}

pub fn ends_with(text: &[char], suffix: &[char]) -> (ends: bool)
    ensures
        ends == finishes_with(text@, suffix@),
{
    if suffix.len() > text.len() {
        return false;
    }
    let start: usize = text.len() - suffix.len();
    let tail = skip_chars(text, start);
    let ends = starts_with(tail, suffix);
    assert(tail@.take(suffix@.len() as int) =~= tail@);
    ends
}

pub fn skip_chars<'a>(text: &'a [char], count: usize) -> (rest: &'a [char])
    requires
        count <= text@.len(),
    ensures
        rest@ == text@.skip(count as int),
{
    let rest = vstd::slice::slice_subrange(text, count, text.len());
    assert(rest@ =~= text@.skip(count as int));
    rest
}

pub proof fn lemma_split_nonempty(text: Seq<char>, separator: char)
    ensures
        split_on(text, separator).len() > 0,
    decreases text.len(),
{
    if text.len() > 0 {
        lemma_split_nonempty(text.drop_last(), separator);
    }
}

pub open spec fn piece_views(pieces: Seq<Vec<char>>) -> Seq<Seq<char>> {
    pieces.map_values(|piece: Vec<char>| piece@)
}

pub fn split(text: &[char], separator: char) -> (pieces: Vec<Vec<char>>)
    ensures
        piece_views(pieces@) == split_on(text@, separator),
{
    let mut pieces: Vec<Vec<char>> = Vec::new();
    let mut piece: Vec<char> = Vec::new();
    let mut i: usize = 0;
    assert(text@.take(0) =~= Seq::<char>::empty());
    assert(piece_views(pieces@).push(piece@) =~= seq![Seq::<char>::empty()]);
    while i < text.len()
        invariant
            i <= text@.len(),
            piece_views(pieces@).push(piece@) == split_on(text@.take(i as int), separator),
        decreases text@.len() - i,
    {
        let ghost earlier = piece_views(pieces@).push(piece@);
        assert(text@.take(i as int + 1).drop_last() =~= text@.take(i as int));
        if text[i] == separator {
            let ghost before = pieces@;
            let ghost last = piece@;
            pieces.push(piece);
            piece = Vec::new();
            assert(piece_views(pieces@) =~= piece_views(before).push(last));
        } else {
            assert(earlier.drop_last() =~= piece_views(pieces@));
            assert(earlier.last() == piece@);
            piece.push(text[i]);
        }
        i = i + 1;
    }
    assert(text@.take(i as int) =~= text@);
    let ghost before = pieces@;
    let ghost last = piece@;
    pieces.push(piece);
    assert(piece_views(pieces@) =~= piece_views(before).push(last));
    pieces
}

pub fn cut_before<'a>(text: &'a [char], separator: char) -> (head: &'a [char])
    ensures
        head@ == before_first(text@, separator),
{
    let mut i: usize = 0;
    assert(text@.skip(0) =~= text@);
    assert(text@.take(0) + before_first(text@, separator) =~= before_first(text@, separator));
    while i < text.len() && text[i] != separator
        invariant
            i <= text@.len(),
            before_first(text@, separator) == text@.take(i as int) + before_first(
                text@.skip(i as int),
                separator,
            ),
        decreases text@.len() - i,
    {
        assert(text@.skip(i as int).skip(1) =~= text@.skip(i as int + 1));
        assert(text@.take(i as int) + (seq![text@[i as int]] + before_first(
            text@.skip(i as int + 1),
            separator,
        )) =~= text@.take(i as int + 1) + before_first(text@.skip(i as int + 1), separator));
        i = i + 1;
    }
    let head = vstd::slice::slice_subrange(text, 0, i);
    assert(head@ =~= text@.take(i as int) + before_first(text@.skip(i as int), separator));
    head
}

proof fn lemma_digits_value_monotone(text: Seq<char>, count: int)
    requires
        0 <= count <= text.len(),
    ensures
        digits_value(text.take(count)) <= digits_value(text),
    decreases text.len(),
{
    if count < text.len() {
        assert(text.drop_last().take(count) =~= text.take(count));
        lemma_digits_value_monotone(text.drop_last(), count);
    } else {
        assert(text.take(count) =~= text);
    }
}

pub fn parse_number(text: &[char]) -> (number: Option<u64>)
    ensures
        number == parsed_number(text@),
{
    let digits = if text.len() > 0 && text[0] == '+' {
        skip_chars(text, 1)
    } else {
        text
    };
    if digits.len() == 0 {
        return None;
    }
    let mut value: u64 = 0;
    let mut i: usize = 0;
    while i < digits.len()
        invariant
            i <= digits@.len(),
            digits@.len() > 0,
            digits@ == (if text@.len() > 0 && text@[0] == '+' {
                text@.skip(1)
            } else {
                text@
            }),
            all_digits(digits@.take(i as int)),
            value == digits_value(digits@.take(i as int)),
        decreases digits@.len() - i,
    {
        let c: char = digits[i];
        let code: u32 = c as u32;
        let ghost next = digits@.take(i as int + 1);
        assert(next.drop_last() =~= digits@.take(i as int));
        if code < 48 || code > 57 {
            assert(!is_digit(digits@[i as int]));
            return None;
        }
        let digit: u64 = (code - 48) as u64;
        if value > (u64::MAX - digit) / 10 {
            proof {
                assert(digits_value(next) > u64::MAX);
                lemma_digits_value_monotone(digits@, i as int + 1);
            }
            return None;
        }
        value = value * 10 + digit;
        assert(all_digits(next)) by {
            assert forall|k: int| 0 <= k < next.len() implies is_digit(#[trigger] next[k]) by {
                if k < i {
                    assert(is_digit(digits@.take(i as int)[k]));
                }
            }
        }
        i = i + 1;
    }
    assert(digits@.take(i as int) =~= digits@);
    Some(value)
}

fn append_chars(out: &mut Vec<char>, chars: &[char])
    ensures
        final(out)@ == old(out)@ + chars@,
{
    let mut i: usize = 0;
    while i < chars.len()
        invariant
            i <= chars@.len(),
            out@ == old(out)@ + chars@.take(i as int),
        decreases chars@.len() - i,
    {
        out.push(chars[i]);
        assert(out@ =~= old(out)@ + chars@.take(i as int + 1));
        i = i + 1;
    }
    assert(out@ =~= old(out)@ + chars@);
}

pub fn replace(text: &[char], pattern: &[char], by: &[char]) -> (result: Vec<char>)
    ensures
        result@ == replaced(text@, pattern@, by@),
{
    let mut result: Vec<char> = Vec::new();
    let mut i: usize = 0;
    assert(text@.skip(0) =~= text@);
    assert(result@ + replaced(text@, pattern@, by@) =~= replaced(text@, pattern@, by@));
    while i < text.len()
        invariant
            i <= text@.len(),
            replaced(text@, pattern@, by@) == result@ + replaced(
                text@.skip(i as int),
                pattern@,
                by@,
            ),
        decreases text@.len() - i,
    {
        let rest = skip_chars(text, i);
        let ghost before = result@;
        if pattern.len() == 0 {
            append_chars(&mut result, by);
            result.push(text[i]);
            assert(rest@.skip(1) =~= text@.skip(i as int + 1));
            assert(result@ + replaced(text@.skip(i as int + 1), pattern@, by@) =~= before + (by@
                + seq![text@[i as int]] + replaced(rest@.skip(1), pattern@, by@)));
            i = i + 1;
        } else if starts_with(rest, pattern) {
            append_chars(&mut result, by);
            assert(rest@.skip(pattern@.len() as int) =~= text@.skip(
                i as int + pattern@.len() as int,
            ));
            assert(result@ + replaced(text@.skip(i as int + pattern@.len() as int), pattern@, by@)
                =~= before + (by@ + replaced(rest@.skip(pattern@.len() as int), pattern@, by@)));
            i = i + pattern.len();
        } else {
            result.push(text[i]);
            assert(rest@.skip(1) =~= text@.skip(i as int + 1));
            assert(result@ + replaced(text@.skip(i as int + 1), pattern@, by@) =~= before + (seq![
                text@[i as int],
            ] + replaced(rest@.skip(1), pattern@, by@)));
            i = i + 1;
        }
    }
    assert(text@.skip(i as int) =~= Seq::<char>::empty());
    if pattern.len() == 0 {
        append_chars(&mut result, by);
    } else {
        assert(result@ + replaced(text@.skip(i as int), pattern@, by@) =~= result@);
    }
    result
}

/// A stretch of a text from one separator to the next, or from the start, or to the end.
pub open spec fn between(text: Seq<char>, separator: char, start: int, end: int) -> bool {
    &&& 0 <= start <= end <= text.len()
    &&& start == 0 || text[start - 1] == separator
    &&& end == text.len() || text[end] == separator
    &&& forall|k: int| start <= k < end ==> #[trigger] text[k] != separator
}

/// Where the last piece of a text begins.
pub open spec fn last_start(text: Seq<char>, separator: char) -> int
    decreases text.len(),
{
    if text.len() == 0 {
        0
    } else if text.last() == separator {
        text.len() as int
    } else {
        last_start(text.drop_last(), separator)
    }
}

/// A text up to its last separator, and what follows it.
proof fn lemma_cut_at_last(text: Seq<char>, separator: char)
    ensures
        between(text, separator, last_start(text, separator), text.len() as int),
        ({
            let from = last_start(text, separator);
            if from == 0 {
                split_on(text, separator) == seq![text]
            } else {
                split_on(text, separator) == split_on(text.take(from - 1), separator).push(
                    text.skip(from),
                )
            }
        }),
    decreases text.len(),
{
    let from = last_start(text, separator);
    if text.len() > 0 {
        let rest = text.drop_last();
        lemma_cut_at_last(rest, separator);
        if text.last() == separator {
            assert(text.take(from - 1) =~= rest);
            assert(text.skip(from) =~= Seq::empty());
        } else {
            assert(between(text, separator, from, text.len() as int)) by {
                assert forall|k: int| from <= k < text.len() implies #[trigger] text[k]
                    != separator by {
                    if k < rest.len() {
                        assert(rest[k] != separator);
                    }
                }
                if from > 0 {
                    assert(rest[from - 1] == text[from - 1]);
                }
            }
            let pieces = split_on(text, separator);
            let earlier = split_on(rest, separator);
            if from == 0 {
                assert(earlier.last() == rest);
                assert(rest.push(text.last()) =~= text);
                assert(pieces =~= seq![text]);
            } else {
                let head = text.take(from - 1);
                assert(rest.take(from - 1) =~= head);
                assert(earlier.drop_last() =~= split_on(head, separator));
                assert(rest.skip(from).push(text.last()) =~= text.skip(from));
                assert(pieces =~= split_on(head, separator).push(text.skip(from)));
            }
        }
    } else {
        assert(text =~= Seq::empty());
    }
}

/// The pieces of a text are what stands between its separators: each piece stands somewhere between
/// two of them, and whatever stands between two of them is a piece.
pub proof fn law_pieces_stand_between_separators(text: Seq<char>, separator: char)
    ensures
        forall|piece: Seq<char>| #[trigger]
            split_on(text, separator).contains(piece) ==> exists|start: int, end: int| #[trigger]
                between(text, separator, start, end) && text.subrange(start, end) == piece,
        forall|start: int, end: int| #[trigger]
            between(text, separator, start, end) ==> split_on(text, separator).contains(
                text.subrange(start, end),
            ),
    decreases text.len(),
{
    let pieces = split_on(text, separator);
    let length = text.len() as int;
    let from = last_start(text, separator);
    lemma_cut_at_last(text, separator);
    assert(text.subrange(from, length) =~= text.skip(from));
    assert(pieces.last() == text.subrange(from, length)) by {
        assert(text.skip(0) =~= text);
    }
    assert(pieces.contains(pieces.last())) by {
        assert(pieces[pieces.len() - 1] == pieces.last());
    }
    if from == 0 {
        assert forall|start: int, end: int| #[trigger]
            between(text, separator, start, end) implies pieces.contains(
            text.subrange(start, end),
        ) by {
            if end < length {
                assert(text[end] != separator);
            }
            if start > 0 {
                assert(text[start - 1] != separator);
            }
        }
    } else {
        let head = text.take(from - 1);
        let earlier = split_on(head, separator);
        law_pieces_stand_between_separators(head, separator);
        assert forall|piece: Seq<char>| #[trigger] pieces.contains(piece) implies exists|
            start: int,
            end: int,
        | #[trigger]
            between(text, separator, start, end) && text.subrange(start, end) == piece by {
            let i = choose|i: int| 0 <= i < pieces.len() && pieces[i] == piece;
            if i < earlier.len() {
                assert(earlier[i] == piece);
                assert(earlier.contains(piece));
                let (start, end) = choose|start: int, end: int| #[trigger]
                    between(head, separator, start, end) && head.subrange(start, end) == piece;
                assert(head.subrange(start, end) =~= text.subrange(start, end));
                assert(between(text, separator, start, end)) by {
                    assert forall|k: int| start <= k < end implies #[trigger] text[k]
                        != separator by {
                        assert(head[k] != separator);
                    }
                }
            }
        }
        assert forall|start: int, end: int| #[trigger]
            between(text, separator, start, end) implies pieces.contains(
            text.subrange(start, end),
        ) by {
            if end >= from {
                assert(start == from) by {
                    if start < from {
                        assert(text[from - 1] != separator);
                    }
                    if from < start {
                        assert(text[start - 1] != separator);
                    }
                }
                if end < length {
                    assert(text[end] != separator);
                }
            } else {
                assert(head.subrange(start, end) =~= text.subrange(start, end));
                assert(between(head, separator, start, end)) by {
                    assert forall|k: int| start <= k < end implies #[trigger] head[k]
                        != separator by {
                        assert(text[k] != separator);
                    }
                }
                let piece = text.subrange(start, end);
                assert(earlier.contains(piece));
                let i = choose|i: int| 0 <= i < earlier.len() && earlier[i] == piece;
                assert(pieces[i] == piece);
            }
        }
    }
}

/// Pieces with the separators between them again.
pub open spec fn joined(pieces: Seq<Seq<char>>, separator: char) -> Seq<char>
    decreases pieces.len(),
{
    if pieces.len() == 0 {
        Seq::empty()
    } else if pieces.len() == 1 {
        pieces[0]
    } else {
        joined(pieces.drop_last(), separator).push(separator) + pieces.last()
    }
}

/// Splitting loses nothing: the pieces, joined by the separator, are the text again, and no piece
/// holds the separator.
pub proof fn law_splitting_loses_nothing(text: Seq<char>, separator: char)
    ensures
        joined(split_on(text, separator), separator) == text,
        forall|i: int|
            0 <= i < split_on(text, separator).len() ==> !(#[trigger] split_on(
                text,
                separator,
            )[i]).contains(separator),
    decreases text.len(),
{
    let pieces = split_on(text, separator);
    let from = last_start(text, separator);
    lemma_cut_at_last(text, separator);
    if from == 0 {
        assert forall|i: int| 0 <= i < pieces.len() implies !(#[trigger] pieces[i]).contains(
            separator,
        ) by {
            assert(pieces[i] == text);
        }
    } else {
        let head = text.take(from - 1);
        let tail = text.skip(from);
        law_splitting_loses_nothing(head, separator);
        lemma_split_nonempty(head, separator);
        assert(pieces.drop_last() =~= split_on(head, separator));
        assert(head.push(separator) + tail =~= text);
        assert forall|i: int| 0 <= i < pieces.len() implies !(#[trigger] pieces[i]).contains(
            separator,
        ) by {
            if i < pieces.len() - 1 {
                assert(pieces[i] == split_on(head, separator)[i]);
            } else {
                assert forall|k: int| 0 <= k < tail.len() implies tail[k] != separator by {
                    assert(text[from + k] != separator);
                }
            }
        }
    }
}

proof fn lemma_digit_char(digit: nat)
    requires
        digit < 10,
    ensures
        is_digit(digit_char(digit)),
        digit_char(digit) as u32 == 48 + digit,
{
}

/// A number in writing is digits only, and reading it gives the number back.
pub proof fn law_numbers_are_read_back(value: nat)
    ensures
        decimal(value).len() > 0,
        all_digits(decimal(value)),
        digits_value(decimal(value)) == value,
        value <= u64::MAX ==> parsed_number(decimal(value)) == Some(value as u64),
        value > u64::MAX ==> parsed_number(decimal(value)) is None,
    decreases value,
{
    let text = decimal(value);
    lemma_digit_char(value % 10);
    if value < 10 {
        assert(text.drop_last() =~= Seq::empty());
        assert(digits_value(text.drop_last()) == 0);
        assert(text.last() == digit_char(value));
    } else {
        law_numbers_are_read_back(value / 10);
        assert(text.drop_last() =~= decimal(value / 10));
        assert forall|i: int| 0 <= i < text.len() implies is_digit(#[trigger] text[i]) by {
            if i < text.len() - 1 {
                assert(text[i] == decimal(value / 10)[i]);
            }
        }
    }
    assert(is_digit(text[0]));
}

/// Only digits, with or without a plus sign in front, make a number; other characters, and no
/// characters at all, do not.
pub proof fn law_only_digits_make_a_number(text: Seq<char>)
    ensures
        text.len() == 0 ==> parsed_number(text) is None,
        text.len() == 1 && text[0] == '+' ==> parsed_number(text) is None,
        parsed_number(text) is Some ==> forall|i: int|
            0 <= i < text.len() ==> (#[trigger] text[i] == '+' && i == 0) || (48 <= text[i] as u32
                && text[i] as u32 <= 57),
        parsed_number(text) is Some && text[0] != '+' ==> parsed_number(seq!['+'] + text)
            == parsed_number(text),
{
    if text.len() == 1 && text[0] == '+' {
        assert(text.skip(1).len() == 0);
    }
    if parsed_number(text) is Some {
        assert forall|i: int| 0 <= i < text.len() implies (#[trigger] text[i] == '+' && i == 0) || (
        48 <= text[i] as u32 && text[i] as u32 <= 57) by {
            if text[0] == '+' && i > 0 {
                assert(is_digit(text.skip(1)[i - 1]));
            }
        }
        assert((seq!['+'] + text).skip(1) =~= text);
    }
}

/// A text without the separator is one piece.
pub proof fn lemma_one_piece(text: Seq<char>, separator: char)
    requires
        !text.contains(separator),
    ensures
        split_on(text, separator) == seq![text],
{
    lemma_cut_at_last(text, separator);
    let from = last_start(text, separator);
    if from > 0 {
        assert(text[from - 1] == separator);
    }
}

/// A separator and a text without it add one piece.
pub proof fn lemma_one_more_piece(head: Seq<char>, separator: char, tail: Seq<char>)
    requires
        !tail.contains(separator),
    ensures
        split_on(head.push(separator) + tail, separator) == split_on(head, separator).push(tail),
{
    let text = head.push(separator) + tail;
    lemma_cut_at_last(text, separator);
    let from = last_start(text, separator);
    assert(from == head.len() + 1) by {
        if from <= head.len() {
            assert(text[head.len() as int] == separator);
        }
        if from > head.len() + 1 {
            assert(text[from - 1] == tail[from - 2 - head.len()]);
        }
    }
    assert(text.take(from - 1) =~= head);
    assert(text.skip(from) =~= tail);
}

/// White space is taken from both ends of a text, and nothing else is.
pub proof fn lemma_trimmed(left: Seq<char>, text: Seq<char>, right: Seq<char>)
    requires
        forall|i: int| 0 <= i < left.len() ==> is_space(#[trigger] left[i]),
        forall|i: int| 0 <= i < right.len() ==> is_space(#[trigger] right[i]),
        text.len() > 0,
        !is_space(text[0]),
        !is_space(text[text.len() - 1]),
    ensures
        trimmed(left + text + right) == text,
    decreases left.len() + right.len(),
{
    let whole = left + text + right;
    if left.len() > 0 {
        assert(whole[0] == left[0]);
        assert(whole.skip(1) =~= left.skip(1) + text + right);
        lemma_trimmed(left.skip(1), text, right);
    } else {
        assert(whole =~= text + right);
        assert(whole[0] == text[0]);
        assert(trimmed_start(whole) == whole);
        if right.len() > 0 {
            assert(whole.last() == right[right.len() - 1]);
            assert(whole.drop_last() =~= left + text + right.drop_last());
            assert forall|i: int| 0 <= i < right.drop_last().len() implies is_space(
                #[trigger] right.drop_last()[i],
            ) by {
                assert(right.drop_last()[i] == right[i]);
            }
            lemma_trimmed(left, text, right.drop_last());
            assert(whole.drop_last()[0] == text[0]);
        } else {
            assert(whole =~= text);
        }
    }
}

/// White space at both ends of a text does not matter, and no other character is taken away.
pub proof fn law_trimming_takes_white_space_only(
    left: Seq<char>,
    text: Seq<char>,
    right: Seq<char>,
)
    requires
        forall|i: int| 0 <= i < left.len() ==> is_space(#[trigger] left[i]),
        forall|i: int| 0 <= i < right.len() ==> is_space(#[trigger] right[i]),
        text.len() > 0,
        !is_space(text[0]),
        !is_space(text[text.len() - 1]),
    ensures
        trimmed(left + text + right) == text,
        trimmed(text) == text,
{
    lemma_trimmed(left, text, right);
    lemma_trimmed(Seq::empty(), text, Seq::empty());
    assert(Seq::empty() + text + Seq::empty() =~= text);
}

} // verus!
