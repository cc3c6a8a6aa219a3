//! Text as sequences of characters.
use vstd::prelude::*;

verus! {

/// `String::push` appends one character.
pub assume_specification[ String::push ](text: &mut String, character: char)
    ensures
        final(text)@ == old(text)@.push(character),
;

/// The characters of a text.
pub fn chars_of(text: &str) -> (chars: Vec<char>)
    ensures
        chars@ == text@,
{
    let mut chars: Vec<char> = Vec::new();
    for c in it: text.chars()
        invariant
            chars@ == it.seq().take(it.index() as int),
            it.seq() == text@,
    {
        chars.push(c);
    }
    chars
}

/// The text that some characters make.
pub fn text_of(chars: &[char]) -> (text: String)
    ensures
        text@ == chars@,
{
    let mut text = String::new();
    let mut i: usize = 0;
    while i < chars.len()
        invariant
            i <= chars@.len(),
            text@ == chars@.take(i as int),
        decreases chars@.len() - i,
    {
        assert(chars@.take(i as int).push(chars@[i as int]) =~= chars@.take(i as int + 1));
        text.push(chars[i]);
        i = i + 1;
    }
    assert(chars@.take(i as int) =~= chars@);
    text
}

pub open spec fn digit_char(digit: nat) -> char {
    if digit == 0 {
        '0'
    } else if digit == 1 {
        '1'
    } else if digit == 2 {
        '2'
    } else if digit == 3 {
        '3'
    } else if digit == 4 {
        '4'
    } else if digit == 5 {
        '5'
    } else if digit == 6 {
        '6'
    } else if digit == 7 {
        '7'
    } else if digit == 8 {
        '8'
    } else {
        '9'
    }
}

/// A number in decimal notation, without leading zeros.
pub open spec fn decimal(value: nat) -> Seq<char>
    decreases value,
{
    if value < 10 {
        seq![digit_char(value)]
    } else {
        decimal(value / 10).push(digit_char(value % 10))
    }
}

fn char_of_digit(digit: u64) -> (c: char)
    requires
        digit < 10,
    ensures
        c == digit_char(digit as nat),
{
    match digit {
        0 => '0',
        1 => '1',
        2 => '2',
        3 => '3',
        4 => '4',
        5 => '5',
        6 => '6',
        7 => '7',
        8 => '8',
        _ => '9',
    }
}

/// Appends a number in decimal notation.
pub fn push_decimal(text: &mut String, value: u64)
    ensures
        final(text)@ == old(text)@ + decimal(value as nat),
    decreases value,
{
    if value < 10 {
        text.push(char_of_digit(value));
    } else {
        push_decimal(text, value / 10);
        text.push(char_of_digit(value % 10));
    }
    assert(text@ =~= old(text)@ + decimal(value as nat));
}

/// The characters that Unicode counts as white space.
pub open spec fn is_space(c: char) -> bool {
    let code = c as u32;
    ||| 9 <= code && code <= 13
    ||| code == 0x20
    ||| code == 0x85
    ||| code == 0xA0
    ||| code == 0x1680
    ||| 0x2000 <= code && code <= 0x200A
    ||| code == 0x2028
    ||| code == 0x2029
    ||| code == 0x202F
    ||| code == 0x205F
    ||| code == 0x3000
}

/// Nothing but white space.
pub open spec fn blank(text: Seq<char>) -> bool {
    forall|i: int| 0 <= i < text.len() ==> is_space(#[trigger] text[i])
}

pub fn is_whitespace(c: char) -> (space: bool)
    ensures
        space == is_space(c),
{
    let code: u32 = c as u32;
    (9 <= code && code <= 13) || code == 0x20 || code == 0x85 || code == 0xA0 || code == 0x1680 || (
    0x2000 <= code && code <= 0x200A) || code == 0x2028 || code == 0x2029 || code == 0x202F || code
        == 0x205F || code == 0x3000
}

pub fn is_blank(text: &str) -> (is: bool)
    ensures
        is == blank(text@),
{
    let chars = chars_of(text);
    let mut i: usize = 0;
    while i < chars.len()
        invariant
            i <= chars@.len(),
            chars@ == text@,
            forall|k: int| 0 <= k < i ==> is_space(#[trigger] chars@[k]),
        decreases chars@.len() - i,
    {
        if !is_whitespace(chars[i]) {
            assert(!is_space(text@[i as int]));
            return false;
        }
        i = i + 1;
    }
    true
}

/// The view of an optional text.
pub open spec fn optional_text(text: Option<String>) -> Option<Seq<char>> {
    match text {
        Some(text) => Some(text@),
        None => None,
    }
}

pub fn copy_optional(text: &Option<String>) -> (copy: Option<String>)
    ensures
        optional_text(copy) == optional_text(*text),
{
    match text {
        Some(text) => Some(text.as_str().to_owned()),
        None => None,
    }
}

/// What `{:?}` prints of a text: the text in quotes, with special characters escaped.
pub uninterp spec fn quoted(text: Seq<char>) -> Seq<char>;

/// Prints a text with the `Debug` impl of `str`. Which characters are escaped, and how, is not
/// stated; the result is named, as a function of the text.
#[verifier::external_body]
pub(crate) fn quote(text: &str) -> (printed: String)
    ensures
        printed@ == quoted(text@),
{
    format!("{:?}", text)
}

pub open spec fn optional_quoted(text: Option<Seq<char>>) -> Seq<char> {
    match text {
        None => "None"@,
        Some(text) => "Some("@ + quoted(text) + ")"@,
    }
}

pub(crate) fn quote_optional(text: &Option<String>) -> (printed: String)
    ensures
        printed@ == optional_quoted(optional_text(*text)),
{
    match text {
        None => "None".to_owned(),
        Some(text) => {
            let mut printed = "Some(".to_owned();
            printed.append(&quote(text.as_str()));
            printed.append(")");
            printed
        },
    }
}

pub open spec fn optional_decimal(value: Option<u64>) -> Seq<char> {
    match value {
        None => "None"@,
        Some(value) => "Some("@ + decimal(value as nat) + ")"@,
    }
}

pub fn push_optional_decimal(text: &mut String, value: Option<u64>)
    ensures
        final(text)@ == old(text)@ + optional_decimal(value),
{
    match value {
        None => text.append("None"),
        Some(value) => {
            text.append("Some(");
            push_decimal(text, value);
            text.append(")");
        },
    }
    assert(text@ =~= old(text)@ + optional_decimal(value));
}

/// A time of whole seconds.
pub open spec fn seconds_text(seconds: u64) -> Seq<char> {
    if seconds == 0 {
        "0ns"@
    } else {
        decimal(seconds as nat) + "s"@
    }
}

pub fn push_seconds(text: &mut String, seconds: u64)
    ensures
        final(text)@ == old(text)@ + seconds_text(seconds),
{
    if seconds == 0 {
        text.append("0ns");
    } else {
        push_decimal(text, seconds);
        text.append("s");
    }
    assert(text@ =~= old(text)@ + seconds_text(seconds));
}

/// The thousandths of a second behind the point, without zeros at the end.
pub open spec fn fraction_text(thousandths: nat) -> Seq<char> {
    let point = seq!['.', digit_char(thousandths / 100)];
    if thousandths == 0 {
        Seq::empty()
    } else if thousandths % 100 == 0 {
        point
    } else if thousandths % 10 == 0 {
        point.push(digit_char(thousandths / 10 % 10))
    } else {
        point.push(digit_char(thousandths / 10 % 10)).push(digit_char(thousandths % 10))
    }
}

/// A time of whole milliseconds, in the largest unit that it reaches.
pub open spec fn milliseconds_text(milliseconds: u64) -> Seq<char> {
    if milliseconds == 0 {
        "0ns"@
    } else if milliseconds < 1000 {
        decimal(milliseconds as nat) + "ms"@
    } else {
        decimal((milliseconds / 1000) as nat) + fraction_text((milliseconds % 1000) as nat) + "s"@
    }
}

pub fn push_milliseconds(text: &mut String, milliseconds: u64)
    ensures
        final(text)@ == old(text)@ + milliseconds_text(milliseconds),
{
    if milliseconds == 0 {
        text.append("0ns");
    } else if milliseconds < 1000 {
        push_decimal(text, milliseconds);
        text.append("ms");
    } else {
        push_decimal(text, milliseconds / 1000);
        let rest: u64 = milliseconds % 1000;
        if rest != 0 {
            text.push('.');
            text.push(char_of_digit(rest / 100));
            if rest % 100 != 0 {
                text.push(char_of_digit(rest / 10 % 10));
                if rest % 10 != 0 {
                    text.push(char_of_digit(rest % 10));
                }
            }
        }
        text.append("s");
    }
    assert(text@ =~= old(text)@ + milliseconds_text(milliseconds));
}

pub open spec fn flag_text(flag: bool) -> Seq<char> {
    if flag {
        "true"@
    } else {
        "false"@
    }
}

pub fn flag_name(flag: bool) -> (name: &'static str)
    ensures
        name@ == flag_text(flag),
{
    if flag {
        "true"
    } else {
        "false"
    }
}

pub fn same_text(a: &str, b: &str) -> (same: bool)
    ensures
        same == (a@ == b@),
{
    let left = chars_of(a);
    let right = chars_of(b);
    if left.len() != right.len() {
        return false;
    }
    let mut i: usize = 0;
    while i < left.len()
        invariant
            i <= left@.len() == right@.len(),
            left@ == a@,
            right@ == b@,
            forall|k: int| 0 <= k < i ==> left@[k] == right@[k],
        decreases left@.len() - i,
    {
        if left[i] != right[i] {
            return false;
        }
        i = i + 1;
    }
    assert(left@ =~= right@);
    true
}

pub fn same_optional_text(a: &Option<String>, b: &Option<String>) -> (same: bool)
    ensures
        same == (optional_text(*a) == optional_text(*b)),
{
    match (a, b) {
        (Some(left), Some(right)) => same_text(left.as_str(), right.as_str()),
        (None, None) => true,
        _ => false,
    }
}

/// Blanks, tabs and line breaks are white space; letters, digits and the other printable characters
/// of ASCII are not, nor are control characters that print nothing.
pub proof fn law_white_space(c: char)
    ensures
        is_space(' ') && is_space('\t') && is_space('\n') && is_space('\r'),
        0x21 <= c as u32 <= 0x7e ==> !is_space(c),
        c as u32 == 0x1b || c as u32 == 0 || c as u32 == 0x7f ==> !is_space(c),
        c as u32 == 0xa0 || c as u32 == 0x2003 || c as u32 == 0x3000 || c as u32 == 0x2028
            ==> is_space(c),
        is_space(c) ==> c as u32 <= 0x20 || c as u32 == 0x85 || c as u32 == 0xa0 || 0x1680
            <= c as u32 <= 0x3000,
        c as u32 == 0x200b ==> !is_space(c),
{
}

/// A text is blank exactly if there is nothing in it but white space; so an empty one is.
pub proof fn law_blank_texts(text: Seq<char>)
    ensures
        text.len() == 0 ==> blank(text),
        blank(text) <==> !(exists|i: int| 0 <= i < text.len() && !is_space(#[trigger] text[i])),
{
}

} // verus!
