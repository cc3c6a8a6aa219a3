//! What the croc program prints: transfer codes, its version, and text that must not be logged.
use vstd::prelude::*;
use vstd::utf8::{decode_utf8, encode_utf8, valid_utf8};
use crate::backend::{BackendEvent, BackendEventModel};
use crate::scan::{
    before_first, begins_with, cut_before, parse_number, parsed_number, piece_views, replace,
    replaced, skip_chars, split, split_on, starts_with, trim, trim_start, trimmed, trimmed_start,
};
use crate::text::{chars_of, decimal, is_space, is_whitespace, push_decimal, text_of};

verus! {

#[derive(Debug, Clone, Copy, PartialEq, Eq, Structural)]
pub struct CrocVersion {
    pub major: u64,
    pub minor: u64,
    pub patch: u64,
}

impl CrocVersion {
    pub open spec fn supported(self) -> bool {
        self.major == 11 && self.minor == 2
    }

    pub fn is_supported(self) -> (supported: bool)
        ensures
            supported == self.supported(),
    {
        self.major == 11 && self.minor == 2
    }

    pub open spec fn text(self) -> Seq<char> {
        decimal(self.major as nat) + "."@ + decimal(self.minor as nat) + "."@ + decimal(
            self.patch as nat,
        )
    }

    pub fn to_text(self) -> (text: String)
        ensures
            text@ == self.text(),
    {
        let mut text = String::new();
        push_decimal(&mut text, self.major);
        assert(text@ =~= decimal(self.major as nat));
        text.append(".");
        push_decimal(&mut text, self.minor);
        text.append(".");
        push_decimal(&mut text, self.patch);
        text
    }
}

#[derive(Debug, Clone, Copy, PartialEq, Eq, Structural)]
pub enum CrocParseError {
    InvalidTransferCode,
}

/// What some bytes say as UTF-8 text, where what is not UTF-8 is replaced.
pub uninterp spec fn lossy_text(bytes: Seq<u8>) -> Seq<char>;

/// Decodes with `String::from_utf8_lossy`: valid UTF-8 decodes to its text. How invalid bytes are
/// replaced is not stated; the result is named, as a function of the bytes.
#[verifier::external_body]
pub(crate) fn decode_lossy(bytes: &[u8]) -> (text: String)
    ensures
        text@ == lossy_text(bytes@),
        valid_utf8(bytes@) ==> text@ == decode_utf8(bytes@),
{
    String::from_utf8_lossy(bytes).into_owned()
}

/// The text that some bytes are taken for: their own where they are UTF-8, and else one in which
/// what is not UTF-8 is replaced.
pub open spec fn decoded(bytes: Seq<u8>) -> Seq<char> {
    if valid_utf8(bytes) {
        decode_utf8(bytes)
    } else {
        lossy_text(bytes)
    }
}

pub open spec fn ascii_letter(c: char) -> bool {
    (97 <= c as u32 && c as u32 <= 122) || (65 <= c as u32 && c as u32 <= 90)
}

fn is_ascii_letter(c: char) -> (letter: bool)
    ensures
        letter == ascii_letter(c),
{
    let code: u32 = c as u32;
    (97 <= code && code <= 122) || (65 <= code && code <= 90)
}

/// The text after a terminal control sequence, which ends with its first letter.
pub open spec fn after_control(text: Seq<char>) -> Seq<char>
    decreases text.len(),
{
    if text.len() == 0 {
        text
    } else if ascii_letter(text[0]) {
        text.skip(1)
    } else {
        after_control(text.skip(1))
    }
}

pub proof fn lemma_after_control_shorter(text: Seq<char>)
    ensures
        after_control(text).len() <= text.len(),
    decreases text.len(),
{
    if text.len() > 0 && !ascii_letter(text[0]) {
        lemma_after_control_shorter(text.skip(1));
    }
}

/// A text without terminal control sequences. An escape character takes the character after it
/// along, and with a bracket there everything up to the next letter.
pub open spec fn stripped(text: Seq<char>) -> Seq<char>
    decreases text.len(),
{
    if text.len() == 0 {
        text
    } else if text[0] != '\u{1b}' {
        seq![text[0]] + stripped(text.skip(1))
    } else if text.len() < 2 {
        Seq::empty()
    } else if text[1] != '[' {
        stripped(text.skip(2))
    } else {
        proof {
            lemma_after_control_shorter(text.skip(2));
        }
        stripped(after_control(text.skip(2)))
    }
}

/// Removes terminal control sequences.
pub fn strip_ansi(value: &[char]) -> (output: Vec<char>)
    ensures
        output@ == stripped(value@),
{
    let mut output: Vec<char> = Vec::new();
    let mut i: usize = 0;
    assert(value@.skip(0) =~= value@);
    assert(output@ + stripped(value@) =~= stripped(value@));
    while i < value.len()
        invariant
            i <= value@.len(),
            stripped(value@) == output@ + stripped(value@.skip(i as int)),
        decreases value@.len() - i,
    {
        let ghost rest = value@.skip(i as int);
        let c: char = value[i];
        if c != '\u{1b}' {
            let ghost before = output@;
            output.push(c);
            assert(rest.skip(1) =~= value@.skip(i as int + 1));
            assert(before + (seq![c] + stripped(rest.skip(1))) =~= output@ + stripped(
                value@.skip(i as int + 1),
            ));
            i = i + 1;
        } else if value.len() - i < 2 {
            assert(output@ + Seq::<char>::empty() =~= output@);
            i = value.len();
            assert(value@.skip(i as int) =~= Seq::<char>::empty());
        } else if value[i + 1] != '[' {
            assert(rest.skip(2) =~= value@.skip(i as int + 2));
            i = i + 2;
        } else {
            let mut k: usize = i + 2;
            let mut found = false;
            assert(rest.skip(2) =~= value@.skip(k as int));
            while k < value.len() && !found
                invariant
                    i + 2 <= k <= value@.len(),
                    !found ==> after_control(rest.skip(2)) == after_control(value@.skip(k as int)),
                    found ==> after_control(rest.skip(2)) == value@.skip(k as int),
                decreases value@.len() - k,
            {
                assert(value@.skip(k as int).skip(1) =~= value@.skip(k as int + 1));
                if is_ascii_letter(value[k]) {
                    found = true;
                }
                k = k + 1;
            }
            assert(after_control(rest.skip(2)) =~= value@.skip(k as int));
            i = k;
        }
    }
    assert(value@.skip(i as int) =~= Seq::<char>::empty());
    assert(output@ + Seq::<char>::empty() =~= output@);
    output
}

/// Control characters.
pub open spec fn is_control(c: char) -> bool {
    c as u32 <= 0x1F || (0x7F <= c as u32 && c as u32 <= 0x9F)
}

/// A transfer code: not empty, at most 256 bytes, one word of printable characters.
pub open spec fn valid_code(code: Seq<char>) -> bool {
    &&& code.len() > 0
    &&& encode_utf8(code).len() <= 256
    &&& forall|i: int|
        0 <= i < code.len() ==> !is_space(#[trigger] code[i]) && !is_control(code[i])
}

/// What a line announces: nothing, a transfer code, or a code that is none.
pub open spec fn announced(line: Seq<char>) -> Result<Option<Seq<char>>, CrocParseError> {
    let clean = trimmed(stripped(line));
    if !begins_with(clean, "Code is:"@) {
        Ok(None)
    } else {
        let value = clean.skip("Code is:"@.len() as int);
        let code = trimmed(value);
        if value.len() > 0 && is_space(value[0]) && valid_code(code) {
            Ok(Some(code))
        } else {
            Err(CrocParseError::InvalidTransferCode)
        }
    }
}

fn is_one_word(code: &[char]) -> (word: bool)
    ensures
        word == (forall|i: int|
            0 <= i < code@.len() ==> !is_space(#[trigger] code@[i]) && !is_control(code@[i])),
{
    let mut i: usize = 0;
    while i < code.len()
        invariant
            i <= code@.len(),
            forall|k: int|
                0 <= k < i ==> !is_space(#[trigger] code@[k]) && !is_control(code@[k]),
        decreases code@.len() - i,
    {
        let c: char = code[i];
        let number: u32 = c as u32;
        if is_whitespace(c) || number <= 0x1F || (0x7F <= number && number <= 0x9F) {
            assert(is_space(code@[i as int]) || is_control(code@[i as int]));
            return false;
        }
        i = i + 1;
    }
    true
}

/// Finds the announcement of a transfer code in a line of output.
pub fn parse_croc_line(line: &str) -> (result: Result<Option<BackendEvent>, CrocParseError>)
    ensures
        match announced(line@) {
            Ok(None) => result matches Ok(None),
            Ok(Some(code)) => result matches Ok(Some(event)) && event@ == (
            BackendEventModel::CodeGenerated { code }),
            Err(error) => result == Err::<Option<BackendEvent>, CrocParseError>(error),
        },
{
    let chars = chars_of(line);
    let normalized = strip_ansi(&chars);
    let clean = trim(&normalized);
    let prefix = chars_of("Code is:");
    if !starts_with(clean, &prefix) {
        return Ok(None);
    }
    let value = skip_chars(clean, prefix.len());
    let code = trim(value);
    if value.len() == 0 || !is_whitespace(value[0]) || code.len() == 0 || !is_one_word(code) {
        return Err(CrocParseError::InvalidTransferCode);
    }
    let text = text_of(code);
    if text.as_str().as_bytes().len() > 256 {
        return Err(CrocParseError::InvalidTransferCode);
    }
    assert(encode_utf8(code@).len() <= 256);
    assert(valid_code(code@));
    let event = BackendEvent::CodeGenerated { code: text };
    assert(event@ == (BackendEventModel::CodeGenerated { code: code@ }));
    Ok(Some(event))
}

/// The part of a version line that holds the numbers.
pub open spec fn version_token(line: Seq<char>) -> Seq<char> {
    let clean = trimmed(line);
    let named = if begins_with(clean, "croc version "@) {
        clean.skip("croc version "@.len() as int)
    } else if begins_with(clean, "croc "@) {
        clean.skip("croc "@.len() as int)
    } else {
        clean
    };
    let plain = if begins_with(named, "v"@) {
        named.skip("v"@.len() as int)
    } else {
        named
    };
    before_first(plain, '-')
}

/// Three numbers with dots between them.
pub open spec fn version_of(line: Seq<char>) -> Option<CrocVersion> {
    let pieces = split_on(version_token(line), '.');
    if pieces.len() == 3 && parsed_number(pieces[0]) is Some && parsed_number(pieces[1]) is Some
        && parsed_number(pieces[2]) is Some {
        Some(
            CrocVersion {
                major: parsed_number(pieces[0])->Some_0,
                minor: parsed_number(pieces[1])->Some_0,
                patch: parsed_number(pieces[2])->Some_0,
            },
        )
    } else {
        None
    }
}

fn without_prefix<'a>(text: &'a [char], prefix: &str) -> (rest: Option<&'a [char]>)
    ensures
        match rest {
            Some(rest) => begins_with(text@, prefix@) && rest@ == text@.skip(prefix@.len() as int),
            None => !begins_with(text@, prefix@),
        },
{
    let wanted = chars_of(prefix);
    if starts_with(text, &wanted) {
        Some(skip_chars(text, wanted.len()))
    } else {
        None
    }
}

/// The version that one line of output names.
pub fn version_in_line(line: &str) -> (version: Option<CrocVersion>)
    ensures
        version == version_of(line@),
{
    let chars = chars_of(line);
    let clean = trim(&chars);
    let named = match without_prefix(clean, "croc version ") {
        Some(rest) => rest,
        None => match without_prefix(clean, "croc ") {
            Some(rest) => rest,
            None => clean,
        },
    };
    let plain = match without_prefix(named, "v") {
        Some(rest) => rest,
        None => named,
    };
    let token = cut_before(plain, '-');
    assert(token@ == version_token(line@));
    let pieces = split(token, '.');
    let ghost views = piece_views(pieces@);
    if pieces.len() != 3 {
        return None;
    }
    assert(views[0] == pieces@[0]@ && views[1] == pieces@[1]@ && views[2] == pieces@[2]@);
    match (parse_number(&pieces[0]), parse_number(&pieces[1]), parse_number(&pieces[2])) {
        (Some(major), Some(minor), Some(patch)) => Some(CrocVersion { major, minor, patch }),
        _ => None,
    }
}

/// The bytes before the first line break.
pub open spec fn first_line(bytes: Seq<u8>) -> Seq<u8>
    decreases bytes.len(),
{
    if bytes.len() == 0 || bytes[0] == 10 {
        Seq::empty()
    } else {
        seq![bytes[0]] + first_line(bytes.skip(1))
    }
}

pub proof fn lemma_first_line_len(bytes: Seq<u8>)
    ensures
        first_line(bytes).len() <= bytes.len(),
    decreases bytes.len(),
{
    if bytes.len() > 0 && bytes[0] != 10 {
        lemma_first_line_len(bytes.skip(1));
    }
}

/// The version that the first line with a version names.
pub open spec fn version_of_output(bytes: Seq<u8>) -> Option<CrocVersion>
    decreases bytes.len(),
{
    let line = first_line(bytes);
    match version_of(decoded(line)) {
        Some(version) => Some(version),
        None => {
            if line.len() < bytes.len() {
                version_of_output(bytes.skip(line.len() as int + 1))
            } else {
                None
            }
        },
    }
}

fn line_end(bytes: &[u8], from: usize) -> (end: usize)
    requires
        from <= bytes@.len(),
    ensures
        from <= end <= bytes@.len(),
        bytes@.subrange(from as int, end as int) == first_line(bytes@.skip(from as int)),
{
    let mut end: usize = from;
    let ghost rest = bytes@.skip(from as int);
    assert(bytes@.subrange(from as int, from as int) + first_line(rest) =~= first_line(rest));
    while end < bytes.len() && bytes[end] != 10
        invariant
            from <= end <= bytes@.len(),
            rest == bytes@.skip(from as int),
            first_line(rest) == bytes@.subrange(from as int, end as int) + first_line(
                bytes@.skip(end as int),
            ),
        decreases bytes@.len() - end,
    {
        assert(bytes@.skip(end as int).skip(1) =~= bytes@.skip(end as int + 1));
        assert(bytes@.subrange(from as int, end as int) + (seq![bytes@[end as int]] + first_line(
            bytes@.skip(end as int + 1),
        )) =~= bytes@.subrange(from as int, end as int + 1) + first_line(
            bytes@.skip(end as int + 1),
        ));
        end = end + 1;
    }
    assert(bytes@.subrange(from as int, end as int) + Seq::<u8>::empty() =~= bytes@.subrange(
        from as int,
        end as int,
    ));
    end
}

/// Finds the version in the output of `croc --version`.
pub fn parse_croc_version(output: &[u8]) -> (version: Option<CrocVersion>)
    ensures
        version == version_of_output(output@),
{
    let mut from: usize = 0;
    assert(output@.skip(0) =~= output@);
    loop
        invariant
            from <= output@.len(),
            version_of_output(output@) == version_of_output(output@.skip(from as int)),
        decreases output@.len() - from,
    {
        let ghost rest = output@.skip(from as int);
        let end: usize = line_end(output, from);
        let line = vstd::slice::slice_subrange(output, from, end);
        let text = decode_lossy(line);
        if let Some(version) = version_in_line(text.as_str()) {
            return Some(version);
        }
        if end >= output.len() {
            return None;
        }
        assert(rest.skip(first_line(rest).len() as int + 1) =~= output@.skip(end as int + 1));
        from = end + 1;
    }
}

/// A line of output with secrets taken out: what announces a code or sets the secret is replaced
/// whole, elsewhere every occurrence of the code is.
pub open spec fn redacted_line(line: Seq<char>, code: Option<Seq<char>>) -> Seq<char> {
    let normalized = stripped(line);
    let start = trimmed_start(normalized);
    let ending = if line.len() > 0 && line.last() == '\n' {
        seq!['\n']
    } else {
        Seq::empty()
    };
    if begins_with(start, "Code is:"@) {
        "Code is: [REDACTED]"@ + ending
    } else if begins_with(start, "CROC_SECRET="@) {
        "CROC_SECRET=[REDACTED]"@ + ending
    } else {
        match code {
            Some(code) => replaced(normalized, code, "[REDACTED]"@),
            None => normalized,
        }
    }
}

/// The line that a text begins with, line break included.
pub open spec fn head_line(text: Seq<char>) -> Seq<char>
    decreases text.len(),
{
    if text.len() == 0 {
        text
    } else if text[0] == '\n' {
        seq!['\n']
    } else {
        seq![text[0]] + head_line(text.skip(1))
    }
}

pub proof fn lemma_head_line_len(text: Seq<char>)
    ensures
        head_line(text).len() <= text.len(),
        text.len() > 0 ==> head_line(text).len() > 0,
    decreases text.len(),
{
    if text.len() > 0 && text[0] != '\n' {
        lemma_head_line_len(text.skip(1));
    }
}

pub open spec fn redacted_lines(text: Seq<char>, code: Option<Seq<char>>) -> Seq<char>
    decreases text.len(),
{
    if text.len() == 0 {
        text
    } else {
        proof {
            lemma_head_line_len(text);
        }
        let line = head_line(text);
        redacted_line(line, code) + redacted_lines(text.skip(line.len() as int), code)
    }
}

/// Output as it may be shown, with a note where it was cut.
pub open spec fn redacted(text: Seq<char>, code: Option<Seq<char>>, truncated: bool) -> Seq<char> {
    if truncated {
        redacted_lines(text, code) + "\n[output truncated]"@
    } else {
        redacted_lines(text, code)
    }
}

pub open spec fn optional_str(text: Option<&str>) -> Option<Seq<char>> {
    match text {
        Some(text) => Some(text@),
        None => None,
    }
}

fn redact_line(line: &[char], code: Option<&str>) -> (redacted: String)
    ensures
        redacted@ == redacted_line(line@, optional_str(code)),
{
    let normalized = strip_ansi(line);
    let start = trim_start(&normalized);
    let ends = line.len() > 0 && line[line.len() - 1] == '\n';
    if without_prefix(start, "Code is:").is_some() {
        let mut text = "Code is: [REDACTED]".to_owned();
        if ends {
            text.push('\n');
        }
        assert(text@ =~= redacted_line(line@, optional_str(code)));
        return text;
    }
    if without_prefix(start, "CROC_SECRET=").is_some() {
        let mut text = "CROC_SECRET=[REDACTED]".to_owned();
        if ends {
            text.push('\n');
        }
        assert(text@ =~= redacted_line(line@, optional_str(code)));
        return text;
    }
    match code {
        Some(code) => {
            let pattern = chars_of(code);
            let by = chars_of("[REDACTED]");
            let result = replace(&normalized, &pattern, &by);
            text_of(&result)
        },
        None => text_of(&normalized),
    }
}

fn head_line_end(text: &[char], from: usize) -> (end: usize)
    requires
        from < text@.len(),
    ensures
        from < end <= text@.len(),
        text@.subrange(from as int, end as int) == head_line(text@.skip(from as int)),
{
    let mut end: usize = from;
    let ghost rest = text@.skip(from as int);
    assert(text@.subrange(from as int, from as int) + head_line(rest) =~= head_line(rest));
    while end < text.len() && text[end] != '\n'
        invariant
            from <= end <= text@.len(),
            rest == text@.skip(from as int),
            head_line(rest) == text@.subrange(from as int, end as int) + head_line(
                text@.skip(end as int),
            ),
        decreases text@.len() - end,
    {
        assert(text@.skip(end as int).skip(1) =~= text@.skip(end as int + 1));
        assert(text@.subrange(from as int, end as int) + (seq![text@[end as int]] + head_line(
            text@.skip(end as int + 1),
        )) =~= text@.subrange(from as int, end as int + 1) + head_line(text@.skip(end as int + 1)));
        end = end + 1;
    }
    if end < text.len() {
        assert(text@.subrange(from as int, end as int) + seq!['\n'] =~= text@.subrange(
            from as int,
            end as int + 1,
        ));
        end = end + 1;
    } else {
        assert(text@.subrange(from as int, end as int) + text@.skip(end as int)
            =~= text@.subrange(from as int, end as int));
    }
    end
}

/// Takes secrets out of output.
pub fn redact_text(output: &str, code: Option<&str>, truncated: bool) -> (result: String)
    ensures
        result@ == redacted(output@, optional_str(code), truncated),
{
    let ghost secret = optional_str(code);
    let text = chars_of(output);
    let mut result = String::new();
    let mut from: usize = 0;
    assert(text@.skip(0) =~= text@);
    assert(result@ + redacted_lines(text@, secret) =~= redacted_lines(text@, secret));
    while from < text.len()
        invariant
            from <= text@.len(),
            secret == optional_str(code),
            redacted_lines(text@, secret) == result@ + redacted_lines(
                text@.skip(from as int),
                secret,
            ),
        decreases text@.len() - from,
    {
        let end: usize = head_line_end(&text, from);
        let ghost rest = text@.skip(from as int);
        let ghost before = result@;
        let line = vstd::slice::slice_subrange(text.as_slice(), from, end);
        let piece = redact_line(line, code);
        result.append(piece.as_str());
        assert(rest.skip(head_line(rest).len() as int) =~= text@.skip(end as int));
        assert(before + (piece@ + redacted_lines(text@.skip(end as int), secret)) =~= result@
            + redacted_lines(text@.skip(end as int), secret));
        from = end;
    }
    assert(text@.skip(from as int) =~= Seq::<char>::empty());
    assert(result@ =~= redacted_lines(text@, secret));
    if truncated {
        result.append("\n[output truncated]");
    }
    result
}

/// Takes secrets out of output that came as bytes.
pub fn redact_output(output: &[u8], code: Option<&str>, truncated: bool) -> (result: Vec<u8>)
    ensures
        result@ == encode_utf8(redacted(decoded(output@), optional_str(code), truncated)),
{
    let text = decode_lossy(output);
    let clean = redact_text(text.as_str(), code, truncated);
    clean.as_str().as_bytes_vec()
}

/// A pattern stands somewhere in a text.
pub open spec fn occurs(pattern: Seq<char>, text: Seq<char>) -> bool {
    exists|i: int| 0 <= i <= text.len() && begins_with(#[trigger] text.skip(i), pattern)
}

/// Wherever a text and the words that replace it stand next to each other, they have nothing in
/// common: neither ends in what the other begins with, and neither holds the other.
pub open spec fn apart(text: Seq<char>, by: Seq<char>) -> bool {
    &&& forall|k: int|
        0 < k <= text.len() && k <= by.len() ==> #[trigger] text.take(k) != by.skip(by.len() - k)
    &&& forall|k: int|
        0 < k <= text.len() && k <= by.len() ==> text.skip(text.len() - k) != #[trigger] by.take(k)
    &&& !occurs(text, by)
    &&& !occurs(by, text)
}

/// If the end of a pattern stands at the start of a text in which the pattern was replaced, it comes
/// from the text itself.
proof fn lemma_kept_start(text: Seq<char>, pattern: Seq<char>, by: Seq<char>, from: int)
    requires
        pattern.len() > 0,
        apart(pattern, by),
        0 <= from <= pattern.len(),
        begins_with(replaced(text, pattern, by), pattern.skip(from)),
    ensures
        begins_with(text, pattern.skip(from)),
    decreases text.len(),
{
    let result = replaced(text, pattern, by);
    let end = pattern.skip(from);
    if end.len() == 0 {
        assert(text.take(0) =~= end);
    } else if text.len() > 0 {
        if begins_with(text, pattern) {
            let rest = replaced(text.skip(pattern.len() as int), pattern, by);
            assert(result == by + rest);
            if end.len() <= by.len() {
                assert(by.take(end.len() as int) =~= result.take(end.len() as int));
                assert(pattern.skip(pattern.len() - end.len()) == end);
            } else {
                assert(end.take(by.len() as int) =~= result.take(end.len() as int).take(
                    by.len() as int,
                ));
                assert(result.take(end.len() as int).take(by.len() as int) =~= by);
                assert(begins_with(pattern.skip(from), by));
                assert(occurs(by, pattern));
            }
        } else {
            let rest = replaced(text.skip(1), pattern, by);
            assert(result.take(end.len() as int)[0] == end[0]);
            assert(pattern.skip(from + 1) =~= end.skip(1));
            assert(rest.take(end.len() - 1) =~= result.take(end.len() as int).skip(1));
            lemma_kept_start(text.skip(1), pattern, by, from + 1);
            assert(text.take(end.len() as int) =~= seq![text[0]] + text.skip(1).take(
                end.len() - 1,
            ));
            assert(end =~= seq![end[0]] + end.skip(1));
        }
    }
}

proof fn lemma_replaced_is_gone(text: Seq<char>, pattern: Seq<char>, by: Seq<char>, at: int)
    requires
        pattern.len() > 0,
        apart(pattern, by),
        0 <= at <= replaced(text, pattern, by).len(),
    ensures
        !begins_with(replaced(text, pattern, by).skip(at), pattern),
    decreases text.len(),
{
    let result = replaced(text, pattern, by);
    if text.len() > 0 {
        if begins_with(text, pattern) {
            let rest = replaced(text.skip(pattern.len() as int), pattern, by);
            if at >= by.len() {
                assert(result.skip(at) =~= rest.skip(at - by.len()));
                lemma_replaced_is_gone(
                    text.skip(pattern.len() as int),
                    pattern,
                    by,
                    at - by.len(),
                );
            } else if begins_with(result.skip(at), pattern) {
                let tail = by.skip(at);
                if pattern.len() <= tail.len() {
                    assert(tail.take(pattern.len() as int) =~= result.skip(at).take(
                        pattern.len() as int,
                    ));
                    assert(begins_with(by.skip(at), pattern));
                    assert(occurs(pattern, by));
                } else {
                    let k = tail.len() as int;
                    assert(pattern.take(k) =~= result.skip(at).take(pattern.len() as int).take(k));
                    assert(pattern.take(k) =~= tail);
                    assert(by.skip(by.len() - k) == tail);
                }
            }
        } else if at >= 1 {
            assert(result.skip(at) =~= replaced(text.skip(1), pattern, by).skip(at - 1));
            lemma_replaced_is_gone(text.skip(1), pattern, by, at - 1);
        } else if begins_with(result.skip(at), pattern) {
            assert(result.skip(0) =~= result);
            assert(pattern.skip(0) =~= pattern);
            lemma_kept_start(text, pattern, by, 0);
        }
    }
}

/// What a line that announces a code or sets the secret is replaced by.
pub open spec fn fixed_line(line: Seq<char>) -> Option<Seq<char>> {
    let start = trimmed_start(stripped(line));
    if begins_with(start, "Code is:"@) {
        Some("Code is: [REDACTED]"@)
    } else if begins_with(start, "CROC_SECRET="@) {
        Some("CROC_SECRET=[REDACTED]"@)
    } else {
        None
    }
}

/// No line that is shown holds the code, as long as the code and the words that replace it are
/// apart. A line that announces a code or sets the secret shows nothing of itself.
pub proof fn law_codes_are_taken_out_of_lines(line: Seq<char>, code: Seq<char>)
    requires
        code.len() > 0,
        apart(code, "[REDACTED]"@),
    ensures
        match fixed_line(line) {
            Some(fixed) => redacted_line(line, Some(code)) == fixed + (if line.len() > 0
                && line.last() == '\n' {
                seq!['\n']
            } else {
                Seq::empty()
            }),
            None => !occurs(code, redacted_line(line, Some(code))),
        },
{
    let shown = redacted_line(line, Some(code));
    if fixed_line(line) is None {
        assert forall|i: int| 0 <= i <= shown.len() implies !begins_with(
            #[trigger] shown.skip(i),
            code,
        ) by {
            lemma_replaced_is_gone(stripped(line), code, "[REDACTED]"@, i);
        }
    }
}

/// The lines of a text, line breaks included.
pub open spec fn lines_of(text: Seq<char>) -> Seq<Seq<char>>
    decreases text.len(),
{
    if text.len() == 0 {
        Seq::empty()
    } else {
        proof {
            lemma_head_line_len(text);
        }
        let line = head_line(text);
        seq![line] + lines_of(text.skip(line.len() as int))
    }
}

/// No escape sequence takes the line break between two lines with it.
pub open spec fn lines_stay_apart(text: Seq<char>) -> bool {
    forall|i: int|
        0 <= i < lines_of(text).len() - 1 ==> {
            let line = #[trigger] lines_of(text)[i];
            fixed_line(line) is Some || (stripped(line).len() > 0 && stripped(line).last() == '\n')
        }
}

/// Some line is shown as words that hold the code themselves.
pub open spec fn fixed_words_hold(text: Seq<char>, code: Seq<char>) -> bool {
    exists|i: int|
        0 <= i < lines_of(text).len() && (fixed_line(#[trigger] lines_of(text)[i]) matches Some(
            fixed,
        ) && occurs(code, fixed))
}

proof fn lemma_occurs_on_one_side(pattern: Seq<char>, first: Seq<char>, second: Seq<char>)
    requires
        pattern.len() > 0,
        !pattern.contains('\n'),
        occurs(pattern, first + seq!['\n'] + second),
    ensures
        occurs(pattern, first) || occurs(pattern, second),
{
    let whole = first + seq!['\n'] + second;
    let i = choose|i: int| 0 <= i <= whole.len() && begins_with(#[trigger] whole.skip(i), pattern);
    let break_at = first.len() as int;
    if i > break_at {
        assert(second.skip(i - break_at - 1) =~= whole.skip(i));
        assert(begins_with(second.skip(i - break_at - 1), pattern));
    } else if i + pattern.len() <= break_at {
        assert(first.skip(i).take(pattern.len() as int) =~= whole.skip(i).take(
            pattern.len() as int,
        ));
        assert(begins_with(first.skip(i), pattern));
    } else {
        assert(whole.skip(i).take(pattern.len() as int)[break_at - i] == '\n');
        assert(pattern[break_at - i] == '\n');
    }
}

/// A last character that is not in the pattern stays the last one.
proof fn lemma_replaced_keeps_end(text: Seq<char>, pattern: Seq<char>, by: Seq<char>)
    requires
        pattern.len() > 0,
        text.len() > 0,
        !pattern.contains(text.last()),
    ensures
        replaced(text, pattern, by).len() > 0,
        replaced(text, pattern, by).last() == text.last(),
    decreases text.len(),
{
    if begins_with(text, pattern) {
        let count = pattern.len() as int;
        assert(text.take(count)[count - 1] == pattern[count - 1]);
        assert(text.len() > count);
        lemma_replaced_keeps_end(text.skip(count), pattern, by);
    } else if text.len() > 1 {
        lemma_replaced_keeps_end(text.skip(1), pattern, by);
    } else {
        assert(text.skip(1) =~= Seq::<char>::empty());
        assert(replaced(text.skip(1), pattern, by) =~= Seq::<char>::empty());
    }
}

proof fn lemma_head_line_end(text: Seq<char>)
    requires
        text.len() > 0,
        head_line(text).len() < text.len(),
    ensures
        head_line(text).len() > 0,
        head_line(text).last() == '\n',
    decreases text.len(),
{
    if text[0] != '\n' {
        assert(text.len() > 1) by {
            assert(text.skip(1).len() == 0 ==> head_line(text.skip(1)) == text.skip(1));
        }
        lemma_head_line_end(text.skip(1));
    }
}

proof fn lemma_codes_in_lines(text: Seq<char>, code: Seq<char>)
    requires
        code.len() > 0,
        !code.contains('\n'),
        apart(code, "[REDACTED]"@),
        lines_stay_apart(text),
        occurs(code, redacted_lines(text, Some(code))),
    ensures
        fixed_words_hold(text, code),
    decreases text.len(),
{
    if text.len() == 0 {
        let i = choose|i: int| 0 <= i <= text.len() && begins_with(#[trigger] text.skip(i), code);
        assert(false);
    } else {
        let line = head_line(text);
        lemma_head_line_len(text);
        let after = text.skip(line.len() as int);
        let shown = redacted_line(line, Some(code));
        let rest = redacted_lines(after, Some(code));
        let lines = lines_of(text);
        assert(lines[0] == line);
        assert(lines.skip(1) =~= lines_of(after));
        assert(lines_stay_apart(after)) by {
            assert forall|i: int| 0 <= i < lines_of(after).len() - 1 implies {
                let one = #[trigger] lines_of(after)[i];
                fixed_line(one) is Some || (stripped(one).len() > 0 && stripped(one).last() == '\n')
            } by {
                assert(lines[i + 1] == lines_of(after)[i]);
            }
        }
        law_codes_are_taken_out_of_lines(line, code);
        // The line as it is shown, without its line break.
        let broken = shown.len() > 0 && shown.last() == '\n';
        let bare = if broken {
            shown.drop_last()
        } else {
            shown
        };
        if after.len() > 0 {
            lemma_head_line_end(text);
            assert(lines_of(after).len() > 0);
            if fixed_line(line) is None {
                lemma_replaced_keeps_end(stripped(line), code, "[REDACTED]"@);
            }
            assert(broken);
        }
        if broken {
            assert(shown + rest =~= bare + seq!['\n'] + rest);
            lemma_occurs_on_one_side(code, bare, rest);
        } else {
            assert(rest =~= Seq::<char>::empty());
            assert(shown + rest =~= bare);
        }
        if occurs(code, rest) {
            lemma_codes_in_lines(after, code);
            let i = choose|i: int|
                0 <= i < lines_of(after).len() && (fixed_line(#[trigger] lines_of(after)[i])
                    matches Some(fixed) && occurs(code, fixed));
            assert(lines[i + 1] == lines_of(after)[i]);
        } else {
            assert(occurs(code, bare));
            if fixed_line(line) is None {
                let i = choose|i: int|
                    0 <= i <= bare.len() && begins_with(#[trigger] bare.skip(i), code);
                assert(shown.skip(i).take(code.len() as int) =~= bare.skip(i).take(
                    code.len() as int,
                ));
                assert(begins_with(shown.skip(i), code));
                assert(occurs(code, shown));
            } else {
                lemma_fixed_words_have_no_break();
                assert(bare =~= fixed_line(line)->Some_0);
                assert(fixed_line(lines[0]) matches Some(fixed) && occurs(code, fixed));
            }
        }
    }
}

proof fn lemma_fixed_words_have_no_break()
    ensures
        "Code is: [REDACTED]"@.len() > 0,
        "Code is: [REDACTED]"@.last() == ']',
        "CROC_SECRET=[REDACTED]"@.len() > 0,
        "CROC_SECRET=[REDACTED]"@.last() == ']',
{
    reveal_strlit("Code is: [REDACTED]");
    reveal_strlit("CROC_SECRET=[REDACTED]");
}

/// Output that is shown does not hold the code, as long as the code is one line that is apart from
/// the words that replace it, and no escape sequence joins two lines. The only words that can still
/// spell it are those that never came from the output: what announcing lines are replaced by, and
/// the note that the output was cut.
pub proof fn law_codes_are_taken_out_of_output(text: Seq<char>, code: Seq<char>, truncated: bool)
    requires
        code.len() > 0,
        !code.contains('\n'),
        apart(code, "[REDACTED]"@),
        lines_stay_apart(text),
    ensures
        occurs(code, redacted(text, Some(code), truncated)) ==> fixed_words_hold(text, code) || (
        truncated && occurs(code, "[output truncated]"@)),
{
    let shown = redacted_lines(text, Some(code));
    if occurs(code, redacted(text, Some(code), truncated)) {
        if truncated {
            reveal_strlit("\n[output truncated]");
            reveal_strlit("[output truncated]");
            assert("\n[output truncated]"@ =~= seq!['\n'] + "[output truncated]"@);
            assert(shown + "\n[output truncated]"@ =~= shown + seq!['\n']
                + "[output truncated]"@);
            lemma_occurs_on_one_side(code, shown, "[output truncated]"@);
        }
        if occurs(code, shown) {
            lemma_codes_in_lines(text, code);
        }
    }
}

} // verus!
