//! What is made of the words of the croc program: codes, versions, lines and the end of a run.
use vstd::prelude::*;
use vstd::utf8::encode_utf8;
use crate::backend::{
    BackendAvailability, BackendCapabilities, BackendCapability, BackendError, BackendEventModel,
    BackendOperationError, BackendProtocolError, BackendRequestError, BackendUnavailableReason,
    ReceiveRequest, TransferBackend,
};
use crate::croc::{
    after_bytes, after_chunk, after_end, agreed_code, announces_code, checked_version,
    completion_fault, observed,
    receive_arguments, relay_arguments, secret_of, spawn_error, BoundedOutput, CrocBackend,
    ReaderModel,
};
use crate::croc_text::{
    announced, decoded, occurs, redacted_line, stripped, version_of, version_of_output,
    CrocParseError, CrocVersion,
};
use crate::io_kind::IoErrorKind;
use crate::native::NativeBackend;
use crate::scan::{
    all_digits, before_first, begins_with, law_numbers_are_read_back,
    law_trimming_takes_white_space_only, lemma_one_more_piece, lemma_one_piece, replaced, split_on,
    trimmed,
};
use crate::text::{decimal, is_space, optional_text};

verus! {

/// One word of printable characters.
pub open spec fn one_word(code: Seq<char>) -> bool {
    code.len() > 0 && forall|i: int|
        0 <= i < code.len() ==> !is_space(#[trigger] code[i]) && code[i] as u32 > 0x1f && !(0x7f
            <= code[i] as u32 && code[i] as u32 <= 0x9f)
}

proof fn lemma_nothing_to_strip(text: Seq<char>)
    requires
        forall|i: int| 0 <= i < text.len() ==> #[trigger] text[i] as u32 != 0x1b,
    ensures
        stripped(text) == text,
    decreases text.len(),
{
    if text.len() > 0 {
        assert(text[0] as u32 != 0x1b);
        lemma_nothing_to_strip(text.skip(1));
        assert(seq![text[0]] + text.skip(1) =~= text);
    }
}

/// A line that says `Code is:`, some white space and one word of at most 256 bytes announces that
/// word; with a longer word, or with more than one, it announces nothing that can be used.
#[verifier::spinoff_prover]
pub proof fn law_codes_are_heard(gap: Seq<char>, code: Seq<char>, other: Seq<char>)
    requires
        gap.len() > 0,
        forall|i: int| 0 <= i < gap.len() ==> is_space(#[trigger] gap[i]) && gap[i] as u32 != 0x1b,
        one_word(code),
        one_word(other),
    ensures
        encode_utf8(code).len() <= 256 ==> announced("Code is:"@ + gap + code) == Ok::<
            Option<Seq<char>>,
            CrocParseError,
        >(Some(code)),
        encode_utf8(code).len() > 256 ==> announced("Code is:"@ + gap + code) is Err,
        announced("Code is:"@ + gap + code + gap + other) is Err,
        announced("Code is:"@ + code) is Err,
{
    reveal_strlit("Code is:");
    lemma_announcement(gap + code);
    lemma_announcement(code);
    let both = code + gap + other;
    assert forall|i: int| 0 <= i < both.len() implies #[trigger] both[i] as u32 != 0x1b by {
        if i < code.len() {
            assert(both[i] == code[i]);
        } else if i < code.len() + gap.len() {
            assert(both[i] == gap[i - code.len()]);
        } else {
            assert(both[i] == other[i - code.len() - gap.len()]);
        }
    }
    assert(both[0] == code[0] && both[both.len() - 1] == other[other.len() - 1]);
    assert forall|i: int| 0 <= i < (gap + both).len() implies #[trigger] (gap + both)[i] as u32
        != 0x1b by {
        if i < gap.len() {
            assert((gap + both)[i] == gap[i]);
        } else {
            assert((gap + both)[i] == both[i - gap.len()]);
        }
    }
    lemma_announcement(gap + both);
    assert("Code is:"@ + gap + code =~= "Code is:"@ + (gap + code));
    assert("Code is:"@ + gap + code + gap + other =~= "Code is:"@ + (gap + both));
    law_trimming_takes_white_space_only(gap, code, Seq::empty());
    law_trimming_takes_white_space_only(gap, both, Seq::empty());
    assert(gap + code + Seq::empty() =~= gap + code);
    assert(gap + both + Seq::empty() =~= gap + both);
    assert((gap + code)[0] == gap[0]);
    assert(is_space(gap[0]));
    assert(both[code.len() as int] == gap[0]);
}

/// What an announcement is judged by is what stands behind its first words.
proof fn lemma_announcement(value: Seq<char>)
    requires
        value.len() > 0,
        !is_space(value[value.len() - 1]),
        forall|i: int| 0 <= i < value.len() ==> #[trigger] value[i] as u32 != 0x1b,
    ensures
        trimmed(stripped("Code is:"@ + value)) == "Code is:"@ + value,
        begins_with("Code is:"@ + value, "Code is:"@),
        ("Code is:"@ + value).skip("Code is:"@.len() as int) == value,
{
    reveal_strlit("Code is:");
    let line = "Code is:"@ + value;
    assert forall|i: int| 0 <= i < line.len() implies #[trigger] line[i] as u32 != 0x1b by {
        if i >= 8 {
            assert(line[i] == value[i - 8]);
        }
    }
    lemma_nothing_to_strip(line);
    assert(line[line.len() - 1] == value[value.len() - 1]);
    law_trimming_takes_white_space_only(Seq::empty(), line, Seq::empty());
    assert(line.take(8) =~= "Code is:"@);
    assert(line.skip(8) =~= value);
}

/// A line that begins otherwise than with `Code is:` announces nothing.
pub proof fn law_other_lines_announce_nothing(line: Seq<char>)
    requires
        line.len() > 0,
        !is_space(line[0]),
        !is_space(line[line.len() - 1]),
        forall|i: int| 0 <= i < line.len() ==> #[trigger] line[i] as u32 != 0x1b,
        line.take(8) != "Code is:"@ || line.len() < 8,
    ensures
        announced(line) == Ok::<Option<Seq<char>>, CrocParseError>(None),
{
    reveal_strlit("Code is:");
    lemma_nothing_to_strip(line);
    law_trimming_takes_white_space_only(Seq::empty(), line, Seq::empty());
}

/// The first code is told, the same code again is not, and another one is an error.
pub proof fn law_one_code_is_told_once(code: Seq<char>, known: Seq<char>, line: Seq<char>)
    requires
        announced(line) == Ok::<Option<Seq<char>>, CrocParseError>(Some(code)),
    ensures
        observed(None, line) matches Ok((now, events)) && now == Some(code) && events == seq![
            BackendEventModel::CodeGenerated { code },
        ],
        observed(Some(code), line) matches Ok((now, events)) && now == Some(code) && events.len()
            == 0,
        known != code ==> (observed(Some(known), line) matches Err(error) && error == (
        BackendError::Protocol { reason: BackendProtocolError::MalformedMessage })),
{
}

/// Lines without an announcement change nothing, and one that cannot be understood is an error.
pub proof fn law_other_lines_are_passed_over(known: Option<Seq<char>>, line: Seq<char>)
    ensures
        announced(line) == Ok::<Option<Seq<char>>, CrocParseError>(None) ==> (observed(known, line)
            matches Ok((now, events)) && now == known && events.len() == 0),
        announced(line) is Err ==> observed(known, line) is Err,
{
}

proof fn lemma_within_a_line(reader: ReaderModel, bytes: Seq<u8>)
    requires
        !reader.line_too_long,
        reader.line.len() + bytes.len() <= 16384,
        forall|i: int| 0 <= i < bytes.len() ==> #[trigger] bytes[i] != 10,
    ensures
        after_bytes(reader, bytes) == Ok::<(ReaderModel, Seq<BackendEventModel>), BackendError>(
            (ReaderModel { line: reader.line + bytes, ..reader }, Seq::empty()),
        ),
    decreases bytes.len(),
{
    if bytes.len() > 0 {
        let rest = bytes.drop_last();
        assert forall|i: int| 0 <= i < rest.len() implies #[trigger] rest[i] != 10 by {
            assert(rest[i] == bytes[i]);
        }
        lemma_within_a_line(reader, rest);
        assert(bytes[bytes.len() - 1] == bytes.last());
        assert((reader.line + rest).push(bytes.last()) =~= reader.line + bytes);
    } else {
        assert(reader.line + bytes =~= reader.line);
    }
}

/// A whole line of up to 16384 bytes is judged as the text it says, and the next line begins with
/// nothing left of it.
pub proof fn law_lines_are_judged_as_a_whole(reader: ReaderModel, line: Seq<u8>)
    requires
        reader.line.len() == 0,
        !reader.line_too_long,
        line.len() <= 16384,
        forall|i: int| 0 <= i < line.len() ==> #[trigger] line[i] != 10,
    ensures
        observed(reader.code, decoded(line)) matches Err(error) ==> after_bytes(
            reader,
            line.push(10),
        ) == Err::<(ReaderModel, Seq<BackendEventModel>), BackendError>(error),
        observed(reader.code, decoded(line)) matches Ok((code, events)) ==> (after_bytes(
            reader,
            line.push(10),
        ) matches Ok((next, told)) && told == events && next.code == code && next.line.len() == 0
            && !next.line_too_long),
{
    lemma_within_a_line(reader, line);
    assert(reader.line + line =~= line);
    assert(line.push(10).drop_last() =~= line);
    if let Ok((code, events)) = observed(reader.code, decoded(line)) {
        assert(Seq::<BackendEventModel>::empty() + events =~= events);
    }
}

proof fn lemma_past_a_line(reader: ReaderModel, bytes: Seq<u8>)
    requires
        !reader.line_too_long,
        reader.line.len() == 0,
        bytes.len() > 16384,
        forall|i: int| 0 <= i < bytes.len() ==> #[trigger] bytes[i] != 10,
    ensures
        after_bytes(reader, bytes) == Ok::<(ReaderModel, Seq<BackendEventModel>), BackendError>(
            (
                ReaderModel { line: bytes.take(16384), line_too_long: true, ..reader },
                Seq::empty(),
            ),
        ),
    decreases bytes.len(),
{
    let rest = bytes.drop_last();
    assert forall|i: int| 0 <= i < rest.len() implies #[trigger] rest[i] != 10 by {
        assert(rest[i] == bytes[i]);
    }
    assert(bytes[bytes.len() - 1] == bytes.last());
    if rest.len() > 16384 {
        lemma_past_a_line(reader, rest);
        assert(rest.take(16384) =~= bytes.take(16384));
    } else {
        lemma_within_a_line(reader, rest);
        assert(reader.line + rest =~= bytes.take(16384));
    }
}

/// A line of more bytes than that is passed over, unless it begins like an announcement: a code
/// that cannot be read is an error.
#[verifier::spinoff_prover]
pub proof fn law_long_lines_are_passed_over(reader: ReaderModel, line: Seq<u8>)
    requires
        reader.line.len() == 0,
        !reader.line_too_long,
        line.len() > 16384,
        forall|i: int| 0 <= i < line.len() ==> #[trigger] line[i] != 10,
    ensures
        ({
            let announces = line[0] == 0x43 && line[1] == 0x6f && line[2] == 0x64 && line[3] == 0x65
                && line[4] == 0x20 && line[5] == 0x69 && line[6] == 0x73 && line[7] == 0x3a;
            &&& announces ==> after_bytes(reader, line.push(10)) is Err
            &&& !announces ==> (after_bytes(reader, line.push(10)) matches Ok((next, told))
                && told.len() == 0 && next.code == reader.code && next.line.len() == 0
                && !next.line_too_long)
        }),
{
    lemma_past_a_line(reader, line);
    assert(line.push(10).drop_last() =~= line);
    let kept = line.take(16384);
    let head = kept.take(8);
    let prefix = crate::croc::code_prefix();
    assert(forall|k: int| 0 <= k < 8 ==> #[trigger] head[k] == line[k]);
    if line[0] == 0x43 && line[1] == 0x6f && line[2] == 0x64 && line[3] == 0x65 && line[4] == 0x20
        && line[5] == 0x69 && line[6] == 0x73 && line[7] == 0x3a {
        assert(head =~= prefix);
    } else if announces_code(kept) {
        assert(head[0] == prefix[0] && head[1] == prefix[1] && head[2] == prefix[2] && head[3]
            == prefix[3] && head[4] == prefix[4] && head[5] == prefix[5] && head[6] == prefix[6]
            && head[7] == prefix[7]);
    }
}

/// The versions that can be worked with are those of the line 11.2.
pub proof fn law_supported_versions(version: CrocVersion)
    ensures
        version.supported() <==> version.major == 11 && version.minor == 2,
{
}

proof fn lemma_digits_hold_no(digits: Seq<char>, c: char)
    requires
        all_digits(digits),
        c == '.' || c == '-' || c == 'v' || c == 'c',
    ensures
        !digits.contains(c),
{
    if digits.contains(c) {
        let i = choose|i: int| 0 <= i < digits.len() && digits[i] == c;
        assert(48 <= digits[i] as u32 && digits[i] as u32 <= 57);
    }
}

proof fn lemma_nothing_before(text: Seq<char>, separator: char)
    requires
        !text.contains(separator),
    ensures
        before_first(text, separator) == text,
    decreases text.len(),
{
    if text.len() > 0 {
        assert(text[0] != separator);
        assert forall|i: int| 0 <= i < text.skip(1).len() implies text.skip(1)[i] != separator by {
            assert(text.skip(1)[i] == text[i + 1]);
        }
        lemma_nothing_before(text.skip(1), separator);
        assert(seq![text[0]] + text.skip(1) =~= text);
    }
}

#[verifier::spinoff_prover]
proof fn lemma_version_text(version: CrocVersion)
    ensures
        ({
            let text = version.text();
            &&& text.len() > 0
            &&& 48 <= text[0] as u32 <= 57
            &&& 48 <= text[text.len() - 1] as u32 <= 57
            &&& !text.contains('-')
            &&& split_on(text, '.') == seq![
                decimal(version.major as nat),
                decimal(version.minor as nat),
                decimal(version.patch as nat),
            ]
        }),
{
    reveal_strlit(".");
    let a = decimal(version.major as nat);
    let b = decimal(version.minor as nat);
    let c = decimal(version.patch as nat);
    law_numbers_are_read_back(version.major as nat);
    law_numbers_are_read_back(version.minor as nat);
    law_numbers_are_read_back(version.patch as nat);
    lemma_digits_hold_no(a, '.');
    lemma_digits_hold_no(b, '.');
    lemma_digits_hold_no(c, '.');
    lemma_digits_hold_no(a, '-');
    lemma_digits_hold_no(b, '-');
    lemma_digits_hold_no(c, '-');
    let text = version.text();
    let two = a.push('.') + b;
    assert(text =~= two.push('.') + c);
    lemma_one_piece(a, '.');
    lemma_one_more_piece(a, '.', b);
    lemma_one_more_piece(two, '.', c);
    assert(split_on(text, '.') =~= seq![a, b, c]);
    assert(text[0] == a[0]);
    assert(text[text.len() - 1] == c[c.len() - 1]);
    assert forall|i: int| 0 <= i < text.len() implies text[i] != '-' by {
        if i < a.len() {
            assert(text[i] == a[i]);
            assert(a.contains(a[i]));
        } else if a.len() < i < two.len() {
            assert(text[i] == b[i - a.len() - 1]);
            assert(b.contains(b[i - a.len() - 1]));
        } else if i > two.len() {
            assert(text[i] == c[i - two.len() - 1]);
            assert(c.contains(c[i - two.len() - 1]));
        }
    }
}

/// A version is understood the way the program writes it: behind `croc version ` or `croc `, or
/// alone, with or without a `v` in front.
#[verifier::spinoff_prover]
pub proof fn law_versions_are_understood(version: CrocVersion)
    ensures
        version_of("croc version "@ + version.text()) == Some(version),
        version_of("croc version "@ + ("v"@ + version.text())) == Some(version),
        version_of("croc "@ + version.text()) == Some(version),
        version_of("v"@ + version.text()) == Some(version),
        version_of(version.text()) == Some(version),
{
    reveal_strlit("croc version ");
    reveal_strlit("croc ");
    reveal_strlit("v");
    let text = version.text();
    let marked = "v"@ + text;
    lemma_version_text(version);
    law_numbers_are_read_back(version.major as nat);
    law_numbers_are_read_back(version.minor as nat);
    law_numbers_are_read_back(version.patch as nat);
    lemma_nothing_before(text, '-');
    assert(marked.take(1) =~= "v"@);
    assert(marked.skip(1) =~= text);
    assert(begins_with(marked, "v"@));
    assert(!begins_with(text, "v"@)) by {
        if begins_with(text, "v"@) {
            assert(text.take(1)[0] == text[0]);
        }
    }
    lemma_named_version(text);
    lemma_named_version(marked);
    let last = marked[marked.len() - 1];
    assert(last == text[text.len() - 1]);
}

/// The name of the program in front of a version is passed over.
#[verifier::spinoff_prover]
proof fn lemma_named_version(rest: Seq<char>)
    requires
        rest.len() > 0,
        !is_space(rest[0]),
        !is_space(rest[rest.len() - 1]),
        rest[0] != 'c',
        rest[0] == 'v' ==> rest.len() > 1 && rest[1] as u32 <= 57,
    ensures
        crate::croc_text::version_token("croc version "@ + rest)
            == crate::croc_text::version_token(rest),
        crate::croc_text::version_token("croc "@ + rest) == crate::croc_text::version_token(rest),
{
    reveal_strlit("croc version ");
    reveal_strlit("croc ");
    reveal_strlit("v");
    let long = "croc version "@ + rest;
    let short = "croc "@ + rest;
    law_trimming_takes_white_space_only(Seq::empty(), rest, Seq::empty());
    assert(long[long.len() - 1] == rest[rest.len() - 1]);
    assert(short[short.len() - 1] == rest[rest.len() - 1]);
    law_trimming_takes_white_space_only(Seq::empty(), long, Seq::empty());
    law_trimming_takes_white_space_only(Seq::empty(), short, Seq::empty());
    assert(long.take(13) =~= "croc version "@);
    assert(long.skip(13) =~= rest);
    assert(short.take(5) =~= "croc "@);
    assert(short.skip(5) =~= rest);
    assert(!begins_with(short, "croc version "@)) by {
        if begins_with(short, "croc version "@) {
            assert(short.take(13)[5] == short[5] && short.take(13)[6] == short[6]);
            assert(short[5] == rest[0]);
            assert(short[6] == rest[1]);
        }
    }
    assert(!begins_with(rest, "croc version "@)) by {
        if begins_with(rest, "croc version "@) {
            assert(rest.take(13)[0] == rest[0]);
        }
    }
    assert(!begins_with(rest, "croc "@)) by {
        if begins_with(rest, "croc "@) {
            assert(rest.take(5)[0] == rest[0]);
        }
    }
}

/// A version check passes only after a run that ended well, with output that was seen whole and
/// named a version of the line 11.2.
pub proof fn law_only_supported_versions_pass(
    stdout: BoundedOutput,
    stderr: BoundedOutput,
    success: bool,
)
    ensures
        checked_version(stdout, stderr, success) matches Ok(version) ==> success
            && !stdout.truncated && !stderr.truncated && version.major == 11 && version.minor == 2,
        !success ==> checked_version(stdout, stderr, success) is Err,
        stdout.truncated || stderr.truncated ==> checked_version(stdout, stderr, success) is Err,
{
}

/// A program that is not there is told apart from one that could not be started.
pub proof fn law_missing_programs_are_told(kind: IoErrorKind)
    ensures
        spawn_error(IoErrorKind::NotFound) == (BackendError::Unavailable {
            reason: BackendUnavailableReason::DependencyMissing,
        }),
        kind != IoErrorKind::NotFound ==> spawn_error(kind) == BackendError::Io(kind),
{
}

/// A run is complete exactly if it ended well and announced a code where one was due.
pub proof fn law_complete_runs(success: bool, due: bool, announced_code: bool)
    ensures
        completion_fault(success, due, announced_code) is None <==> success && (due
            ==> announced_code),
        !success ==> completion_fault(success, due, announced_code) == Some(
            BackendError::OperationFailed { reason: BackendOperationError::ExecutionFailed },
        ),
        success && due && !announced_code ==> completion_fault(success, due, announced_code)
            == Some(
            BackendError::Protocol { reason: BackendProtocolError::MissingRequiredSignal },
        ),
{
}

/// The code of a run is the one that either stream announced, whichever it was; two different ones
/// are an error.
pub proof fn law_streams_agree_on_the_code(first: Option<Seq<char>>, second: Option<Seq<char>>)
    ensures
        agreed_code(first, second) == agreed_code(second, first),
        agreed_code(first, None) == Ok::<Option<Seq<char>>, BackendError>(first),
        agreed_code(first, first) == Ok::<Option<Seq<char>>, BackendError>(first),
        first is Some && second is Some && first != second ==> agreed_code(first, second) is Err,
        agreed_code(first, second) matches Ok(code) ==> (code is Some <==> first is Some
            || second is Some),
{
}

/// What is kept out of the output is the announced code, or else the secret of the run.
pub proof fn law_some_secret_is_kept_out(code: Option<Seq<char>>, secret: Option<Seq<char>>)
    ensures
        code is Some ==> secret_of(code, secret) == code,
        code is None ==> secret_of(code, secret) == secret,
{
}

/// A run that receives is told to ask nothing, to leave the clipboard alone and where the files go,
/// at its end and in this order; it is refused only for want of a code.
pub proof fn law_received_files_go_to_the_directory(backend: CrocBackend, request: ReceiveRequest)
    ensures
        receive_arguments(backend, request) is Ok <==> exists|i: int|
            0 <= i < request.code@.len() && !is_space(#[trigger] request.code@[i]),
        receive_arguments(backend, request) matches Err(error) ==> error
            == BackendError::InvalidRequest(BackendRequestError::EmptyCode),
        receive_arguments(backend, request) matches Ok(args) ==> {
            &&& args.len() >= 4
            &&& args[args.len() - 1] == request.output_directory@
            &&& args[args.len() - 2] == "--out"@
            &&& args[args.len() - 3] == "--disable-clipboard"@
            &&& args[args.len() - 4] == "--yes"@
            &&& optional_text(request.relay) matches Some(relay) ==> args.len() == 6 && args[0]
                == "--relay"@ && args[1] == relay
            &&& request.relay is None && backend.relay_spec() is None ==> args.len() == 4
            &&& request.relay is None ==> (backend.relay_spec() matches Some(relay) ==> args.len()
                == 6 && args[0] == "--relay"@ && args[1] == relay)
        },
{
    let relay = relay_arguments(optional_text(request.relay), backend.relay_spec());
    if let Ok(args) = receive_arguments(backend, request) {
        assert(args.len() == relay.len() + 4);
    }
}

/// A chunk of output does to the lines what its bytes do, and its first bytes are kept as far as
/// there is room, up to 65536 bytes in all.
pub proof fn law_output_is_kept_up_to_a_limit(reader: ReaderModel, chunk: Seq<u8>)
    requires
        reader.output.len() <= 65536,
    ensures
        after_chunk(reader, chunk) matches Ok((next, events)) ==> {
            let room = 65536 - reader.output.len();
            &&& chunk.len() <= room ==> next.output == reader.output + chunk && next.truncated
                == reader.truncated
            &&& chunk.len() > room ==> next.output == reader.output + chunk.take(room)
                && next.truncated
        },
        after_chunk(reader, chunk) is Err <==> after_bytes(reader, chunk) is Err,
        after_chunk(reader, chunk) matches Ok((next, events)) ==> (after_bytes(reader, chunk)
            matches Ok((same, told)) && told == events && same.code == next.code && same.line
            == next.line && same.line_too_long == next.line_too_long),
{
    let kept = ReaderModel {
        output: crate::croc::kept_with(reader.output, chunk, 65536),
        truncated: reader.truncated || chunk.len() > 65536 - reader.output.len(),
        ..reader
    };
    lemma_lines_alone(reader, kept, chunk);
    if chunk.len() > 65536 - reader.output.len() && reader.output.len() == 65536 {
        assert(reader.output + chunk.take(0) =~= reader.output);
    }
}

/// What the bytes of a stream do to its lines does not depend on what is kept of it, nor change it.
proof fn lemma_lines_alone(a: ReaderModel, b: ReaderModel, bytes: Seq<u8>)
    requires
        a.line == b.line,
        a.code == b.code,
        a.line_too_long == b.line_too_long,
    ensures
        match (after_bytes(a, bytes), after_bytes(b, bytes)) {
            (Ok((x, told)), Ok((y, same))) => told == same && x.line == y.line && x.code == y.code
                && x.line_too_long == y.line_too_long && y.output == b.output && y.truncated
                == b.truncated,
            (Err(error), Err(other)) => error == other,
            _ => false,
        },
    decreases bytes.len(),
{
    if bytes.len() > 0 {
        lemma_lines_alone(a, b, bytes.drop_last());
    }
}

/// A last line without a line break still counts, unless it is too long.
pub proof fn law_last_lines_count(reader: ReaderModel)
    ensures
        reader.line.len() > 0 && !reader.line_too_long ==> after_end(reader) == observed(
            reader.code,
            decoded(reader.line),
        ),
        reader.line.len() == 0 || reader.line_too_long ==> after_end(reader) == Ok::<
            (Option<Seq<char>>, Seq<BackendEventModel>),
            BackendError,
        >((reader.code, Seq::empty())),
{
}

/// A control sequence of a terminal, from its escape character to its first letter, is taken out of
/// a text, and nothing else is.
pub proof fn law_control_sequences_are_taken_out(
    before: Seq<char>,
    inner: Seq<char>,
    end: char,
    after: Seq<char>,
)
    requires
        forall|i: int| 0 <= i < before.len() ==> #[trigger] before[i] as u32 != 0x1b,
        forall|i: int|
            0 <= i < inner.len() ==> !(97 <= #[trigger] inner[i] as u32 && inner[i] as u32 <= 122)
                && !(65 <= inner[i] as u32 && inner[i] as u32 <= 90),
        (97 <= end as u32 && end as u32 <= 122) || (65 <= end as u32 && end as u32 <= 90),
    ensures
        stripped(before + (seq!['\u{1b}', '['] + inner.push(end) + after)) == before + stripped(
            after,
        ),
        stripped(before) == before,
    decreases before.len(),
{
    lemma_nothing_to_strip(before);
    let escape = seq!['\u{1b}', '['] + inner.push(end) + after;
    let text = before + escape;
    if before.len() > 0 {
        assert(text[0] == before[0]);
        assert(before[0] as u32 != 0x1b);
        assert(text.skip(1) =~= before.skip(1) + escape);
        law_control_sequences_are_taken_out(before.skip(1), inner, end, after);
        assert(seq![before[0]] + (before.skip(1) + stripped(after)) =~= before + stripped(after));
    } else {
        assert(text =~= escape);
        assert(text[0] == '\u{1b}' && text[1] == '[');
        assert(text.skip(2) =~= inner.push(end) + after);
        lemma_control_ends(inner, end, after);
        assert(before + stripped(after) =~= stripped(after));
    }
}

proof fn lemma_control_ends(inner: Seq<char>, end: char, after: Seq<char>)
    requires
        forall|i: int|
            0 <= i < inner.len() ==> !(97 <= #[trigger] inner[i] as u32 && inner[i] as u32 <= 122)
                && !(65 <= inner[i] as u32 && inner[i] as u32 <= 90),
        (97 <= end as u32 && end as u32 <= 122) || (65 <= end as u32 && end as u32 <= 90),
    ensures
        crate::croc_text::after_control(inner.push(end) + after) == after,
    decreases inner.len(),
{
    let text = inner.push(end) + after;
    if inner.len() > 0 {
        assert(text[0] == inner[0]);
        assert(text.skip(1) =~= inner.skip(1).push(end) + after);
        lemma_control_ends(inner.skip(1), end, after);
    } else {
        assert(text[0] == end);
        assert(text.skip(1) =~= after);
    }
}

/// The first line of some output that names a version decides; lines before it are passed over.
pub proof fn law_first_version_counts(line: Seq<u8>, rest: Seq<u8>)
    requires
        forall|i: int| 0 <= i < line.len() ==> #[trigger] line[i] != 10,
    ensures
        version_of(decoded(line)) is Some ==> version_of_output(line.push(10) + rest) == version_of(
            decoded(line),
        ),
        version_of(decoded(line)) is None ==> version_of_output(line.push(10) + rest)
            == version_of_output(rest),
        version_of_output(line) == version_of(decoded(line)),
{
    let all = line.push(10) + rest;
    lemma_first_line(line, rest);
    assert(all.skip(line.len() as int + 1) =~= rest);
}

proof fn lemma_first_line(line: Seq<u8>, rest: Seq<u8>)
    requires
        forall|i: int| 0 <= i < line.len() ==> #[trigger] line[i] != 10,
    ensures
        crate::croc_text::first_line(line.push(10) + rest) == line,
        crate::croc_text::first_line(line) == line,
    decreases line.len(),
{
    let all = line.push(10) + rest;
    if line.len() > 0 {
        assert(all[0] == line[0]);
        assert(line[0] != 10);
        assert(all.skip(1) =~= line.skip(1).push(10) + rest);
        lemma_first_line(line.skip(1), rest);
        assert(seq![line[0]] + line.skip(1) =~= line);
    } else {
        assert(all[0] == 10);
        assert(line =~= Seq::<u8>::empty());
    }
}

proof fn lemma_nothing_to_replace(text: Seq<char>, pattern: Seq<char>, by: Seq<char>)
    requires
        pattern.len() > 0,
        !occurs(pattern, text),
    ensures
        replaced(text, pattern, by) == text,
    decreases text.len(),
{
    if text.len() > 0 {
        assert(text.skip(0) =~= text);
        let rest = text.skip(1);
        assert(!occurs(pattern, rest)) by {
            if occurs(pattern, rest) {
                let i = choose|i: int|
                    0 <= i <= rest.len() && begins_with(#[trigger] rest.skip(i), pattern);
                assert(rest.skip(i) =~= text.skip(i + 1));
                assert(begins_with(text.skip(i + 1), pattern));
            }
        }
        lemma_nothing_to_replace(rest, pattern, by);
        assert(seq![text[0]] + rest =~= text);
    }
}

/// A line without a secret is shown as it is, without its control sequences; one that announces a
/// code, or sets the secret, shows only that it does.
pub proof fn law_lines_without_a_secret_are_shown(line: Seq<char>, code: Seq<char>)
    requires
        code.len() > 0,
        line.len() > 0,
        !is_space(line[0]),
        forall|i: int| 0 <= i < line.len() ==> #[trigger] line[i] as u32 != 0x1b,
        line[line.len() - 1] != '\n',
    ensures
        line.len() >= 8 && line.take(8) == "Code is:"@ ==> redacted_line(line, Some(code))
            == "Code is: [REDACTED]"@,
        line.len() >= 12 && line.take(12) == "CROC_SECRET="@ ==> redacted_line(line, Some(code))
            == "CROC_SECRET=[REDACTED]"@,
        line[0] != 'C' && !occurs(code, line) ==> redacted_line(line, Some(code)) == line,
        line[0] != 'C' ==> redacted_line(line, None) == line,
{
    reveal_strlit("Code is:");
    reveal_strlit("CROC_SECRET=");
    lemma_nothing_to_strip(line);
    assert(crate::scan::trimmed_start(line) == line);
    assert("Code is: [REDACTED]"@ + Seq::<char>::empty() =~= "Code is: [REDACTED]"@);
    assert("CROC_SECRET=[REDACTED]"@ + Seq::<char>::empty() =~= "CROC_SECRET=[REDACTED]"@);
    if line[0] != 'C' {
        assert(!begins_with(line, "Code is:"@)) by {
            if begins_with(line, "Code is:"@) {
                assert(line.take(8)[0] == line[0]);
            }
        }
        assert(!begins_with(line, "CROC_SECRET="@)) by {
            if begins_with(line, "CROC_SECRET="@) {
                assert(line.take(12)[0] == line[0]);
            }
        }
        if !occurs(code, line) {
            lemma_nothing_to_replace(line, code, "[REDACTED]"@);
        }
    }
    if line.len() >= 8 && line.take(8) == "Code is:"@ {
        assert(begins_with(line, "Code is:"@));
    }
    if line.len() >= 12 && line.take(12) == "CROC_SECRET="@ {
        assert(line.take(12)[1] == line[1]);
        assert(!begins_with(line, "Code is:"@)) by {
            if begins_with(line, "Code is:"@) {
                assert(line.take(8)[1] == line[1]);
            }
        }
    }
}

/// An escape character takes the character after it along, and one at the end goes alone.
pub proof fn law_short_escapes_are_taken_out(c: char, after: Seq<char>)
    requires
        c != '[',
    ensures
        stripped(seq!['\u{1b}', c] + after) == stripped(after),
        stripped(seq!['\u{1b}']) == Seq::<char>::empty(),
{
    let text = seq!['\u{1b}', c] + after;
    assert(text[0] == '\u{1b}' && text[1] == c);
    assert(text.skip(2) =~= after);
}

/// A word with a control character in it is no code.
pub proof fn law_control_characters_make_no_code(code: Seq<char>, place: int)
    requires
        0 <= place < code.len(),
        code[place] as u32 <= 0x1f || (0x7f <= code[place] as u32 && code[place] as u32 <= 0x9f),
        forall|i: int|
            0 <= i < code.len() ==> !is_space(#[trigger] code[i]) && code[i] as u32 != 0x1b,
    ensures
        announced("Code is:"@ + (seq![' '] + code)) is Err,
{
    reveal_strlit("Code is:");
    let value = seq![' '] + code;
    assert forall|i: int| 0 <= i < value.len() implies #[trigger] value[i] as u32 != 0x1b by {
        if i > 0 {
            assert(value[i] == code[i - 1]);
        }
    }
    assert(value[value.len() - 1] == code[code.len() - 1]);
    lemma_announcement(value);
    law_trimming_takes_white_space_only(seq![' '], code, Seq::empty());
    assert(seq![' '] + code + Seq::empty() =~= value);
    assert(!is_space(code[place]));
}

/// The program connects directly and by relay; it reports no progress, and it can be neither paused
/// nor resumed. The backend of the library's own protocol can do nothing yet, and says so.
pub proof fn law_what_backends_can_do(croc: CrocBackend, native: NativeBackend)
    ensures
        croc.info_spec().capabilities.has(BackendCapability::Direct),
        croc.info_spec().capabilities.has(BackendCapability::Relay),
        !croc.info_spec().capabilities.has(BackendCapability::Progress),
        !croc.info_spec().capabilities.has(BackendCapability::Pause),
        !croc.info_spec().capabilities.has(BackendCapability::Resume),
        croc.info_spec().availability == BackendAvailability::Ready,
        forall|capability: BackendCapability| !native.info_spec().capabilities.has(capability),
        native.info_spec().availability == (BackendAvailability::Unavailable {
            reason: BackendUnavailableReason::NotImplemented,
        }),
{
    broadcast use BackendCapabilities::law_declared_capabilities;

}

} // verus!
