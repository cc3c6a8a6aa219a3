//! Running the croc program: its arguments, its output and the end of its run.
use vstd::prelude::*;
use vstd::utf8::encode_utf8;
use crate::backend::{
    BackendAvailability, BackendCapabilities, BackendError, BackendEvent, BackendEventModel,
    BackendInfo, BackendOperationError, BackendProtocolError,
    BackendRequestError, BackendUnavailableReason, ReceiveRequest, SendRequest, TransferBackend,
};
use crate::croc_text::{
    announced, decode_lossy, decoded, parse_croc_line, parse_croc_version, redact_output,
    redacted, version_of_output, CrocVersion,
};
use crate::io_kind::IoErrorKind;
use crate::resume::texts;
use crate::text::{blank, is_blank, optional_text, same_text};
use crate::wire::encode::append_bytes;

verus! {

pub const SUPPORTED_CROC_VERSION_RANGE: &'static str = "11.2.x";

/// How much of the output of a run is kept.
pub const DIAGNOSTIC_LIMIT: usize = 65536;

/// How long a line may be to be looked at.
pub const LINE_LIMIT: usize = 16384;

/// How much of the output of a version check is kept.
pub const VERSION_OUTPUT_LIMIT: usize = 8192;

const PREFLIGHT_LIMIT_MS: u64 = 5_000;

const DEFAULT_TIMEOUT_MS: u64 = 1_800_000;

pub struct CrocBackend {
    executable: String,
    relay: Option<String>,
    timeout_ms: u64,
}

impl Default for CrocBackend {
    fn default() -> (backend: Self)
        ensures
            backend.executable_spec() == "croc"@,
            backend.relay_spec() is None,
            backend.timeout_spec() == 1_800_000,
    {
        Self::new("croc")
    }
}

/// The relay option of a run: the relay of the request, or else the backend's own.
pub open spec fn relay_arguments(request: Option<Seq<char>>, fallback: Option<Seq<char>>) -> Seq<
    Seq<char>,
> {
    match (request, fallback) {
        (Some(relay), _) | (None, Some(relay)) => seq!["--relay"@, relay],
        (None, None) => Seq::empty(),
    }
}

pub open spec fn send_arguments(backend: CrocBackend, request: SendRequest) -> Result<
    Seq<Seq<char>>,
    BackendError,
> {
    if request.paths@.len() == 0 {
        Err(BackendError::InvalidRequest(BackendRequestError::EmptyPaths))
    } else {
        Ok(
            relay_arguments(optional_text(request.relay), backend.relay_spec()) + seq![
                "--disable-clipboard"@,
                "send"@,
            ] + texts(request.paths@),
        )
    }
}

pub open spec fn receive_arguments(backend: CrocBackend, request: ReceiveRequest) -> Result<
    Seq<Seq<char>>,
    BackendError,
> {
    if blank(request.code@) {
        Err(BackendError::InvalidRequest(BackendRequestError::EmptyCode))
    } else {
        Ok(
            relay_arguments(optional_text(request.relay), backend.relay_spec()) + seq![
                "--yes"@,
                "--disable-clipboard"@,
                "--out"@,
                request.output_directory@,
            ],
        )
    }
}

fn push_text(list: &mut Vec<String>, text: &str)
    ensures
        texts(final(list)@) == texts(old(list)@).push(text@),
{
    let ghost before = list@;
    let copy = text.to_owned();
    list.push(copy);
    assert(texts(list@) =~= texts(before).push(text@));
}

impl CrocBackend {
    pub closed spec fn executable_spec(self) -> Seq<char> {
        self.executable@
    }

    pub closed spec fn relay_spec(self) -> Option<Seq<char>> {
        optional_text(self.relay)
    }

    /// The longest run that is waited for, in milliseconds.
    pub closed spec fn timeout_spec(self) -> u64 {
        self.timeout_ms
    }

    pub fn new(executable: &str) -> (backend: Self)
        ensures
            backend.executable_spec() == executable@,
            backend.relay_spec() is None,
            backend.timeout_spec() == 1_800_000,
    {
        Self { executable: executable.to_owned(), relay: None, timeout_ms: DEFAULT_TIMEOUT_MS }
    }

    pub fn with_relay(self, relay: &str) -> (backend: Self)
        ensures
            backend.executable_spec() == self.executable_spec(),
            backend.relay_spec() == Some(relay@),
            backend.timeout_spec() == self.timeout_spec(),
    {
        Self {
            executable: self.executable,
            relay: Some(relay.to_owned()),
            timeout_ms: self.timeout_ms,
        }
    }

    pub fn with_timeout(self, timeout_ms: u64) -> (backend: Self)
        ensures
            backend.executable_spec() == self.executable_spec(),
            backend.relay_spec() == self.relay_spec(),
            backend.timeout_spec() == timeout_ms,
    {
        Self { executable: self.executable, relay: self.relay, timeout_ms }
    }

    pub fn executable(&self) -> (executable: &String)
        ensures
            executable@ == self.executable_spec(),
    {
        &self.executable
    }

    pub fn timeout_ms(&self) -> (timeout_ms: u64)
        ensures
            timeout_ms == self.timeout_spec(),
    {
        self.timeout_ms
    }

    /// The longest version check that is waited for, in milliseconds.
    pub fn preflight_timeout(&self) -> (timeout_ms: u64)
        ensures
            timeout_ms == 5_000,
    {
        PREFLIGHT_LIMIT_MS
    }

    pub fn relay_configured(&self) -> (configured: bool)
        ensures
            configured == self.relay_spec() is Some,
    {
        self.relay.is_some()
    }

    fn relay_args(&self, request_relay: &Option<String>) -> (args: Vec<String>)
        ensures
            texts(args@) == relay_arguments(optional_text(*request_relay), self.relay_spec()),
    {
        let mut args: Vec<String> = Vec::new();
        let relay = match request_relay {
            Some(relay) => Some(relay),
            None => match &self.relay {
                Some(relay) => Some(relay),
                None => None,
            },
        };
        if let Some(relay) = relay {
            push_text(&mut args, "--relay");
            push_text(&mut args, relay.as_str());
        }
        assert(texts(args@) =~= relay_arguments(optional_text(*request_relay), self.relay_spec()));
        args
    }

    /// The arguments of a run that sends.
    pub fn send_args(&self, request: &SendRequest) -> (result: Result<Vec<String>, BackendError>)
        ensures
            match result {
                Ok(args) => send_arguments(*self, *request) == Ok::<Seq<Seq<char>>, BackendError>(
                    texts(args@),
                ),
                Err(error) => send_arguments(*self, *request) == Err::<
                    Seq<Seq<char>>,
                    BackendError,
                >(error),
            },
    {
        if request.paths.is_empty() {
            return Err(BackendError::InvalidRequest(BackendRequestError::EmptyPaths));
        }
        let mut args = self.relay_args(&request.relay);
        push_text(&mut args, "--disable-clipboard");
        push_text(&mut args, "send");
        let ghost start = texts(args@);
        let mut i: usize = 0;
        while i < request.paths.len()
            invariant
                i <= request.paths@.len(),
                texts(args@) == start + texts(request.paths@).take(i as int),
            decreases request.paths@.len() - i,
        {
            push_text(&mut args, request.paths[i].as_str());
            assert(texts(args@) =~= start + texts(request.paths@).take(i as int + 1));
            i = i + 1;
        }
        assert(texts(request.paths@).take(i as int) =~= texts(request.paths@));
        assert(texts(args@) =~= relay_arguments(optional_text(request.relay), self.relay_spec())
            + seq!["--disable-clipboard"@, "send"@] + texts(request.paths@));
        Ok(args)
    }

    /// The arguments of a run that receives. The code is not among them.
    pub fn receive_args(&self, request: &ReceiveRequest) -> (result: Result<
        Vec<String>,
        BackendError,
    >)
        ensures
            match result {
                Ok(args) => receive_arguments(*self, *request) == Ok::<
                    Seq<Seq<char>>,
                    BackendError,
                >(texts(args@)),
                Err(error) => receive_arguments(*self, *request) == Err::<
                    Seq<Seq<char>>,
                    BackendError,
                >(error),
            },
    {
        if is_blank(request.code.as_str()) {
            return Err(BackendError::InvalidRequest(BackendRequestError::EmptyCode));
        }
        let mut args = self.relay_args(&request.relay);
        push_text(&mut args, "--yes");
        push_text(&mut args, "--disable-clipboard");
        push_text(&mut args, "--out");
        push_text(&mut args, request.output_directory.as_str());
        assert(texts(args@) =~= relay_arguments(optional_text(request.relay), self.relay_spec())
            + seq!["--yes"@, "--disable-clipboard"@, "--out"@, request.output_directory@]);
        Ok(args)
    }
}

impl TransferBackend for CrocBackend {
    open spec fn info_spec(&self) -> BackendInfo {
        BackendInfo {
            name: "croc",
            version: Some("11.2.x"),
            capabilities: BackendCapabilities::of(false, false, false, true, true),
            availability: BackendAvailability::Ready,
        }
    }

    fn name(&self) -> (name: &'static str) {
        "croc"
    }

    fn version(&self) -> (version: Option<&'static str>) {
        Some(SUPPORTED_CROC_VERSION_RANGE)
    }

    fn capabilities(&self) -> (capabilities: BackendCapabilities) {
        BackendCapabilities::new(false, false, false).with_connection_modes(true, true)
    }

    fn availability(&self) -> (availability: BackendAvailability) {
        BackendAvailability::Ready
    }
}

/// Which executables cannot be started at all, and which fail later.
pub open spec fn spawn_error(kind: IoErrorKind) -> BackendError {
    if kind == IoErrorKind::NotFound {
        BackendError::Unavailable { reason: BackendUnavailableReason::DependencyMissing }
    } else {
        BackendError::Io(kind)
    }
}

pub fn map_spawn_error(kind: IoErrorKind) -> (error: BackendError)
    ensures
        error == spawn_error(kind),
{
    if kind == IoErrorKind::NotFound {
        BackendError::Unavailable { reason: BackendUnavailableReason::DependencyMissing }
    } else {
        BackendError::Io(kind)
    }
}

/// The first bytes of a stream, up to a limit, and whether there were more.
pub struct BoundedOutput {
    pub bytes: Vec<u8>,
    pub truncated: bool,
}

/// What is kept of a chunk that comes after what is kept already.
pub open spec fn kept_with(kept: Seq<u8>, chunk: Seq<u8>, limit: usize) -> Seq<u8> {
    if kept.len() + chunk.len() <= limit {
        kept + chunk
    } else if kept.len() < limit {
        kept + chunk.take(limit - kept.len())
    } else {
        kept
    }
}

/// The first `limit` bytes of `all` are kept, and it is known whether there are more.
pub open spec fn keeps(kept: Seq<u8>, truncated: bool, all: Seq<u8>, limit: usize) -> bool {
    &&& kept == (if all.len() <= limit {
        all
    } else {
        all.take(limit as int)
    })
    &&& truncated == (all.len() > limit)
}

/// Keeping chunk by chunk is keeping the first bytes of all chunks together.
pub proof fn law_bounded_output(
    kept: Seq<u8>,
    truncated: bool,
    all: Seq<u8>,
    chunk: Seq<u8>,
    limit: usize,
)
    requires
        keeps(kept, truncated, all, limit),
    ensures
        keeps(
            kept_with(kept, chunk, limit),
            truncated || chunk.len() > limit - kept.len(),
            all + chunk,
            limit,
        ),
{
    let whole = all + chunk;
    if whole.len() <= limit {
        assert(kept_with(kept, chunk, limit) =~= whole);
    } else {
        assert(kept_with(kept, chunk, limit) =~= whole.take(limit as int));
    }
}

fn keep_chunk(kept: &mut Vec<u8>, chunk: &[u8], limit: usize) -> (overflow: bool)
    requires
        old(kept)@.len() <= limit,
    ensures
        final(kept)@ == kept_with(old(kept)@, chunk@, limit),
        final(kept)@.len() <= limit,
        overflow == (chunk@.len() > limit - old(kept)@.len()),
{
    let room: usize = limit - kept.len();
    if chunk.len() <= room {
        append_bytes(kept, chunk);
        return false;
    }
    let head = vstd::slice::slice_subrange(chunk, 0, room);
    append_bytes(kept, head);
    assert(kept@ =~= kept_with(old(kept)@, chunk@, limit));
    true
}

impl BoundedOutput {
    pub fn new() -> (output: Self)
        ensures
            output.bytes@ == Seq::<u8>::empty(),
            !output.truncated,
    {
        Self { bytes: Vec::new(), truncated: false }
    }

    /// Takes the next chunk of the stream.
    pub fn absorb(&mut self, chunk: &[u8], limit: usize)
        requires
            old(self).bytes@.len() <= limit,
        ensures
            final(self).bytes@ == kept_with(old(self).bytes@, chunk@, limit),
            final(self).bytes@.len() <= limit,
            final(self).truncated == (old(self).truncated || chunk@.len() > limit - old(
                self,
            ).bytes@.len()),
    {
        if keep_chunk(&mut self.bytes, chunk, limit) {
            self.truncated = true;
        }
    }
}

/// What a version check gives: the version, if the program said which it is and it is one that can
/// be used.
pub open spec fn checked_version(
    stdout: BoundedOutput,
    stderr: BoundedOutput,
    success: bool,
) -> Result<CrocVersion, BackendErrorModel> {
    if stdout.truncated || stderr.truncated {
        Err(
            BackendErrorModel::Plain(
                BackendError::OperationFailed { reason: BackendOperationError::ResourceLimit },
            ),
        )
    } else if !success {
        Err(
            BackendErrorModel::Plain(
                BackendError::Protocol { reason: BackendProtocolError::VersionCheckFailed },
            ),
        )
    } else {
        match version_of_output(stdout.bytes@ + stderr.bytes@) {
            None => Err(
                BackendErrorModel::Plain(
                    BackendError::Protocol { reason: BackendProtocolError::UnrecognizedVersion },
                ),
            ),
            Some(version) => if version.supported() {
                Ok(version)
            } else {
                Err(BackendErrorModel::IncompatibleVersion { found: version.text() })
            },
        }
    }
}

/// An error, with the version found by its text.
pub enum BackendErrorModel {
    Plain(BackendError),
    IncompatibleVersion { found: Seq<char> },
}

pub open spec fn is_error(error: BackendError, model: BackendErrorModel) -> bool {
    match model {
        BackendErrorModel::Plain(plain) => error == plain,
        BackendErrorModel::IncompatibleVersion { found } => error
            matches BackendError::IncompatibleVersion { found: text, supported } && text@ == found
            && supported@ == "11.2.x"@,
    }
}

/// Judges the output and exit of a version check.
pub fn check_version(stdout: &BoundedOutput, stderr: &BoundedOutput, success: bool) -> (result:
    Result<CrocVersion, BackendError>)
    ensures
        match checked_version(*stdout, *stderr, success) {
            Ok(version) => result == Ok::<CrocVersion, BackendError>(version),
            Err(model) => result matches Err(error) && is_error(error, model),
        },
{
    if stdout.truncated || stderr.truncated {
        return Err(BackendError::OperationFailed { reason: BackendOperationError::ResourceLimit });
    }
    if !success {
        return Err(BackendError::Protocol { reason: BackendProtocolError::VersionCheckFailed });
    }
    let mut output: Vec<u8> = Vec::new();
    append_bytes(&mut output, &stdout.bytes);
    append_bytes(&mut output, &stderr.bytes);
    assert(output@ =~= stdout.bytes@ + stderr.bytes@);
    match parse_croc_version(&output) {
        None => Err(BackendError::Protocol { reason: BackendProtocolError::UnrecognizedVersion }),
        Some(version) => if version.is_supported() {
            Ok(version)
        } else {
            Err(
                BackendError::IncompatibleVersion {
                    found: version.to_text(),
                    supported: SUPPORTED_CROC_VERSION_RANGE,
                },
            )
        },
    }
}

/// What was read of one output stream of a run.
pub struct OutputCapture {
    pub bytes: Vec<u8>,
    pub code: Option<String>,
    pub truncated: bool,
}

/// Reads one output stream: keeps its first bytes and watches its lines for a transfer code.
pub struct OutputReader {
    output: Vec<u8>,
    line: Vec<u8>,
    code: Option<String>,
    line_too_long: bool,
    truncated: bool,
}

#[verifier::ext_equal]
pub struct ReaderModel {
    pub output: Seq<u8>,
    pub line: Seq<u8>,
    pub code: Option<Seq<char>>,
    pub line_too_long: bool,
    pub truncated: bool,
}

impl View for OutputReader {
    type V = ReaderModel;

    closed spec fn view(&self) -> ReaderModel {
        ReaderModel {
            output: self.output@,
            line: self.line@,
            code: optional_text(self.code),
            line_too_long: self.line_too_long,
            truncated: self.truncated,
        }
    }
}

pub open spec fn garbled() -> BackendError {
    BackendError::Protocol { reason: BackendProtocolError::MalformedMessage }
}

/// What a line adds to the code known so far. A second code must be the first one again.
pub open spec fn observed(code: Option<Seq<char>>, line: Seq<char>) -> Result<
    (Option<Seq<char>>, Seq<BackendEventModel>),
    BackendError,
> {
    match announced(line) {
        Err(_) => Err(garbled()),
        Ok(None) => Ok((code, Seq::empty())),
        Ok(Some(found)) => match code {
            None => Ok((Some(found), seq![BackendEventModel::CodeGenerated { code: found }])),
            Some(previous) => if previous == found {
                Ok((code, Seq::empty()))
            } else {
                Err(garbled())
            },
        },
    }
}

/// "Code is:" in bytes.
pub open spec fn code_prefix() -> Seq<u8> {
    seq![0x43u8, 0x6fu8, 0x64u8, 0x65u8, 0x20u8, 0x69u8, 0x73u8, 0x3au8]
}

pub open spec fn announces_code(line: Seq<u8>) -> bool {
    line.len() >= 8 && line.take(8) == code_prefix()
}

/// One byte of output.
pub open spec fn after_byte(reader: ReaderModel, byte: u8) -> Result<
    (ReaderModel, Seq<BackendEventModel>),
    BackendError,
> {
    let next_line = ReaderModel { line: Seq::empty(), line_too_long: false, ..reader };
    if byte == 10 {
        if reader.line_too_long {
            if announces_code(reader.line) {
                Err(garbled())
            } else {
                Ok((next_line, Seq::empty()))
            }
        } else {
            match observed(reader.code, decoded(reader.line)) {
                Err(error) => Err(error),
                Ok((code, events)) => Ok((ReaderModel { code, ..next_line }, events)),
            }
        }
    } else if reader.line_too_long {
        Ok((reader, Seq::empty()))
    } else if reader.line.len() == LINE_LIMIT {
        Ok((ReaderModel { line_too_long: true, ..reader }, Seq::empty()))
    } else {
        Ok((ReaderModel { line: reader.line.push(byte), ..reader }, Seq::empty()))
    }
}

/// Several bytes of output, one after the other.
pub open spec fn after_bytes(reader: ReaderModel, bytes: Seq<u8>) -> Result<
    (ReaderModel, Seq<BackendEventModel>),
    BackendError,
>
    decreases bytes.len(),
{
    if bytes.len() == 0 {
        Ok((reader, Seq::empty()))
    } else {
        match after_bytes(reader, bytes.drop_last()) {
            Err(error) => Err(error),
            Ok((middle, earlier)) => match after_byte(middle, bytes.last()) {
                Err(error) => Err(error),
                Ok((last, events)) => Ok((last, earlier + events)),
            },
        }
    }
}

/// A chunk of output: its lines are watched, and what fits is kept.
pub open spec fn after_chunk(reader: ReaderModel, chunk: Seq<u8>) -> Result<
    (ReaderModel, Seq<BackendEventModel>),
    BackendError,
> {
    after_bytes(
        ReaderModel {
            output: kept_with(reader.output, chunk, DIAGNOSTIC_LIMIT),
            truncated: reader.truncated || chunk.len() > DIAGNOSTIC_LIMIT - reader.output.len(),
            ..reader
        },
        chunk,
    )
}

/// The end of the stream: a last line without a line break still counts.
pub open spec fn after_end(reader: ReaderModel) -> Result<
    (Option<Seq<char>>, Seq<BackendEventModel>),
    BackendError,
> {
    if reader.line.len() > 0 && !reader.line_too_long {
        observed(reader.code, decoded(reader.line))
    } else {
        Ok((reader.code, Seq::empty()))
    }
}

pub open spec fn event_models(events: Seq<BackendEvent>) -> Seq<BackendEventModel> {
    events.map_values(|event: BackendEvent| event@)
}

proof fn lemma_after_bytes_error(reader: ReaderModel, bytes: Seq<u8>, count: int)
    requires
        0 <= count <= bytes.len(),
        after_bytes(reader, bytes.take(count)) is Err,
    ensures
        after_bytes(reader, bytes) == after_bytes(reader, bytes.take(count)),
    decreases bytes.len(),
{
    if count < bytes.len() {
        assert(bytes.drop_last().take(count) =~= bytes.take(count));
        lemma_after_bytes_error(reader, bytes.drop_last(), count);
    } else {
        assert(bytes.take(count) =~= bytes);
    }
}

fn starts_with_code_prefix(line: &Vec<u8>) -> (starts: bool)
    ensures
        starts == announces_code(line@),
{
    if line.len() < 8 {
        return false;
    }
    let found = line[0] == 0x43 && line[1] == 0x6f && line[2] == 0x64 && line[3] == 0x65 && line[4]
        == 0x20 && line[5] == 0x69 && line[6] == 0x73 && line[7] == 0x3a;
    proof {
        let head = line@.take(8);
        if found {
            assert(head =~= code_prefix());
        } else if head == code_prefix() {
            assert(head[0] == 0x43 && head[1] == 0x6f && head[2] == 0x64 && head[3] == 0x65
                && head[4] == 0x20 && head[5] == 0x69 && head[6] == 0x73 && head[7] == 0x3a);
        }
    }
    found
}

/// Looks at one line of output and remembers the code that it announces.
pub fn observe_line(line: &str, code: &mut Option<String>) -> (result: Result<
    Option<BackendEvent>,
    BackendError,
>)
    ensures
        match observed(optional_text(*old(code)), line@) {
            Ok((next, events)) => {
                &&& optional_text(*final(code)) == next
                &&& result matches Ok(event) && match event {
                    Some(event) => events == seq![event@],
                    None => events == Seq::<BackendEventModel>::empty(),
                }
            },
            Err(error) => {
                &&& result == Err::<Option<BackendEvent>, BackendError>(error)
                &&& *final(code) == *old(code)
            },
        },
{
    match parse_croc_line(line) {
        Err(_) => Err(BackendError::Protocol { reason: BackendProtocolError::MalformedMessage }),
        Ok(None) => Ok(None),
        Ok(Some(event)) => {
            if let BackendEvent::CodeGenerated { code: found } = &event {
                match code {
                    Some(previous) => {
                        if same_text(previous.as_str(), found.as_str()) {
                            return Ok(None);
                        }
                        return Err(
                            BackendError::Protocol {
                                reason: BackendProtocolError::MalformedMessage,
                            },
                        );
                    },
                    None => {},
                }
                *code = Some(found.clone());
            }
            Ok(Some(event))
        },
    }
}

impl OutputReader {
    /// No more is kept than may be.
    pub open spec fn well_formed(self) -> bool {
        self@.output.len() <= DIAGNOSTIC_LIMIT && self@.line.len() <= LINE_LIMIT
    }

    pub fn new() -> (reader: Self)
        ensures
            reader.well_formed(),
            reader@ == (ReaderModel {
                output: Seq::empty(),
                line: Seq::empty(),
                code: None,
                line_too_long: false,
                truncated: false,
            }),
    {
        Self {
            output: Vec::new(),
            line: Vec::new(),
            code: None,
            line_too_long: false,
            truncated: false,
        }
    }

    fn take_byte(&mut self, byte: u8) -> (result: Result<Option<BackendEvent>, BackendError>)
        requires
            old(self).well_formed(),
        ensures
            match after_byte(old(self)@, byte) {
                Ok((next, events)) => {
                    &&& final(self)@ == next
                    &&& final(self).well_formed()
                    &&& result matches Ok(event) && match event {
                        Some(event) => events == seq![event@],
                        None => events == Seq::<BackendEventModel>::empty(),
                    }
                },
                Err(error) => result == Err::<Option<BackendEvent>, BackendError>(error),
            },
    {
        if byte == 10 {
            if self.line_too_long {
                if starts_with_code_prefix(&self.line) {
                    return Err(
                        BackendError::Protocol { reason: BackendProtocolError::MalformedMessage },
                    );
                }
                self.line = Vec::new();
                self.line_too_long = false;
                return Ok(None);
            }
            let text = decode_lossy(&self.line);
            let event = observe_line(text.as_str(), &mut self.code)?;
            self.line = Vec::new();
            self.line_too_long = false;
            return Ok(event);
        }
        if !self.line_too_long {
            if self.line.len() == LINE_LIMIT {
                self.line_too_long = true;
            } else {
                self.line.push(byte);
            }
        }
        Ok(None)
    }

    /// Takes the next chunk of the stream and returns the events in it.
    pub fn absorb(self, chunk: &[u8]) -> (result: Result<(Self, Vec<BackendEvent>), BackendError>)
        requires
            self.well_formed(),
        ensures
            match after_chunk(self@, chunk@) {
                Ok((next, events)) => result matches Ok((reader, list)) && reader@ == next
                    && reader.well_formed() && event_models(list@) == events,
                Err(error) => result == Err::<(OutputReader, Vec<BackendEvent>), BackendError>(
                    error,
                ),
            },
    {
        let mut reader = self;
        let overflow = keep_chunk(&mut reader.output, chunk, DIAGNOSTIC_LIMIT);
        if overflow {
            reader.truncated = true;
        }
        let ghost start = reader@;
        let mut events: Vec<BackendEvent> = Vec::new();
        let mut i: usize = 0;
        assert(event_models(events@) =~= Seq::<BackendEventModel>::empty());
        while i < chunk.len()
            invariant
                i <= chunk@.len(),
                reader.well_formed(),
                after_chunk(self@, chunk@) == after_bytes(start, chunk@),
                after_bytes(start, chunk@.take(i as int)) == Ok::<
                    (ReaderModel, Seq<BackendEventModel>),
                    BackendError,
                >((reader@, event_models(events@))),
            decreases chunk@.len() - i,
        {
            let ghost next = chunk@.take(i as int + 1);
            assert(next.drop_last() =~= chunk@.take(i as int));
            let ghost before = events@;
            match reader.take_byte(chunk[i]) {
                Err(error) => {
                    proof {
                        lemma_after_bytes_error(start, chunk@, i as int + 1);
                    }
                    return Err(error);
                },
                Ok(Some(event)) => {
                    events.push(event);
                    assert(event_models(events@) =~= event_models(before) + seq![event@]);
                },
                Ok(None) => {
                    assert(event_models(events@) =~= event_models(before) + Seq::<
                        BackendEventModel,
                    >::empty());
                },
            }
            i = i + 1;
        }
        assert(chunk@.take(i as int) =~= chunk@);
        Ok((reader, events))
    }

    /// Ends the stream.
    pub fn finish(self) -> (result: Result<(OutputCapture, Option<BackendEvent>), BackendError>)
        ensures
            match after_end(self@) {
                Ok((code, events)) => result matches Ok((capture, event)) && capture.bytes@
                    == self@.output && capture.truncated == self@.truncated && optional_text(
                    capture.code,
                ) == code && match event {
                    Some(event) => events == seq![event@],
                    None => events == Seq::<BackendEventModel>::empty(),
                },
                Err(error) => result == Err::<
                    (OutputCapture, Option<BackendEvent>),
                    BackendError,
                >(error),
            },
    {
        let mut code = self.code;
        let mut event: Option<BackendEvent> = None;
        if self.line.len() > 0 && !self.line_too_long {
            let text = decode_lossy(&self.line);
            event = observe_line(text.as_str(), &mut code)?;
        }
        Ok((OutputCapture { bytes: self.output, code, truncated: self.truncated }, event))
    }
}

/// How the output is cut into chunks makes no difference to the lines that are seen in it.
pub proof fn law_chunks_do_not_matter(reader: ReaderModel, first: Seq<u8>, second: Seq<u8>)
    ensures
        after_bytes(reader, first + second) == (match after_bytes(reader, first) {
            Err(error) => Err(error),
            Ok((middle, earlier)) => match after_bytes(middle, second) {
                Err(error) => Err(error),
                Ok((last, events)) => Ok((last, earlier + events)),
            },
        }),
    decreases second.len(),
{
    if second.len() == 0 {
        assert(first + second =~= first);
        if let Ok((middle, earlier)) = after_bytes(reader, first) {
            assert(earlier + Seq::<BackendEventModel>::empty() =~= earlier);
        }
    } else {
        assert((first + second).drop_last() =~= first + second.drop_last());
        law_chunks_do_not_matter(reader, first, second.drop_last());
        if let Ok((middle, earlier)) = after_bytes(reader, first) {
            if let Ok((almost, more)) = after_bytes(middle, second.drop_last()) {
                if let Ok((last, events)) = after_byte(almost, second.last()) {
                    assert((earlier + more) + events =~= earlier + (more + events));
                }
            }
        }
    }
}

/// The code that both streams of a run agree on.
pub open spec fn agreed_code(stdout: Option<Seq<char>>, stderr: Option<Seq<char>>) -> Result<
    Option<Seq<char>>,
    BackendError,
> {
    match (stdout, stderr) {
        (Some(first), Some(second)) => if first == second {
            Ok(Some(first))
        } else {
            Err(garbled())
        },
        (Some(code), None) | (None, Some(code)) => Ok(Some(code)),
        (None, None) => Ok(None),
    }
}

/// Both streams of a run, fit to be shown.
pub struct CollectedOutput {
    pub stdout: Vec<u8>,
    pub stderr: Vec<u8>,
    pub code: Option<String>,
}

/// What is taken out of the output: the code that was announced, or else the secret that the run
/// was given.
pub open spec fn secret_of(code: Option<Seq<char>>, secret: Option<Seq<char>>) -> Option<Seq<char>> {
    match code {
        Some(code) => Some(code),
        None => secret,
    }
}

/// Puts the two streams of a run together.
pub fn collect_output(stdout: &OutputCapture, stderr: &OutputCapture, secret: &Option<String>) -> (result:
    Result<CollectedOutput, BackendError>)
    ensures
        match agreed_code(optional_text(stdout.code), optional_text(stderr.code)) {
            Err(error) => result == Err::<CollectedOutput, BackendError>(error),
            Ok(code) => {
                let hidden = secret_of(code, optional_text(*secret));
                result matches Ok(output) && optional_text(output.code) == code
                    && output.stdout@ == encode_utf8(
                    redacted(decoded(stdout.bytes@), hidden, stdout.truncated),
                ) && output.stderr@ == encode_utf8(
                    redacted(decoded(stderr.bytes@), hidden, stderr.truncated),
                )
            },
        },
{
    let code: Option<String> = match (&stdout.code, &stderr.code) {
        (Some(first), Some(second)) => {
            if !same_text(first.as_str(), second.as_str()) {
                return Err(
                    BackendError::Protocol { reason: BackendProtocolError::MalformedMessage },
                );
            }
            Some(first.clone())
        },
        (Some(code), None) => Some(code.clone()),
        (None, Some(code)) => Some(code.clone()),
        (None, None) => None,
    };
    let hidden: Option<&str> = match &code {
        Some(code) => Some(code.as_str()),
        None => match secret {
            Some(secret) => Some(secret.as_str()),
            None => None,
        },
    };
    let out = redact_output(&stdout.bytes, hidden, stdout.truncated);
    let err = redact_output(&stderr.bytes, hidden, stderr.truncated);
    Ok(CollectedOutput { stdout: out, stderr: err, code })
}

/// A run is complete if it ended well and, where a code was due, announced one.
pub open spec fn completion_fault(success: bool, requires_code: bool, has_code: bool) -> Option<
    BackendError,
> {
    if !success {
        Some(BackendError::OperationFailed { reason: BackendOperationError::ExecutionFailed })
    } else if requires_code && !has_code {
        Some(BackendError::Protocol { reason: BackendProtocolError::MissingRequiredSignal })
    } else {
        None
    }
}

pub fn validate_completion(success: bool, requires_code: bool, output: &CollectedOutput) -> (result:
    Result<(), BackendError>)
    ensures
        result == (match completion_fault(success, requires_code, output.code is Some) {
            Some(error) => Err(error),
            None => Ok::<(), BackendError>(()),
        }),
{
    if !success {
        return Err(
            BackendError::OperationFailed { reason: BackendOperationError::ExecutionFailed },
        );
    }
    if requires_code && output.code.is_none() {
        return Err(BackendError::Protocol { reason: BackendProtocolError::MissingRequiredSignal });
    }
    Ok(())
}

/// Who receives with one code and who receives with another are started with the same arguments.
pub proof fn law_arguments_hide_the_code(
    backend: CrocBackend,
    first: ReceiveRequest,
    second: ReceiveRequest,
)
    requires
        !blank(first.code@),
        !blank(second.code@),
        first.output_directory@ == second.output_directory@,
        optional_text(first.relay) == optional_text(second.relay),
    ensures
        receive_arguments(backend, first) == receive_arguments(backend, second),
{
}

/// A relay is named before everything else, and the request's relay goes before the backend's.
pub proof fn law_relay_comes_first(backend: CrocBackend, request: SendRequest, relay: Seq<char>)
    requires
        request.paths@.len() > 0,
        optional_text(request.relay) == Some(relay) || (request.relay is None
            && backend.relay_spec() == Some(relay)),
    ensures
        send_arguments(backend, request) matches Ok(args) && args.len() >= 4 && args[0]
            == "--relay"@ && args[1] == relay,
{
    let args = relay_arguments(optional_text(request.relay), backend.relay_spec()) + seq![
        "--disable-clipboard"@,
        "send"@,
    ] + texts(request.paths@);
    assert(args[0] == "--relay"@);
}

/// A run that sends is given all paths of the request, in order and at its end, right behind the word
/// `send`; only a request without paths is refused.
pub proof fn law_every_path_is_sent(backend: CrocBackend, request: SendRequest)
    ensures
        send_arguments(backend, request) is Ok <==> request.paths@.len() > 0,
        send_arguments(backend, request) matches Err(error) ==> error
            == BackendError::InvalidRequest(BackendRequestError::EmptyPaths),
        send_arguments(backend, request) matches Ok(args) ==> {
            let count = request.paths@.len();
            &&& args.len() >= count + 2
            &&& args[args.len() - count - 1] == "send"@
            &&& args[args.len() - count - 2] == "--disable-clipboard"@
            &&& forall|i: int|
                0 <= i < count ==> args[args.len() - count + i] == (#[trigger] request.paths@[i])@
        },
{
    if request.paths@.len() > 0 {
        let relay = relay_arguments(optional_text(request.relay), backend.relay_spec());
        let args = send_arguments(backend, request)->Ok_0;
        let count = request.paths@.len();
        assert(args.len() == relay.len() + 2 + count);
        assert forall|i: int| 0 <= i < count implies args[args.len() - count + i] == (
        #[trigger] request.paths@[i])@ by {
            assert(texts(request.paths@)[i] == request.paths@[i]@);
        }
    }
}

} // verus!
