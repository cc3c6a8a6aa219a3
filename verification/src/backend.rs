//! What a transfer backend is asked for, what it answers, and how it fails.
use vstd::prelude::*;
use crate::io_kind::IoErrorKind;
use crate::resume::{copy_texts, is_empty_text, texts};
use crate::session::TransferFailureKind;
use crate::text::{
    blank, copy_optional, decimal, is_blank, milliseconds_text, optional_quoted, optional_text,
    push_decimal, push_milliseconds, quote_optional,
};
use crate::wire::types::WireError;

verus! {

#[derive(Debug, PartialEq, Eq)]
#[allow(inconsistent_fields)]
pub enum BackendError {
    InvalidRequest(BackendRequestError),
    Unavailable { reason: BackendUnavailableReason },
    Io(IoErrorKind),
    Task,
    Timeout { timeout_ms: u64 },
    Cancelled,
    IncompatibleVersion { found: String, supported: &'static str },
    Protocol { reason: BackendProtocolError },
    OperationFailed { reason: BackendOperationError },
}

impl BackendError {
    pub open spec fn kind(self) -> TransferFailureKind {
        match self {
            BackendError::InvalidRequest(_) => TransferFailureKind::InvalidRequest,
            BackendError::Unavailable { reason } => if reason
                == BackendUnavailableReason::DependencyMissing {
                TransferFailureKind::Filesystem
            } else {
                TransferFailureKind::Unknown
            },
            BackendError::Io(_) | BackendError::Task => TransferFailureKind::ProcessInterruption,
            BackendError::Timeout { .. } => TransferFailureKind::Network,
            BackendError::Cancelled => TransferFailureKind::Unknown,
            BackendError::IncompatibleVersion { .. }
            | BackendError::Protocol { .. }
            | BackendError::OperationFailed { .. } => TransferFailureKind::ProcessFailure,
        }
    }

    pub fn failure_kind(&self) -> (kind: TransferFailureKind)
        ensures
            kind == self.kind(),
    {
        match self {
            Self::InvalidRequest(_) => TransferFailureKind::InvalidRequest,
            Self::Unavailable { reason } => match reason {
                BackendUnavailableReason::DependencyMissing => TransferFailureKind::Filesystem,
                BackendUnavailableReason::NotImplemented
                | BackendUnavailableReason::NotConfigured
                | BackendUnavailableReason::UnsupportedPlatform => TransferFailureKind::Unknown,
            },
            Self::Io(_) | Self::Task => TransferFailureKind::ProcessInterruption,
            Self::Timeout { .. } => TransferFailureKind::Network,
            Self::Cancelled => TransferFailureKind::Unknown,
            Self::IncompatibleVersion { .. }
            | Self::Protocol { .. }
            | Self::OperationFailed { .. } => TransferFailureKind::ProcessFailure,
        }
    }

    /// What a user may be told: never a path, a code or output of the backend.
    pub open spec fn safe_text(self) -> Seq<char> {
        match self {
            BackendError::InvalidRequest(reason) => reason.text(),
            BackendError::Unavailable { reason } => reason.text(),
            BackendError::Io(_) => "backend I/O failed"@,
            BackendError::Task => "backend task failed"@,
            BackendError::Timeout { .. } => "backend operation timed out"@,
            BackendError::Cancelled => "backend operation cancelled"@,
            BackendError::IncompatibleVersion { .. } => "backend version is unsupported"@,
            BackendError::Protocol { reason } => reason.text(),
            BackendError::OperationFailed { reason } => reason.text(),
        }
    }

    pub fn safe_message(&self) -> (message: String)
        ensures
            message@ == self.safe_text(),
    {
        match self {
            Self::InvalidRequest(reason) => reason.safe_message().to_owned(),
            Self::Unavailable { reason } => reason.safe_message().to_owned(),
            Self::Io(_) => "backend I/O failed".to_owned(),
            Self::Task => "backend task failed".to_owned(),
            Self::Timeout { .. } => "backend operation timed out".to_owned(),
            Self::Cancelled => "backend operation cancelled".to_owned(),
            Self::IncompatibleVersion { .. } => "backend version is unsupported".to_owned(),
            Self::Protocol { reason } => reason.safe_message().to_owned(),
            Self::OperationFailed { reason } => reason.safe_message().to_owned(),
        }
    }
}

impl BackendError {
    pub open spec fn text(self) -> Seq<char> {
        match self {
            BackendError::InvalidRequest(reason) => "invalid backend request: "@ + reason.text(),
            BackendError::Unavailable { reason } => "backend is unavailable: "@ + reason.label(),
            BackendError::Io(_) => "backend I/O failed"@,
            BackendError::Task => "backend task failed"@,
            BackendError::Timeout { timeout_ms } => "backend operation timed out after "@
                + milliseconds_text(timeout_ms),
            BackendError::Cancelled => "backend operation cancelled"@,
            BackendError::IncompatibleVersion { found, supported } => "backend version "@ + found@
                + " is unsupported; expected "@ + supported@,
            BackendError::Protocol { reason } => "backend protocol failure: "@ + reason.text(),
            BackendError::OperationFailed { reason } => "backend operation failed: "@
                + reason.text(),
        }
    }

    pub fn message(&self) -> (text: String)
        ensures
            text@ == self.text(),
    {
        match self {
            Self::InvalidRequest(reason) => {
                let mut text = "invalid backend request: ".to_owned();
                text.append(reason.safe_message());
                text
            },
            Self::Unavailable { reason } => {
                let mut text = "backend is unavailable: ".to_owned();
                text.append(reason.name());
                text
            },
            Self::Io(_) => "backend I/O failed".to_owned(),
            Self::Task => "backend task failed".to_owned(),
            Self::Timeout { timeout_ms } => {
                let mut text = "backend operation timed out after ".to_owned();
                push_milliseconds(&mut text, *timeout_ms);
                text
            },
            Self::Cancelled => "backend operation cancelled".to_owned(),
            Self::IncompatibleVersion { found, supported } => {
                let mut text = "backend version ".to_owned();
                text.append(found.as_str());
                text.append(" is unsupported; expected ");
                text.append(supported);
                text
            },
            Self::Protocol { reason } => {
                let mut text = "backend protocol failure: ".to_owned();
                text.append(reason.safe_message());
                text
            },
            Self::OperationFailed { reason } => {
                let mut text = "backend operation failed: ".to_owned();
                text.append(reason.safe_message());
                text
            },
        }
    }
}

/// How a fault of the wire protocol looks to the users of a backend.
pub open spec fn backend_error_of(error: WireError) -> BackendError {
    match error {
        WireError::UnsupportedVersion { .. } => BackendError::Protocol {
            reason: BackendProtocolError::UnsupportedVersion,
        },
        WireError::FrameTooLarge { .. }
        | WireError::FieldTooLarge { .. }
        | WireError::BufferTooLarge { .. } => BackendError::Protocol {
            reason: BackendProtocolError::ResourceLimit,
        },
        WireError::InvalidState { .. }
        | WireError::InvalidSequence { .. }
        | WireError::InvalidSession
        | WireError::DuplicateNegotiation => BackendError::Protocol {
            reason: BackendProtocolError::InvalidState,
        },
        WireError::Io { kind } => BackendError::Io(kind),
        _ => BackendError::Protocol { reason: BackendProtocolError::MalformedMessage },
    }
}

impl From<WireError> for BackendError {
    fn from(error: WireError) -> (wrapped: Self) {
        let reason = match error {
            WireError::UnsupportedVersion { .. } => BackendProtocolError::UnsupportedVersion,
            WireError::FrameTooLarge { .. }
            | WireError::FieldTooLarge { .. }
            | WireError::BufferTooLarge { .. } => BackendProtocolError::ResourceLimit,
            WireError::InvalidState { .. }
            | WireError::InvalidSequence { .. }
            | WireError::InvalidSession
            | WireError::DuplicateNegotiation => BackendProtocolError::InvalidState,
            WireError::Io { kind } => {
                return BackendError::Io(kind);
            },
            WireError::InvalidLimits
            | WireError::Incomplete { .. }
            | WireError::Truncated
            | WireError::InvalidMagic
            | WireError::ReservedFlags { .. }
            | WireError::UnknownMandatoryMessage { .. }
            | WireError::KnownMessageMarkedOptional { .. }
            | WireError::MalformedMessage { .. }
            | WireError::UnsupportedCapability { .. }
            | WireError::MissingRequiredCapability { .. }
            | WireError::DuplicateCapability { .. }
            | WireError::TrailingBytes => BackendProtocolError::MalformedMessage,
        };
        BackendError::Protocol { reason }
    }
}

impl vstd::std_specs::convert::FromSpecImpl<WireError> for BackendError {
    open spec fn obeys_from_spec() -> bool {
        true
    }

    open spec fn from_spec(error: WireError) -> Self {
        backend_error_of(error)
    }
}

#[derive(Debug, Clone, Copy, PartialEq, Eq, Structural)]
pub enum BackendRequestError {
    EmptyPaths,
    EmptyCode,
    EmptyOutputDirectory,
}

impl BackendRequestError {
    pub open spec fn text(self) -> Seq<char> {
        match self {
            BackendRequestError::EmptyPaths => "send request must contain at least one path"@,
            BackendRequestError::EmptyCode => "receive request code must not be empty"@,
            BackendRequestError::EmptyOutputDirectory =>
                "receive request output directory must not be empty"@,
        }
    }

    pub fn safe_message(self) -> (message: &'static str)
        ensures
            message@ == self.text(),
    {
        match self {
            Self::EmptyPaths => "send request must contain at least one path",
            Self::EmptyCode => "receive request code must not be empty",
            Self::EmptyOutputDirectory => "receive request output directory must not be empty",
        }
    }
}

#[derive(Debug, Clone, Copy, PartialEq, Eq, Structural)]
pub enum BackendProtocolError {
    VersionCheckFailed,
    UnrecognizedVersion,
    UnsupportedVersion,
    MalformedMessage,
    MissingRequiredSignal,
    ResourceLimit,
    InvalidState,
}

impl BackendProtocolError {
    pub open spec fn text(self) -> Seq<char> {
        match self {
            BackendProtocolError::VersionCheckFailed => "backend version check failed"@,
            BackendProtocolError::UnrecognizedVersion => "backend version was not recognized"@,
            BackendProtocolError::UnsupportedVersion => "backend protocol version is unsupported"@,
            BackendProtocolError::MalformedMessage =>
                "backend protocol response was not recognized"@,
            BackendProtocolError::MissingRequiredSignal =>
                "backend did not provide a required signal"@,
            BackendProtocolError::ResourceLimit => "backend protocol resource limit was exceeded"@,
            BackendProtocolError::InvalidState => "backend protocol state was invalid"@,
        }
    }

    pub fn safe_message(self) -> (message: &'static str)
        ensures
            message@ == self.text(),
    {
        match self {
            Self::VersionCheckFailed => "backend version check failed",
            Self::UnrecognizedVersion => "backend version was not recognized",
            Self::UnsupportedVersion => "backend protocol version is unsupported",
            Self::MalformedMessage => "backend protocol response was not recognized",
            Self::MissingRequiredSignal => "backend did not provide a required signal",
            Self::ResourceLimit => "backend protocol resource limit was exceeded",
            Self::InvalidState => "backend protocol state was invalid",
        }
    }
}

#[derive(Debug, Clone, Copy, PartialEq, Eq, Structural)]
pub enum BackendOperationError {
    StartupFailed,
    ExecutionFailed,
    ResourceLimit,
    Internal,
}

impl BackendOperationError {
    pub open spec fn text(self) -> Seq<char> {
        match self {
            BackendOperationError::StartupFailed => "backend could not start"@,
            BackendOperationError::ExecutionFailed => "backend operation failed"@,
            BackendOperationError::ResourceLimit => "backend output exceeded its limit"@,
            BackendOperationError::Internal => "backend operation failed internally"@,
        }
    }

    pub fn safe_message(self) -> (message: &'static str)
        ensures
            message@ == self.text(),
    {
        match self {
            Self::StartupFailed => "backend could not start",
            Self::ExecutionFailed => "backend operation failed",
            Self::ResourceLimit => "backend output exceeded its limit",
            Self::Internal => "backend operation failed internally",
        }
    }
}

#[derive(Debug, Clone, Copy, PartialEq, Eq, Structural)]
pub enum BackendUnavailableReason {
    DependencyMissing,
    NotImplemented,
    NotConfigured,
    UnsupportedPlatform,
}

impl BackendUnavailableReason {
    pub open spec fn text(self) -> Seq<char> {
        match self {
            BackendUnavailableReason::DependencyMissing => "backend dependency is unavailable"@,
            BackendUnavailableReason::NotImplemented => "backend is not implemented"@,
            BackendUnavailableReason::NotConfigured => "backend is not configured"@,
            BackendUnavailableReason::UnsupportedPlatform =>
                "backend is unavailable on this platform"@,
        }
    }

    pub fn safe_message(self) -> (message: &'static str)
        ensures
            message@ == self.text(),
    {
        match self {
            Self::DependencyMissing => "backend dependency is unavailable",
            Self::NotImplemented => "backend is not implemented",
            Self::NotConfigured => "backend is not configured",
            Self::UnsupportedPlatform => "backend is unavailable on this platform",
        }
    }

    /// The reason in two words, for the text of an error.
    pub open spec fn label(self) -> Seq<char> {
        match self {
            BackendUnavailableReason::DependencyMissing => "dependency missing"@,
            BackendUnavailableReason::NotImplemented => "not implemented"@,
            BackendUnavailableReason::NotConfigured => "not configured"@,
            BackendUnavailableReason::UnsupportedPlatform => "unsupported platform"@,
        }
    }

    pub fn name(self) -> (name: &'static str)
        ensures
            name@ == self.label(),
    {
        match self {
            Self::DependencyMissing => "dependency missing",
            Self::NotImplemented => "not implemented",
            Self::NotConfigured => "not configured",
            Self::UnsupportedPlatform => "unsupported platform",
        }
    }
}

#[derive(Debug, Clone, Copy, PartialEq, Eq, Structural)]
pub enum BackendAvailability {
    Ready,
    Unavailable { reason: BackendUnavailableReason },
}

#[derive(Debug, Clone, Copy, PartialEq, Eq)]
pub struct BackendInfo {
    pub name: &'static str,
    pub version: Option<&'static str>,
    pub capabilities: BackendCapabilities,
    pub availability: BackendAvailability,
}

impl BackendInfo {
    pub fn new(
        name: &'static str,
        version: Option<&'static str>,
        capabilities: BackendCapabilities,
        availability: BackendAvailability,
    ) -> (info: Self)
        ensures
            info == (BackendInfo { name, version, capabilities, availability }),
    {
        Self { name, version, capabilities, availability }
    }
}

#[derive(Debug, Clone, Copy, PartialEq, Eq, Structural)]
pub enum BackendCapability {
    Progress,
    Pause,
    Resume,
    Direct,
    Relay,
}

impl BackendCapability {
    pub fn name(self) -> (name: &'static str)
        ensures
            name@ == match self {
                BackendCapability::Progress => "progress reporting"@,
                BackendCapability::Pause => "pause"@,
                BackendCapability::Resume => "resume"@,
                BackendCapability::Direct => "direct connections"@,
                BackendCapability::Relay => "relay connections"@,
            },
    {
        match self {
            Self::Progress => "progress reporting",
            Self::Pause => "pause",
            Self::Resume => "resume",
            Self::Direct => "direct connections",
            Self::Relay => "relay connections",
        }
    }
}

#[derive(Debug, Clone, Copy, PartialEq, Eq, Structural)]
pub struct BackendCapabilities {
    progress: bool,
    pause: bool,
    resume: bool,
    direct: bool,
    relay: bool,
}

impl Default for BackendCapabilities {
    fn default() -> (capabilities: Self)
        ensures
            forall|capability: BackendCapability| !capabilities.has(capability),
    {
        Self { progress: false, pause: false, resume: false, direct: false, relay: false }
    }
}

impl BackendCapabilities {
    pub closed spec fn has(self, capability: BackendCapability) -> bool {
        match capability {
            BackendCapability::Progress => self.progress,
            BackendCapability::Pause => self.pause,
            BackendCapability::Resume => self.resume,
            BackendCapability::Direct => self.direct,
            BackendCapability::Relay => self.relay,
        }
    }

    /// The capabilities with these answers.
    pub closed spec fn of(
        progress: bool,
        pause: bool,
        resume: bool,
        direct: bool,
        relay: bool,
    ) -> BackendCapabilities {
        BackendCapabilities { progress, pause, resume, direct, relay }
    }

    /// A backend supports what it is declared to, and nothing else.
    pub broadcast proof fn law_declared_capabilities(
        progress: bool,
        pause: bool,
        resume: bool,
        direct: bool,
        relay: bool,
        capability: BackendCapability,
    )
        ensures
            #[trigger] Self::of(progress, pause, resume, direct, relay).has(capability) == (
            match capability {
                BackendCapability::Progress => progress,
                BackendCapability::Pause => pause,
                BackendCapability::Resume => resume,
                BackendCapability::Direct => direct,
                BackendCapability::Relay => relay,
            }),
    {
    }

    pub fn new(progress: bool, pause: bool, resume: bool) -> (capabilities: Self)
        ensures
            capabilities == Self::of(progress, pause, resume, false, false),
            capabilities.has(BackendCapability::Progress) == progress,
            capabilities.has(BackendCapability::Pause) == pause,
            capabilities.has(BackendCapability::Resume) == resume,
            !capabilities.has(BackendCapability::Direct),
            !capabilities.has(BackendCapability::Relay),
    {
        Self { progress, pause, resume, direct: false, relay: false }
    }

    pub fn with_connection_modes(self, direct: bool, relay: bool) -> (capabilities: Self)
        ensures
            capabilities == Self::of(
                self.has(BackendCapability::Progress),
                self.has(BackendCapability::Pause),
                self.has(BackendCapability::Resume),
                direct,
                relay,
            ),
            capabilities.has(BackendCapability::Progress) == self.has(BackendCapability::Progress),
            capabilities.has(BackendCapability::Pause) == self.has(BackendCapability::Pause),
            capabilities.has(BackendCapability::Resume) == self.has(BackendCapability::Resume),
            capabilities.has(BackendCapability::Direct) == direct,
            capabilities.has(BackendCapability::Relay) == relay,
    {
        Self { progress: self.progress, pause: self.pause, resume: self.resume, direct, relay }
    }

    pub fn supports(self, capability: BackendCapability) -> (supported: bool)
        ensures
            supported == self.has(capability),
    {
        match capability {
            BackendCapability::Progress => self.progress,
            BackendCapability::Pause => self.pause,
            BackendCapability::Resume => self.resume,
            BackendCapability::Direct => self.direct,
            BackendCapability::Relay => self.relay,
        }
    }
}

#[derive(Debug, Clone, Copy, PartialEq, Eq, Structural)]
pub enum BackendControlResult {
    Confirmed,
    Unsupported,
    Terminal,
}

#[derive(Clone, PartialEq, Eq)]
pub enum BackendEvent {
    CodeGenerated { code: String },
    MetadataReady,
    Progress { transferred: u64, total: u64, speed_bps: u64 },
    CapabilityUnavailable { capability: BackendCapability },
}

#[verifier::ext_equal]
pub enum BackendEventModel {
    CodeGenerated { code: Seq<char> },
    MetadataReady,
    Progress { transferred: u64, total: u64, speed_bps: u64 },
    CapabilityUnavailable { capability: BackendCapability },
}

impl View for BackendEvent {
    type V = BackendEventModel;

    open spec fn view(&self) -> BackendEventModel {
        match *self {
            BackendEvent::CodeGenerated { code } => BackendEventModel::CodeGenerated {
                code: code@,
            },
            BackendEvent::MetadataReady => BackendEventModel::MetadataReady,
            BackendEvent::Progress { transferred, total, speed_bps } => {
                BackendEventModel::Progress { transferred, total, speed_bps }
            },
            BackendEvent::CapabilityUnavailable { capability } => {
                BackendEventModel::CapabilityUnavailable { capability }
            },
        }
    }
}

impl BackendEventModel {
    /// An event in writing; a code is not written out.
    pub open spec fn text(self) -> Seq<char> {
        match self {
            BackendEventModel::CodeGenerated { .. } =>
                "BackendEvent::CodeGenerated { code: \"[REDACTED]\" }"@,
            BackendEventModel::MetadataReady => "BackendEvent::MetadataReady"@,
            BackendEventModel::Progress { transferred, total, speed_bps } =>
                "BackendEvent::Progress { transferred: "@ + decimal(transferred as nat)
                + ", total: "@ + decimal(total as nat) + ", speed_bps: "@ + decimal(
                speed_bps as nat,
            ) + " }"@,
            BackendEventModel::CapabilityUnavailable { capability } =>
                "BackendEvent::CapabilityUnavailable { capability: "@ + match capability {
                BackendCapability::Progress => "Progress"@,
                BackendCapability::Pause => "Pause"@,
                BackendCapability::Resume => "Resume"@,
                BackendCapability::Direct => "Direct"@,
                BackendCapability::Relay => "Relay"@,
            } + " }"@,
        }
    }
}

impl BackendEvent {
    pub fn description(&self) -> (text: String)
        ensures
            text@ == self@.text(),
    {
        match self {
            Self::CodeGenerated { .. } => {
                "BackendEvent::CodeGenerated { code: \"[REDACTED]\" }".to_owned()
            },
            Self::MetadataReady => "BackendEvent::MetadataReady".to_owned(),
            Self::Progress { transferred, total, speed_bps } => {
                let mut text = "BackendEvent::Progress { transferred: ".to_owned();
                push_decimal(&mut text, *transferred);
                text.append(", total: ");
                push_decimal(&mut text, *total);
                text.append(", speed_bps: ");
                push_decimal(&mut text, *speed_bps);
                text.append(" }");
                text
            },
            Self::CapabilityUnavailable { capability } => {
                let mut text = "BackendEvent::CapabilityUnavailable { capability: ".to_owned();
                match capability {
                    BackendCapability::Progress => text.append("Progress"),
                    BackendCapability::Pause => text.append("Pause"),
                    BackendCapability::Resume => text.append("Resume"),
                    BackendCapability::Direct => text.append("Direct"),
                    BackendCapability::Relay => text.append("Relay"),
                }
                text.append(" }");
                text
            },
        }
    }
}

#[derive(Clone, PartialEq, Eq)]
pub struct SendRequest {
    pub paths: Vec<String>,
    pub relay: Option<String>,
}

#[verifier::ext_equal]
pub struct SendModel {
    pub paths: Seq<Seq<char>>,
    pub relay: Option<Seq<char>>,
}

impl View for SendRequest {
    type V = SendModel;

    open spec fn view(&self) -> SendModel {
        SendModel { paths: texts(self.paths@), relay: optional_text(self.relay) }
    }
}

impl SendRequest {
    pub fn copied(&self) -> (copy: Self)
        ensures
            copy@ == self@,
    {
        Self { paths: copy_texts(&self.paths), relay: copy_optional(&self.relay) }
    }

    pub open spec fn text(self) -> Seq<char> {
        "SendRequest { path_count: "@ + decimal(self.paths@.len()) + ", relay: "@
            + optional_quoted(optional_text(self.relay)) + " }"@
    }

    pub fn new(paths: Vec<String>) -> (result: Result<Self, BackendError>)
        ensures
            if paths@.len() == 0 {
                result == Err::<SendRequest, BackendError>(
                    BackendError::InvalidRequest(BackendRequestError::EmptyPaths),
                )
            } else {
                result == Ok::<SendRequest, BackendError>(SendRequest { paths, relay: None })
            },
    {
        if paths.is_empty() {
            return Err(BackendError::InvalidRequest(BackendRequestError::EmptyPaths));
        }
        Ok(Self { paths, relay: None })
    }

    pub fn with_relay(self, relay: &str) -> (request: Self)
        ensures
            request.paths == self.paths,
            optional_text(request.relay) == Some(relay@),
    {
        Self { paths: self.paths, relay: Some(relay.to_owned()) }
    }

    pub fn description(&self) -> (text: String)
        ensures
            text@ == self.text(),
    {
        let mut text = "SendRequest { path_count: ".to_owned();
        push_decimal(&mut text, self.paths.len() as u64);
        text.append(", relay: ");
        text.append(&quote_optional(&self.relay));
        text.append(" }");
        text
    }
}

#[derive(Clone, PartialEq, Eq)]
pub struct ReceiveRequest {
    pub code: String,
    pub output_directory: String,
    pub relay: Option<String>,
}

#[verifier::ext_equal]
pub struct ReceiveModel {
    pub code: Seq<char>,
    pub output_directory: Seq<char>,
    pub relay: Option<Seq<char>>,
}

impl View for ReceiveRequest {
    type V = ReceiveModel;

    open spec fn view(&self) -> ReceiveModel {
        ReceiveModel {
            code: self.code@,
            output_directory: self.output_directory@,
            relay: optional_text(self.relay),
        }
    }
}

impl ReceiveRequest {
    /// The same request, received to another directory.
    pub fn received_to(&self, output_directory: &str) -> (request: Self)
        ensures
            request@ == (ReceiveModel { output_directory: output_directory@, ..self@ }),
    {
        Self {
            code: self.code.as_str().to_owned(),
            output_directory: output_directory.to_owned(),
            relay: copy_optional(&self.relay),
        }
    }

    /// A request in writing; neither the code nor the destination is written out.
    pub open spec fn text(self) -> Seq<char> {
        "ReceiveRequest { code: \"[REDACTED]\", output_directory_configured: true, relay: "@
            + optional_quoted(optional_text(self.relay)) + " }"@
    }

    /// What is missing for a request to receive, if anything.
    pub open spec fn fault(code: Seq<char>, output_directory: Seq<char>) -> Option<
        BackendRequestError,
    > {
        if blank(code) {
            Some(BackendRequestError::EmptyCode)
        } else if output_directory.len() == 0 {
            Some(BackendRequestError::EmptyOutputDirectory)
        } else {
            None
        }
    }

    pub fn new(code: &str, output_directory: &str) -> (result: Result<Self, BackendError>)
        ensures
            match Self::fault(code@, output_directory@) {
                Some(error) => result == Err::<ReceiveRequest, BackendError>(
                    BackendError::InvalidRequest(error),
                ),
                None => result matches Ok(request) && request.code@ == code@
                    && request.output_directory@ == output_directory@ && request.relay is None,
            },
    {
        if is_blank(code) {
            return Err(BackendError::InvalidRequest(BackendRequestError::EmptyCode));
        }
        if is_empty_text(output_directory) {
            return Err(BackendError::InvalidRequest(BackendRequestError::EmptyOutputDirectory));
        }
        Ok(
            Self {
                code: code.to_owned(),
                output_directory: output_directory.to_owned(),
                relay: None,
            },
        )
    }

    pub fn with_relay(self, relay: &str) -> (request: Self)
        ensures
            request.code == self.code,
            request.output_directory == self.output_directory,
            optional_text(request.relay) == Some(relay@),
    {
        Self {
            code: self.code,
            output_directory: self.output_directory,
            relay: Some(relay.to_owned()),
        }
    }

    pub fn description(&self) -> (text: String)
        ensures
            text@ == self.text(),
    {
        let mut text =
            "ReceiveRequest { code: \"[REDACTED]\", output_directory_configured: true, relay: ".to_owned();
        text.append(&quote_optional(&self.relay));
        text.append(" }");
        text
    }
}

/// A way to move files, as far as it can be asked about without moving any.
pub trait TransferBackend {
    spec fn info_spec(&self) -> BackendInfo;

    fn name(&self) -> (name: &'static str)
        ensures
            name == self.info_spec().name,
    ;

    fn version(&self) -> (version: Option<&'static str>)
        ensures
            version == self.info_spec().version,
    ;

    fn capabilities(&self) -> (capabilities: BackendCapabilities)
        ensures
            capabilities == self.info_spec().capabilities,
    ;

    fn availability(&self) -> (availability: BackendAvailability)
        ensures
            availability == self.info_spec().availability,
    ;

    fn info(&self) -> (info: BackendInfo)
        ensures
            info == self.info_spec(),
    {
        BackendInfo::new(self.name(), self.version(), self.capabilities(), self.availability())
    }

    /// Whether the backend says of itself that it can be used.
    fn declared_ready(&self) -> (result: Result<(), BackendError>)
        ensures
            result == (match self.info_spec().availability {
                BackendAvailability::Ready => Ok::<(), BackendError>(()),
                BackendAvailability::Unavailable { reason } => Err(
                    BackendError::Unavailable { reason },
                ),
            }),
    {
        match self.availability() {
            BackendAvailability::Ready => Ok(()),
            BackendAvailability::Unavailable { reason } => Err(
                BackendError::Unavailable { reason },
            ),
        }
    }
}

/// Whatever a peer does wrong on the wire, a new attempt is made only where the connection broke.
pub proof fn law_wire_faults_are_retried_only_after_broken_connections(error: WireError)
    ensures
        backend_error_of(error).kind().retryable() <==> error is Io,
{
}

/// The text of a request to receive does not depend on its code and destination.
pub proof fn law_request_text_hides_secrets(first: ReceiveRequest, second: ReceiveRequest)
    requires
        optional_text(first.relay) == optional_text(second.relay),
    ensures
        first.text() == second.text(),
{
}

/// A new attempt is made after a run that was interrupted or took too long, and after nothing else;
/// a program that is missing is a matter of the file system, and what a request lacks is a matter of
/// the request.
pub proof fn law_interrupted_runs_are_retried(error: BackendError)
    ensures
        error.kind().retryable() <==> error is Io || error is Task || error is Timeout,
        error is Timeout <==> error.kind() == TransferFailureKind::Network,
        error is Io || error is Task <==> error.kind() == TransferFailureKind::ProcessInterruption,
        error is InvalidRequest <==> error.kind() == TransferFailureKind::InvalidRequest,
        error is IncompatibleVersion || error is Protocol || error is OperationFailed
            <==> error.kind() == TransferFailureKind::ProcessFailure,
        (BackendError::Unavailable { reason: BackendUnavailableReason::DependencyMissing }).kind()
            == TransferFailureKind::Filesystem,
        error is Cancelled ==> error.kind() == TransferFailureKind::Unknown,
{
}

/// What a user is told of a failure tells no number and no version of the program.
pub proof fn law_failures_are_told_without_details(
    first: IoErrorKind,
    second: IoErrorKind,
    short: u64,
    long: u64,
)
    ensures
        BackendError::Io(first).safe_text() == BackendError::Io(second).safe_text(),
        (BackendError::Timeout { timeout_ms: short }).safe_text() == (BackendError::Timeout {
            timeout_ms: long,
        }).safe_text(),
{
}

/// What went wrong on the wire is told by its kind: a version that is not shared, a limit that was
/// passed, a message out of turn, a connection that broke, and else a message that cannot be
/// understood.
pub proof fn law_wire_faults_are_told_apart(error: WireError)
    ensures
        error is UnsupportedVersion <==> backend_error_of(error) == (BackendError::Protocol {
            reason: BackendProtocolError::UnsupportedVersion,
        }),
        error is FrameTooLarge || error is FieldTooLarge || error is BufferTooLarge
            <==> backend_error_of(error) == (BackendError::Protocol {
            reason: BackendProtocolError::ResourceLimit,
        }),
        error is InvalidState || error is InvalidSequence || error is InvalidSession
            || error is DuplicateNegotiation <==> backend_error_of(error) == (
        BackendError::Protocol { reason: BackendProtocolError::InvalidState }),
        error matches WireError::Io { kind } ==> backend_error_of(error) == BackendError::Io(kind),
        error is InvalidMagic || error is TrailingBytes || error is MalformedMessage
            || error is Truncated || error is UnknownMandatoryMessage ==> backend_error_of(error)
            == (BackendError::Protocol { reason: BackendProtocolError::MalformedMessage }),
{
}

} // verus!
