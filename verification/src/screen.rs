//! What a user interface is given to show: events, snapshots and the kinds of errors.
use vstd::prelude::*;
use crate::backend::{BackendCapabilities, BackendCapability};
use crate::commands::AppCommandError;
use crate::file_name::{file_name, file_name_of};
use crate::ident::TransferId;
use crate::presentation::{AppTransferUpdate, PresentationModel, TransferPresentation, UpdateModel};
use crate::progress::Progress;
use crate::resume::{ResumeModel, ResumeRequest, ResumeState};
use crate::resume_store::{state_models, ResumeDiscovery};
use crate::session::{
    Role, SessionModel, TransferCapability, TransferError, TransferEvent, TransferSession,
    TransferState,
};
use crate::settings::{SettingsError, SettingsValidationError};
use crate::source_scan::SourceScanError;
use crate::text::optional_text;

verus! {

#[derive(Debug, Clone, Copy, PartialEq, Eq, Structural)]
pub enum SendCommandErrorKind {
    SourceUnavailable,
    SourceUnreadable,
    SymlinkNotAllowed,
    UnsupportedFileType,
    EmptyDirectory,
    TooManyEntries,
    DuplicatePath,
    InvalidRelativePath,
    ScanCancelled,
    ScanFailed,
    PreflightFailed,
    StartFailed,
    CancelFailed,
}

#[derive(Debug, Clone, Copy, PartialEq, Eq, Structural)]
pub enum ReceiveCommandErrorKind {
    DestinationUnavailable,
    DestinationNotWritable,
    PreflightFailed,
    StartFailed,
    CancelFailed,
}

#[derive(Debug, Clone, Copy, PartialEq, Eq, Structural)]
pub enum TransferCommandErrorKind {
    Unsupported,
    Failed,
    Unavailable,
    DestinationUnavailable,
}

#[derive(Debug, Clone, Copy, PartialEq, Eq, Structural)]
pub enum SettingsCommandErrorKind {
    LoadFailed,
    SaveFailed,
    InvalidRelay,
}

pub open spec fn scan_error_kind(error: SourceScanError) -> SendCommandErrorKind {
    match error {
        SourceScanError::Unavailable => SendCommandErrorKind::SourceUnavailable,
        SourceScanError::Unreadable => SendCommandErrorKind::SourceUnreadable,
        SourceScanError::SymlinkNotAllowed => SendCommandErrorKind::SymlinkNotAllowed,
        SourceScanError::UnsupportedFileType => SendCommandErrorKind::UnsupportedFileType,
        SourceScanError::EmptyDirectory => SendCommandErrorKind::EmptyDirectory,
        SourceScanError::TooManyEntries => SendCommandErrorKind::TooManyEntries,
        SourceScanError::DuplicatePath => SendCommandErrorKind::DuplicatePath,
        SourceScanError::InvalidRelativePath => SendCommandErrorKind::InvalidRelativePath,
        SourceScanError::Cancelled => SendCommandErrorKind::ScanCancelled,
        SourceScanError::EmptySelection
        | SourceScanError::InvalidRoot
        | SourceScanError::SizeOverflow => SendCommandErrorKind::ScanFailed,
    }
}

pub fn map_source_scan_error(error: SourceScanError) -> (kind: SendCommandErrorKind)
    ensures
        kind == scan_error_kind(error),
{
    match error {
        SourceScanError::Unavailable => SendCommandErrorKind::SourceUnavailable,
        SourceScanError::Unreadable => SendCommandErrorKind::SourceUnreadable,
        SourceScanError::SymlinkNotAllowed => SendCommandErrorKind::SymlinkNotAllowed,
        SourceScanError::UnsupportedFileType => SendCommandErrorKind::UnsupportedFileType,
        SourceScanError::EmptyDirectory => SendCommandErrorKind::EmptyDirectory,
        SourceScanError::TooManyEntries => SendCommandErrorKind::TooManyEntries,
        SourceScanError::DuplicatePath => SendCommandErrorKind::DuplicatePath,
        SourceScanError::InvalidRelativePath => SendCommandErrorKind::InvalidRelativePath,
        SourceScanError::Cancelled => SendCommandErrorKind::ScanCancelled,
        SourceScanError::EmptySelection
        | SourceScanError::InvalidRoot
        | SourceScanError::SizeOverflow => SendCommandErrorKind::ScanFailed,
    }
}

/// Why a command about a transfer was not carried out.
pub open spec fn command_error_kind(error: AppCommandError) -> TransferCommandErrorKind {
    match error {
        AppCommandError::Transfer(TransferError::CapabilityUnavailable(_)) => {
            TransferCommandErrorKind::Unsupported
        },
        _ => TransferCommandErrorKind::Failed,
    }
}

/// Why a destination was not shown.
pub open spec fn reveal_error_kind(error: AppCommandError) -> TransferCommandErrorKind {
    match error {
        AppCommandError::DestinationUnavailable => {
            TransferCommandErrorKind::DestinationUnavailable
        },
        _ => TransferCommandErrorKind::Failed,
    }
}

/// Why settings were not saved.
pub open spec fn settings_error_kind(error: AppCommandError) -> SettingsCommandErrorKind {
    match error {
        AppCommandError::Settings(
            SettingsError::Validation(SettingsValidationError::MissingRelayUrl),
        )
        | AppCommandError::Settings(
            SettingsError::Validation(SettingsValidationError::InvalidRelayUrl),
        ) => SettingsCommandErrorKind::InvalidRelay,
        _ => SettingsCommandErrorKind::SaveFailed,
    }
}

/// Why nothing is received to a directory.
pub open spec fn destination_error_kind(error: AppCommandError) -> ReceiveCommandErrorKind {
    match error {
        AppCommandError::OutputDirectoryNotWritable => {
            ReceiveCommandErrorKind::DestinationNotWritable
        },
        _ => ReceiveCommandErrorKind::DestinationUnavailable,
    }
}

pub fn map_transfer_command_error(error: &AppCommandError) -> (kind: TransferCommandErrorKind)
    ensures
        kind == command_error_kind(*error),
        kind == (if *error matches AppCommandError::Transfer(TransferError::CapabilityUnavailable(_)) {
            TransferCommandErrorKind::Unsupported
        } else {
            TransferCommandErrorKind::Failed
        }),
{
    match error {
        AppCommandError::Transfer(TransferError::CapabilityUnavailable(_)) => {
            TransferCommandErrorKind::Unsupported
        },
        _ => TransferCommandErrorKind::Failed,
    }
}

/// What showing a destination came to.
pub fn map_reveal_error(error: &AppCommandError) -> (kind: TransferCommandErrorKind)
    ensures
        kind == reveal_error_kind(*error),
        kind == (if *error is DestinationUnavailable {
            TransferCommandErrorKind::DestinationUnavailable
        } else {
            TransferCommandErrorKind::Failed
        }),
{
    match error {
        AppCommandError::DestinationUnavailable => {
            TransferCommandErrorKind::DestinationUnavailable
        },
        _ => TransferCommandErrorKind::Failed,
    }
}

pub fn map_settings_error(error: &AppCommandError) -> (kind: SettingsCommandErrorKind)
    ensures
        kind == settings_error_kind(*error),
        kind == (match *error {
            AppCommandError::Settings(SettingsError::Validation(fault)) => if fault
                == SettingsValidationError::MissingRelayUrl || fault
                == SettingsValidationError::InvalidRelayUrl {
                SettingsCommandErrorKind::InvalidRelay
            } else {
                SettingsCommandErrorKind::SaveFailed
            },
            _ => SettingsCommandErrorKind::SaveFailed,
        }),
{
    match error {
        AppCommandError::Settings(SettingsError::Validation(fault)) => match fault {
            SettingsValidationError::MissingRelayUrl
            | SettingsValidationError::InvalidRelayUrl => SettingsCommandErrorKind::InvalidRelay,
            _ => SettingsCommandErrorKind::SaveFailed,
        },
        _ => SettingsCommandErrorKind::SaveFailed,
    }
}

pub fn map_destination_error(error: &AppCommandError) -> (kind: ReceiveCommandErrorKind)
    ensures
        kind == destination_error_kind(*error),
        kind == (if *error is OutputDirectoryNotWritable {
            ReceiveCommandErrorKind::DestinationNotWritable
        } else {
            ReceiveCommandErrorKind::DestinationUnavailable
        }),
{
    match error {
        AppCommandError::OutputDirectoryNotWritable => {
            ReceiveCommandErrorKind::DestinationNotWritable
        },
        _ => ReceiveCommandErrorKind::DestinationUnavailable,
    }
}

#[derive(Debug, Clone, Copy, PartialEq, Eq, Structural)]
pub enum RecoveryKind {
    Send,
    Receive,
}

/// A transfer that can be recovered.
#[derive(Debug, Clone, Copy, PartialEq, Eq, Structural)]
pub struct RecoveryCandidate {
    pub transfer_id: TransferId,
    pub kind: RecoveryKind,
}

pub open spec fn candidate(state: ResumeModel) -> RecoveryCandidate {
    RecoveryCandidate {
        transfer_id: state.transfer_id,
        kind: if state.request is Send {
            RecoveryKind::Send
        } else {
            RecoveryKind::Receive
        },
    }
}

fn candidate_of(state: &ResumeState) -> (found: RecoveryCandidate)
    ensures
        found == candidate(state@),
{
    let kind = match &state.request {
        ResumeRequest::Send { .. } => RecoveryKind::Send,
        ResumeRequest::Receive { .. } => RecoveryKind::Receive,
    };
    RecoveryCandidate { transfer_id: state.transfer_id, kind }
}

pub fn recovery_candidates(discovery: &ResumeDiscovery) -> (candidates: Vec<RecoveryCandidate>)
    ensures
        candidates@ == discovery.recoverable_spec().map_values(|state: ResumeModel| candidate(state)),
{
    let states = discovery.recoverable();
    let ghost models = state_models(states@);
    let mut candidates: Vec<RecoveryCandidate> = Vec::new();
    let mut i: usize = 0;
    while i < states.len()
        invariant
            i <= states@.len(),
            models == state_models(states@),
            candidates@ == models.take(i as int).map_values(|state: ResumeModel| candidate(state)),
        decreases states@.len() - i,
    {
        let ghost before = candidates@;
        let found = candidate_of(&states[i]);
        candidates.push(found);
        assert(models[i as int] == states@[i as int]@);
        assert(candidates@ =~= models.take(i as int + 1).map_values(
            |state: ResumeModel| candidate(state),
        ));
        i = i + 1;
    }
    assert(models.take(i as int) =~= models);
    candidates
}

/// What is said of a failed transfer: the label of its kind of failure, where it has one.
pub open spec fn failure_message(
    state: TransferState,
    label: Option<Seq<char>>,
    retryable: bool,
    fallback: Seq<char>,
) -> Option<Seq<char>> {
    if state != TransferState::Failed {
        None
    } else {
        match label {
            Some(label) => Some(label),
            None => Some(
                if retryable {
                    "The transfer stopped unexpectedly. Retry is available."@
                } else {
                    fallback
                },
            ),
        }
    }
}

pub open spec fn optional_str(text: Option<&str>) -> Option<Seq<char>> {
    match text {
        Some(text) => Some(text@),
        None => None,
    }
}

pub fn safe_failure_message(
    state: TransferState,
    label: Option<&str>,
    retryable: bool,
    fallback: &str,
) -> (message: Option<String>)
    ensures
        optional_text(message) == failure_message(state, optional_str(label), retryable, fallback@),
{
    if state != TransferState::Failed {
        return None;
    }
    match label {
        Some(label) => Some(label.to_owned()),
        None => if retryable {
            Some("The transfer stopped unexpectedly. Retry is available.".to_owned())
        } else {
            Some(fallback.to_owned())
        },
    }
}

#[derive(Debug, Clone, Copy, PartialEq, Eq, Structural)]
pub enum RelayStatus {
    Custom,
    Standard,
    Unknown,
}

/// A transfer with all that is shown of it.
pub struct TransferSnapshot {
    pub transfer_id: TransferId,
    pub role: Role,
    pub state: TransferState,
    pub progress: Progress,
    pub progress_supported: bool,
    pub pause_supported: bool,
    pub resume_supported: bool,
    pub retryable: bool,
    pub display_name: Option<String>,
    pub file_count: Option<usize>,
    pub relay: RelayStatus,
    pub error: Option<String>,
    pub destination_available: bool,
}

#[verifier::ext_equal]
pub struct SnapshotModel {
    pub transfer_id: TransferId,
    pub role: Role,
    pub state: TransferState,
    pub progress: Progress,
    pub progress_supported: bool,
    pub pause_supported: bool,
    pub resume_supported: bool,
    pub retryable: bool,
    pub display_name: Option<Seq<char>>,
    pub file_count: Option<nat>,
    pub relay: RelayStatus,
    pub error: Option<Seq<char>>,
    pub destination_available: bool,
}

impl View for TransferSnapshot {
    type V = SnapshotModel;

    open spec fn view(&self) -> SnapshotModel {
        SnapshotModel {
            transfer_id: self.transfer_id,
            role: self.role,
            state: self.state,
            progress: self.progress,
            progress_supported: self.progress_supported,
            pause_supported: self.pause_supported,
            resume_supported: self.resume_supported,
            retryable: self.retryable,
            display_name: optional_text(self.display_name),
            file_count: match self.file_count {
                Some(count) => Some(count as nat),
                None => None,
            },
            relay: self.relay,
            error: optional_text(self.error),
            destination_available: self.destination_available,
        }
    }
}

pub open spec fn relay_status_of(configured: Option<bool>) -> RelayStatus {
    match configured {
        Some(true) => RelayStatus::Custom,
        Some(false) => RelayStatus::Standard,
        None => RelayStatus::Unknown,
    }
}

/// The name of the first file of a session, and how many files it has.
pub open spec fn shown_files(session: Option<SessionModel>) -> (Option<Seq<char>>, Option<nat>) {
    match session {
        Some(session) => match session.manifest {
            Some(manifest) => (
                if manifest.files.len() > 0 {
                    file_name_of(manifest.files[0].relative_path)
                } else {
                    None
                },
                Some(manifest.files.len()),
            ),
            None => (None, None),
        },
        None => (None, None),
    }
}

/// What is shown of a transfer. The text of an error is not: its kind has a label of its own.
pub open spec fn snapshot_of(
    shown: PresentationModel,
    session: Option<SessionModel>,
    capabilities: BackendCapabilities,
    relay_configured: Option<bool>,
    label: Option<Seq<char>>,
    destination_known: bool,
) -> SnapshotModel {
    SnapshotModel {
        transfer_id: shown.transfer_id,
        role: shown.role,
        state: shown.state,
        progress: shown.progress,
        progress_supported: capabilities.has(BackendCapability::Progress),
        pause_supported: capabilities.has(BackendCapability::Pause),
        resume_supported: capabilities.has(BackendCapability::Resume),
        retryable: shown.can_retry(),
        display_name: shown_files(session).0,
        file_count: shown_files(session).1,
        relay: relay_status_of(relay_configured),
        error: failure_message(shown.state, label, shown.can_retry(), "The transfer failed."@),
        destination_available: shown.state == TransferState::Completed && shown.role
            == Role::Receiver && destination_known,
    }
}

pub fn transfer_snapshot(
    presentation: &TransferPresentation,
    session: Option<&TransferSession>,
    capabilities: BackendCapabilities,
    relay_configured: Option<bool>,
    label: Option<&str>,
    destination_known: bool,
) -> (snapshot: TransferSnapshot)
    ensures
        snapshot@ == snapshot_of(
            presentation@,
            match session {
                Some(session) => Some(session@),
                None => None,
            },
            capabilities,
            relay_configured,
            optional_str(label),
            destination_known,
        ),
{
    let mut display_name: Option<String> = None;
    let mut file_count: Option<usize> = None;
    if let Some(session) = session {
        if let Some(manifest) = &session.manifest {
            file_count = Some(manifest.files.len());
            if manifest.files.len() > 0 {
                assert(manifest@.files[0] == manifest.files@[0]@);
                display_name = file_name(manifest.files[0].relative_path.as_str());
            }
        }
    }
    let relay = match relay_configured {
        Some(true) => RelayStatus::Custom,
        Some(false) => RelayStatus::Standard,
        None => RelayStatus::Unknown,
    };
    let retryable = presentation.retryable();
    let error = safe_failure_message(presentation.state, label, retryable, "The transfer failed.");
    TransferSnapshot {
        transfer_id: presentation.transfer_id,
        role: presentation.role,
        state: presentation.state,
        progress: presentation.progress,
        progress_supported: capabilities.supports(BackendCapability::Progress),
        pause_supported: capabilities.supports(BackendCapability::Pause),
        resume_supported: capabilities.supports(BackendCapability::Resume),
        retryable,
        display_name,
        file_count,
        relay,
        error,
        destination_available: presentation.state == TransferState::Completed && presentation.role
            == Role::Receiver && destination_known,
    }
}

/// An event of a transfer that sends.
#[derive(Clone, PartialEq, Eq)]
pub enum SendEvent {
    Created { transfer_id: TransferId },
    Connecting { transfer_id: TransferId },
    Connected { transfer_id: TransferId },
    Authenticating { transfer_id: TransferId },
    Negotiating { transfer_id: TransferId },
    Started { transfer_id: TransferId },
    CodeAvailable { transfer_id: TransferId, code: String },
    Progress { transfer_id: TransferId, transferred: u64, total: u64, speed_bps: u64 },
    CapabilityUnavailable { transfer_id: TransferId, capability: TransferCapability },
    Verifying { transfer_id: TransferId },
    Completed { transfer_id: TransferId },
    Failed { transfer_id: TransferId, message: String, retryable: bool },
    Cancelled { transfer_id: TransferId },
}

/// An event as it is shown, of a transfer that sends or one that receives.
#[verifier::ext_equal]
#[allow(inconsistent_fields)]
pub enum ShownEvent {
    Plain { transfer_id: TransferId, event: TransferEvent },
    CodeAvailable { transfer_id: TransferId, code: Seq<char> },
    Failed { transfer_id: TransferId, message: Seq<char>, retryable: bool },
}

impl View for SendEvent {
    type V = ShownEvent;

    open spec fn view(&self) -> ShownEvent {
        match *self {
            SendEvent::Created { transfer_id } => ShownEvent::Plain {
                transfer_id,
                event: TransferEvent::Created,
            },
            SendEvent::Connecting { transfer_id } => ShownEvent::Plain {
                transfer_id,
                event: TransferEvent::Connecting,
            },
            SendEvent::Connected { transfer_id } => ShownEvent::Plain {
                transfer_id,
                event: TransferEvent::Connected,
            },
            SendEvent::Authenticating { transfer_id } => ShownEvent::Plain {
                transfer_id,
                event: TransferEvent::Authenticating,
            },
            SendEvent::Negotiating { transfer_id } => ShownEvent::Plain {
                transfer_id,
                event: TransferEvent::Negotiating,
            },
            SendEvent::Started { transfer_id } => ShownEvent::Plain {
                transfer_id,
                event: TransferEvent::Started,
            },
            SendEvent::CodeAvailable { transfer_id, code } => ShownEvent::CodeAvailable {
                transfer_id,
                code: code@,
            },
            SendEvent::Progress { transfer_id, transferred, total, speed_bps } => ShownEvent::Plain {
                transfer_id,
                event: TransferEvent::Progress { transferred, total, speed_bps },
            },
            SendEvent::CapabilityUnavailable { transfer_id, capability } => ShownEvent::Plain {
                transfer_id,
                event: TransferEvent::CapabilityUnavailable { capability },
            },
            SendEvent::Verifying { transfer_id } => ShownEvent::Plain {
                transfer_id,
                event: TransferEvent::Verifying,
            },
            SendEvent::Completed { transfer_id } => ShownEvent::Plain {
                transfer_id,
                event: TransferEvent::Completed,
            },
            SendEvent::Failed { transfer_id, message, retryable } => ShownEvent::Failed {
                transfer_id,
                message: message@,
                retryable,
            },
            SendEvent::Cancelled { transfer_id } => ShownEvent::Plain {
                transfer_id,
                event: TransferEvent::Cancelled,
            },
        }
    }
}

/// An event of a transfer that receives.
#[derive(Clone, PartialEq, Eq)]
pub enum ReceiveEvent {
    Created { transfer_id: TransferId },
    Connecting { transfer_id: TransferId },
    Connected { transfer_id: TransferId },
    Authenticating { transfer_id: TransferId },
    Negotiating { transfer_id: TransferId },
    Started { transfer_id: TransferId },
    Progress { transfer_id: TransferId, transferred: u64, total: u64, speed_bps: u64 },
    CapabilityUnavailable { transfer_id: TransferId, capability: TransferCapability },
    Verifying { transfer_id: TransferId },
    Completed { transfer_id: TransferId },
    Failed { transfer_id: TransferId, message: String, retryable: bool },
    Cancelled { transfer_id: TransferId },
}

impl View for ReceiveEvent {
    type V = ShownEvent;

    open spec fn view(&self) -> ShownEvent {
        match *self {
            ReceiveEvent::Created { transfer_id } => ShownEvent::Plain {
                transfer_id,
                event: TransferEvent::Created,
            },
            ReceiveEvent::Connecting { transfer_id } => ShownEvent::Plain {
                transfer_id,
                event: TransferEvent::Connecting,
            },
            ReceiveEvent::Connected { transfer_id } => ShownEvent::Plain {
                transfer_id,
                event: TransferEvent::Connected,
            },
            ReceiveEvent::Authenticating { transfer_id } => ShownEvent::Plain {
                transfer_id,
                event: TransferEvent::Authenticating,
            },
            ReceiveEvent::Negotiating { transfer_id } => ShownEvent::Plain {
                transfer_id,
                event: TransferEvent::Negotiating,
            },
            ReceiveEvent::Started { transfer_id } => ShownEvent::Plain {
                transfer_id,
                event: TransferEvent::Started,
            },
            ReceiveEvent::Progress { transfer_id, transferred, total, speed_bps } => {
                ShownEvent::Plain {
                    transfer_id,
                    event: TransferEvent::Progress { transferred, total, speed_bps },
                }
            },
            ReceiveEvent::CapabilityUnavailable { transfer_id, capability } => ShownEvent::Plain {
                transfer_id,
                event: TransferEvent::CapabilityUnavailable { capability },
            },
            ReceiveEvent::Verifying { transfer_id } => ShownEvent::Plain {
                transfer_id,
                event: TransferEvent::Verifying,
            },
            ReceiveEvent::Completed { transfer_id } => ShownEvent::Plain {
                transfer_id,
                event: TransferEvent::Completed,
            },
            ReceiveEvent::Failed { transfer_id, message, retryable } => ShownEvent::Failed {
                transfer_id,
                message: message@,
                retryable,
            },
            ReceiveEvent::Cancelled { transfer_id } => ShownEvent::Plain {
                transfer_id,
                event: TransferEvent::Cancelled,
            },
        }
    }
}

/// Events that the views of a transfer have no use for.
pub open spec fn passed_over(event: TransferEvent) -> bool {
    match event {
        TransferEvent::MetadataReady | TransferEvent::Paused | TransferEvent::Resumed => true,
        TransferEvent::CapabilityUnavailable { capability } => capability
            != TransferCapability::Progress,
        _ => false,
    }
}

/// What is said of a failure, also where a transfer is not shown as failed.
pub open spec fn failed_event(
    update: UpdateModel,
    label: Option<Seq<char>>,
    fallback: Seq<char>,
) -> ShownEvent {
    let retryable = update.presentation.can_retry();
    ShownEvent::Failed {
        transfer_id: update.transfer_id,
        message: match failure_message(update.presentation.state, label, retryable, fallback) {
            Some(message) => message,
            None => fallback,
        },
        retryable,
    }
}

/// The event that an update is shown as where transfers that send are. A code is shown where there
/// is one.
pub open spec fn send_event_of(
    update: UpdateModel,
    code: Option<Seq<char>>,
    label: Option<Seq<char>>,
) -> Option<ShownEvent> {
    if update.presentation.role != Role::Sender || passed_over(update.event) {
        None
    } else {
        match update.event {
            TransferEvent::CodeAvailable => match code {
                Some(code) => Some(
                    ShownEvent::CodeAvailable { transfer_id: update.transfer_id, code },
                ),
                None => None,
            },
            TransferEvent::Failed => Some(failed_event(update, label, "The transfer failed."@)),
            event => Some(ShownEvent::Plain { transfer_id: update.transfer_id, event }),
        }
    }
}

/// The event that an update is shown as where transfers that receive are. Their code is known.
pub open spec fn receive_event_of(update: UpdateModel, label: Option<Seq<char>>) -> Option<ShownEvent> {
    if update.presentation.role != Role::Receiver || passed_over(update.event) {
        None
    } else {
        match update.event {
            TransferEvent::CodeAvailable => None,
            TransferEvent::Failed => Some(
                failed_event(update, label, "The receive transfer failed."@),
            ),
            event => Some(ShownEvent::Plain { transfer_id: update.transfer_id, event }),
        }
    }
}

fn failed_message(update: &AppTransferUpdate, label: Option<&str>, fallback: &str) -> (message: String)
    ensures
        failed_event(update@, optional_str(label), fallback@) == (ShownEvent::Failed {
            transfer_id: update.transfer_id,
            message: message@,
            retryable: update@.presentation.can_retry(),
        }),
{
    match safe_failure_message(
        update.presentation.state,
        label,
        update.presentation.retryable(),
        fallback,
    ) {
        Some(message) => message,
        None => fallback.to_owned(),
    }
}

pub fn map_notification(update: &AppTransferUpdate, code: Option<&str>, label: Option<&str>) -> (event:
    Option<SendEvent>)
    ensures
        match send_event_of(update@, optional_str(code), optional_str(label)) {
            Some(shown) => event matches Some(found) && found@ == shown,
            None => event is None,
        },
{
    match update.presentation.role {
        Role::Sender => {},
        Role::Receiver => {
            return None;
        },
    }
    let transfer_id = update.transfer_id;
    match update.event {
        TransferEvent::Created => Some(SendEvent::Created { transfer_id }),
        TransferEvent::Connecting => Some(SendEvent::Connecting { transfer_id }),
        TransferEvent::Connected => Some(SendEvent::Connected { transfer_id }),
        TransferEvent::Authenticating => Some(SendEvent::Authenticating { transfer_id }),
        TransferEvent::Negotiating => Some(SendEvent::Negotiating { transfer_id }),
        TransferEvent::Started => Some(SendEvent::Started { transfer_id }),
        TransferEvent::CodeAvailable => match code {
            Some(code) => Some(SendEvent::CodeAvailable { transfer_id, code: code.to_owned() }),
            None => None,
        },
        TransferEvent::Progress { transferred, total, speed_bps } => Some(
            SendEvent::Progress { transfer_id, transferred, total, speed_bps },
        ),
        TransferEvent::CapabilityUnavailable { capability } => match capability {
            TransferCapability::Progress => Some(
                SendEvent::CapabilityUnavailable { transfer_id, capability },
            ),
            TransferCapability::Pause | TransferCapability::Resume => None,
        },
        TransferEvent::Verifying => Some(SendEvent::Verifying { transfer_id }),
        TransferEvent::Completed => Some(SendEvent::Completed { transfer_id }),
        TransferEvent::Failed => Some(
            SendEvent::Failed {
                transfer_id,
                message: failed_message(update, label, "The transfer failed."),
                retryable: update.presentation.retryable(),
            },
        ),
        TransferEvent::Cancelled => Some(SendEvent::Cancelled { transfer_id }),
        TransferEvent::MetadataReady | TransferEvent::Paused | TransferEvent::Resumed => None,
    }
}

pub fn map_receive_notification(update: &AppTransferUpdate, label: Option<&str>) -> (event: Option<
    ReceiveEvent,
>)
    ensures
        match receive_event_of(update@, optional_str(label)) {
            Some(shown) => event matches Some(found) && found@ == shown,
            None => event is None,
        },
{
    match update.presentation.role {
        Role::Receiver => {},
        Role::Sender => {
            return None;
        },
    }
    let transfer_id = update.transfer_id;
    match update.event {
        TransferEvent::Created => Some(ReceiveEvent::Created { transfer_id }),
        TransferEvent::Connecting => Some(ReceiveEvent::Connecting { transfer_id }),
        TransferEvent::Connected => Some(ReceiveEvent::Connected { transfer_id }),
        TransferEvent::Authenticating => Some(ReceiveEvent::Authenticating { transfer_id }),
        TransferEvent::Negotiating => Some(ReceiveEvent::Negotiating { transfer_id }),
        TransferEvent::Started => Some(ReceiveEvent::Started { transfer_id }),
        TransferEvent::Progress { transferred, total, speed_bps } => Some(
            ReceiveEvent::Progress { transfer_id, transferred, total, speed_bps },
        ),
        TransferEvent::CapabilityUnavailable { capability } => match capability {
            TransferCapability::Progress => Some(
                ReceiveEvent::CapabilityUnavailable { transfer_id, capability },
            ),
            TransferCapability::Pause | TransferCapability::Resume => None,
        },
        TransferEvent::Verifying => Some(ReceiveEvent::Verifying { transfer_id }),
        TransferEvent::Completed => Some(ReceiveEvent::Completed { transfer_id }),
        TransferEvent::Failed => Some(
            ReceiveEvent::Failed {
                transfer_id,
                message: failed_message(update, label, "The receive transfer failed."),
                retryable: update.presentation.retryable(),
            },
        ),
        TransferEvent::Cancelled => Some(ReceiveEvent::Cancelled { transfer_id }),
        TransferEvent::CodeAvailable
        | TransferEvent::MetadataReady
        | TransferEvent::Paused
        | TransferEvent::Resumed => None,
    }
}

/// No update is shown both where transfers send and where they receive.
pub proof fn law_updates_are_shown_on_one_side(
    update: UpdateModel,
    code: Option<Seq<char>>,
    label: Option<Seq<char>>,
)
    ensures
        send_event_of(update, code, label) is None || receive_event_of(update, label) is None,
{
}

/// What is shown of a failure does not depend on the text of the error.
pub proof fn law_snapshots_hide_error_texts(
    first: PresentationModel,
    second: PresentationModel,
    session: Option<SessionModel>,
    capabilities: BackendCapabilities,
    relay: Option<bool>,
    label: Option<Seq<char>>,
    known: bool,
)
    requires
        first == (PresentationModel { error: first.error, ..second }),
    ensures
        snapshot_of(first, session, capabilities, relay, label, known) == snapshot_of(
            second,
            session,
            capabilities,
            relay,
            label,
            known,
        ),
{
}

} // verus!
