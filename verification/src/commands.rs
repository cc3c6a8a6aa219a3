//! What a user can ask for, and what is decided about it before a transfer is touched.
use vstd::prelude::*;
use crate::backend::{
    BackendError, BackendRequestError, ReceiveModel, ReceiveRequest, SendModel, SendRequest,
};
use crate::destination::DestinationError;
use crate::file_name::{
    directory_above, directory_above_of, is_safe, is_same_path, law_same_paths, same_path,
};
use crate::ident::TransferId;
use crate::io_kind::IoErrorKind;
use crate::manifest::{FileEntry, FileModel, ManifestModel, TransferManifest};
use crate::platform::RevealError;
use crate::resume::{copy_texts, texts, ResumeRequest, ResumeRequestModel, ResumeState};
use crate::resume_store::StorageError;
use crate::session::{TransferCapability, TransferError};
use crate::settings::{below, join_path, ConfigPathError, DriftSettings, SettingsError};
use crate::text::{
    blank, decimal, flag_name, flag_text, is_blank, is_space, optional_text, push_decimal,
    same_optional_text,
};

verus! {

#[derive(Debug, Clone, Copy, PartialEq, Eq, Structural)]
pub enum AppError {
    ConfigPath(ConfigPathError),
    Settings(SettingsError),
    Runtime(IoErrorKind),
}

impl AppError {
    pub fn message(self) -> (text: &'static str)
        ensures
            text@ == match self {
                AppError::ConfigPath(_) => "configuration path is unavailable"@,
                AppError::Settings(_) => "configuration could not be loaded"@,
                AppError::Runtime(_) => "application runtime could not be initialized"@,
            },
    {
        match self {
            Self::ConfigPath(_) => "configuration path is unavailable",
            Self::Settings(_) => "configuration could not be loaded",
            Self::Runtime(_) => "application runtime could not be initialized",
        }
    }

    pub fn user_message(&self) -> (text: &'static str)
        ensures
            text@ == match *self {
                AppError::ConfigPath(_) =>
                    "Drift could not determine its configuration location."@,
                AppError::Settings(_) =>
                    "Drift could not load valid settings. Check the configuration file."@,
                AppError::Runtime(_) => "Drift could not initialize its transfer runtime."@,
            },
    {
        match self {
            Self::ConfigPath(_) => "Drift could not determine its configuration location.",
            Self::Settings(_) => {
                "Drift could not load valid settings. Check the configuration file."
            },
            Self::Runtime(_) => "Drift could not initialize its transfer runtime.",
        }
    }
}

pub enum AppCommand {
    Send { paths: Vec<String>, manifest: TransferManifest },
    Receive { code: String, output_directory: Option<String> },
    Cancel { transfer_id: TransferId },
    RetryTransfer { transfer_id: TransferId },
    PauseTransfer { transfer_id: TransferId },
    ResumeTransfer { transfer_id: TransferId },
    RecoverTransfer {
        transfer_id: TransferId,
        code: Option<String>,
        output_directory: Option<String>,
    },
    DiscardRecovery { transfer_id: TransferId },
}

pub open spec fn named_text(name: Seq<char>, id: TransferId) -> Seq<char> {
    name + " { transfer_id: "@ + id.debug_text() + " }"@
}

fn describe_named(name: &str, id: TransferId) -> (text: String)
    ensures
        text@ == named_text(name@, id),
{
    let mut text = name.to_owned();
    text.append(" { transfer_id: ");
    text.append(&id.description());
    text.append(" }");
    text
}

impl AppCommand {
    /// A command in writing; neither codes nor paths are written out.
    pub open spec fn text(self) -> Seq<char> {
        match self {
            AppCommand::Send { paths, .. } => "Send { path_count: "@ + decimal(paths@.len())
                + " }"@,
            AppCommand::Receive { output_directory, .. } =>
                "Receive { code: \"[REDACTED]\", output_directory_configured: "@ + flag_text(
                output_directory is Some,
            ) + " }"@,
            AppCommand::Cancel { transfer_id } => named_text("Cancel"@, transfer_id),
            AppCommand::RetryTransfer { transfer_id } => named_text("RetryTransfer"@, transfer_id),
            AppCommand::PauseTransfer { transfer_id } => named_text("PauseTransfer"@, transfer_id),
            AppCommand::ResumeTransfer { transfer_id } => named_text(
                "ResumeTransfer"@,
                transfer_id,
            ),
            AppCommand::RecoverTransfer { transfer_id, code, output_directory } =>
                "RecoverTransfer { transfer_id: "@ + transfer_id.debug_text()
                + ", code_configured: "@ + flag_text(code is Some)
                + ", output_directory_configured: "@ + flag_text(output_directory is Some) + " }"@,
            AppCommand::DiscardRecovery { transfer_id } => named_text(
                "DiscardRecovery"@,
                transfer_id,
            ),
        }
    }

    pub fn description(&self) -> (text: String)
        ensures
            text@ == self.text(),
    {
        match self {
            Self::Send { paths, .. } => {
                let mut text = "Send { path_count: ".to_owned();
                push_decimal(&mut text, paths.len() as u64);
                text.append(" }");
                text
            },
            Self::Receive { output_directory, .. } => {
                let mut text =
                    "Receive { code: \"[REDACTED]\", output_directory_configured: ".to_owned();
                text.append(flag_name(output_directory.is_some()));
                text.append(" }");
                text
            },
            Self::Cancel { transfer_id } => describe_named("Cancel", *transfer_id),
            Self::RetryTransfer { transfer_id } => describe_named("RetryTransfer", *transfer_id),
            Self::PauseTransfer { transfer_id } => describe_named("PauseTransfer", *transfer_id),
            Self::ResumeTransfer { transfer_id } => describe_named("ResumeTransfer", *transfer_id),
            Self::RecoverTransfer { transfer_id, code, output_directory } => {
                let mut text = "RecoverTransfer { transfer_id: ".to_owned();
                text.append(&transfer_id.description());
                text.append(", code_configured: ");
                text.append(flag_name(code.is_some()));
                text.append(", output_directory_configured: ");
                text.append(flag_name(output_directory.is_some()));
                text.append(" }");
                text
            },
            Self::DiscardRecovery { transfer_id } => describe_named(
                "DiscardRecovery",
                *transfer_id,
            ),
        }
    }
}

/// Commands in writing depend on no code and no path, only on whether there is one and how many.
pub proof fn law_command_text_hides_codes_and_paths(
    id: TransferId,
    code: Option<String>,
    other_code: Option<String>,
    directory: Option<String>,
    other_directory: Option<String>,
    paths: Vec<String>,
    other_paths: Vec<String>,
    manifest: TransferManifest,
    other_manifest: TransferManifest,
)
    requires
        code is Some == other_code is Some,
        directory is Some == other_directory is Some,
        paths@.len() == other_paths@.len(),
    ensures
        (AppCommand::Send { paths, manifest }).text() == (AppCommand::Send {
            paths: other_paths,
            manifest: other_manifest,
        }).text(),
        (AppCommand::Receive { code: code->Some_0, output_directory: directory }).text() == (
        AppCommand::Receive { code: other_code->Some_0, output_directory: other_directory }).text(),
        (AppCommand::RecoverTransfer { transfer_id: id, code, output_directory: directory }).text()
            == (AppCommand::RecoverTransfer {
            transfer_id: id,
            code: other_code,
            output_directory: other_directory,
        }).text(),
{
}

#[derive(Debug, PartialEq, Eq)]
pub enum AppCommandError {
    Preflight(BackendError),
    InvalidRequest(BackendError),
    EmptyOutputDirectory,
    OutputDirectoryUnavailable,
    OutputDirectoryNotWritable,
    DestinationUnavailable,
    RevealFailed,
    EmptyTransferCode,
    Transfer(TransferError),
    RecoveryUnavailable,
    RecoveryInvalid,
    RecoveryStorage(StorageError),
    SettingsLoad(SettingsError),
    Settings(SettingsError),
}

impl AppCommandError {
    pub fn message(&self) -> (text: &'static str)
        ensures
            text@ == match *self {
                AppCommandError::Preflight(_) => "backend preflight failed"@,
                AppCommandError::InvalidRequest(_) => "invalid transfer request"@,
                AppCommandError::EmptyOutputDirectory => "output directory must not be empty"@,
                AppCommandError::OutputDirectoryUnavailable => "output directory is unavailable"@,
                AppCommandError::OutputDirectoryNotWritable => "output directory is not writable"@,
                AppCommandError::DestinationUnavailable =>
                    "completed receive destination is unavailable"@,
                AppCommandError::RevealFailed =>
                    "completed receive destination could not be revealed"@,
                AppCommandError::EmptyTransferCode => "transfer code must not be empty"@,
                AppCommandError::Transfer(_) => "transfer command failed"@,
                AppCommandError::RecoveryUnavailable => "recovery metadata is unavailable"@,
                AppCommandError::RecoveryInvalid => "recovery metadata is invalid"@,
                AppCommandError::RecoveryStorage(_) => "recovery storage is unavailable"@,
                AppCommandError::SettingsLoad(_) => "settings could not be loaded"@,
                AppCommandError::Settings(_) => "settings could not be saved"@,
            },
    {
        match self {
            Self::Preflight(_) => "backend preflight failed",
            Self::InvalidRequest(_) => "invalid transfer request",
            Self::EmptyOutputDirectory => "output directory must not be empty",
            Self::OutputDirectoryUnavailable => "output directory is unavailable",
            Self::OutputDirectoryNotWritable => "output directory is not writable",
            Self::DestinationUnavailable => "completed receive destination is unavailable",
            Self::RevealFailed => "completed receive destination could not be revealed",
            Self::EmptyTransferCode => "transfer code must not be empty",
            Self::Transfer(_) => "transfer command failed",
            Self::RecoveryUnavailable => "recovery metadata is unavailable",
            Self::RecoveryInvalid => "recovery metadata is invalid",
            Self::RecoveryStorage(_) => "recovery storage is unavailable",
            Self::SettingsLoad(_) => "settings could not be loaded",
            Self::Settings(_) => "settings could not be saved",
        }
    }

    /// What a user is told. Nothing of what went wrong inside is in it.
    pub open spec fn user_text(self) -> Seq<char> {
        match self {
            AppCommandError::Preflight(_) => "Croc is not ready."@,
            AppCommandError::InvalidRequest(_) => "The transfer request is invalid."@,
            AppCommandError::EmptyOutputDirectory
            | AppCommandError::OutputDirectoryUnavailable => "The receive folder is unavailable."@,
            AppCommandError::OutputDirectoryNotWritable => "The receive folder is not writable."@,
            AppCommandError::DestinationUnavailable =>
                "The completed receive destination is unavailable."@,
            AppCommandError::RevealFailed =>
                "The completed receive destination could not be revealed."@,
            AppCommandError::EmptyTransferCode => "Enter a transfer code."@,
            AppCommandError::Transfer(error) => match error {
                TransferError::CapabilityUnavailable(TransferCapability::Pause) =>
                    "Pause is unavailable for this backend."@,
                TransferError::CapabilityUnavailable(TransferCapability::Resume) =>
                    "Resume is unavailable for this backend."@,
                TransferError::Filesystem(_) => "The received files could not be finalized."@,
                _ => "The transfer could not start."@,
            },
            AppCommandError::RecoveryUnavailable | AppCommandError::RecoveryInvalid =>
                "The transfer recovery is no longer available."@,
            AppCommandError::RecoveryStorage(_) => "Transfer recovery storage is unavailable."@,
            AppCommandError::SettingsLoad(_) => "Settings could not be loaded."@,
            AppCommandError::Settings(_) => "Settings could not be saved."@,
        }
    }

    pub fn user_message(&self) -> (text: &'static str)
        ensures
            text@ == self.user_text(),
    {
        match self {
            Self::Preflight(_) => "Croc is not ready.",
            Self::InvalidRequest(_) => "The transfer request is invalid.",
            Self::EmptyOutputDirectory => "The receive folder is unavailable.",
            Self::OutputDirectoryUnavailable => "The receive folder is unavailable.",
            Self::OutputDirectoryNotWritable => "The receive folder is not writable.",
            Self::DestinationUnavailable => "The completed receive destination is unavailable.",
            Self::RevealFailed => "The completed receive destination could not be revealed.",
            Self::EmptyTransferCode => "Enter a transfer code.",
            Self::Transfer(TransferError::CapabilityUnavailable(TransferCapability::Pause)) => {
                "Pause is unavailable for this backend."
            },
            Self::Transfer(TransferError::CapabilityUnavailable(TransferCapability::Resume)) => {
                "Resume is unavailable for this backend."
            },
            Self::Transfer(TransferError::Filesystem(_)) => {
                "The received files could not be finalized."
            },
            Self::Transfer(_) => "The transfer could not start.",
            Self::RecoveryUnavailable | Self::RecoveryInvalid => {
                "The transfer recovery is no longer available."
            },
            Self::RecoveryStorage(_) => "Transfer recovery storage is unavailable.",
            Self::SettingsLoad(_) => "Settings could not be loaded.",
            Self::Settings(_) => "Settings could not be saved.",
        }
    }
}

impl From<TransferError> for AppCommandError {
    fn from(error: TransferError) -> (wrapped: Self) {
        Self::Transfer(error)
    }
}

impl vstd::std_specs::convert::FromSpecImpl<TransferError> for AppCommandError {
    open spec fn obeys_from_spec() -> bool {
        true
    }

    open spec fn from_spec(error: TransferError) -> Self {
        AppCommandError::Transfer(error)
    }
}

pub open spec fn directory_error(error: DestinationError) -> AppCommandError {
    match error {
        DestinationError::Empty => AppCommandError::EmptyOutputDirectory,
        DestinationError::NotWritable => AppCommandError::OutputDirectoryNotWritable,
        _ => AppCommandError::OutputDirectoryUnavailable,
    }
}

impl From<DestinationError> for AppCommandError {
    fn from(error: DestinationError) -> (mapped: Self) {
        match error {
            DestinationError::Empty => Self::EmptyOutputDirectory,
            DestinationError::Unavailable | DestinationError::NotDirectory => {
                Self::OutputDirectoryUnavailable
            },
            DestinationError::NotWritable => Self::OutputDirectoryNotWritable,
            DestinationError::SymlinkNotAllowed => Self::OutputDirectoryUnavailable,
        }
    }
}

impl vstd::std_specs::convert::FromSpecImpl<DestinationError> for AppCommandError {
    open spec fn obeys_from_spec() -> bool {
        true
    }

    open spec fn from_spec(error: DestinationError) -> Self {
        directory_error(error)
    }
}

impl From<StorageError> for AppCommandError {
    fn from(error: StorageError) -> (wrapped: Self) {
        Self::RecoveryStorage(error)
    }
}

impl vstd::std_specs::convert::FromSpecImpl<StorageError> for AppCommandError {
    open spec fn obeys_from_spec() -> bool {
        true
    }

    open spec fn from_spec(error: StorageError) -> Self {
        AppCommandError::RecoveryStorage(error)
    }
}

impl From<RevealError> for AppCommandError {
    fn from(error: RevealError) -> (mapped: Self) {
        match error {
            RevealError::Unsupported | RevealError::Failed => Self::RevealFailed,
        }
    }
}

impl vstd::std_specs::convert::FromSpecImpl<RevealError> for AppCommandError {
    open spec fn obeys_from_spec() -> bool {
        true
    }

    open spec fn from_spec(error: RevealError) -> Self {
        AppCommandError::RevealFailed
    }
}

impl From<SettingsError> for AppCommandError {
    fn from(error: SettingsError) -> (wrapped: Self) {
        Self::SettingsLoad(error)
    }
}

impl vstd::std_specs::convert::FromSpecImpl<SettingsError> for AppCommandError {
    open spec fn obeys_from_spec() -> bool {
        true
    }

    open spec fn from_spec(error: SettingsError) -> Self {
        AppCommandError::SettingsLoad(error)
    }
}

/// A request that can go by a relay.
pub trait RelayRequest: Sized {
    spec fn relay_of(self) -> Option<Seq<char>>;

    /// The two ask for the same, by whatever relay.
    spec fn same_but_relay(self, other: Self) -> bool;

    fn with_relay(self, relay: String) -> (request: Self)
        ensures
            request.relay_of() == Some(relay@),
            self.same_but_relay(request),
    ;
}

impl RelayRequest for SendRequest {
    open spec fn relay_of(self) -> Option<Seq<char>> {
        optional_text(self.relay)
    }

    open spec fn same_but_relay(self, other: Self) -> bool {
        self.paths == other.paths
    }

    fn with_relay(self, relay: String) -> (request: Self) {
        SendRequest::with_relay(self, relay.as_str())
    }
}

impl RelayRequest for ReceiveRequest {
    open spec fn relay_of(self) -> Option<Seq<char>> {
        optional_text(self.relay)
    }

    open spec fn same_but_relay(self, other: Self) -> bool {
        self.code == other.code && self.output_directory == other.output_directory
    }

    fn with_relay(self, relay: String) -> (request: Self) {
        ReceiveRequest::with_relay(self, relay.as_str())
    }
}

/// Sends a request by the relay that is set, if one is and it is enabled.
pub fn apply_relay<T: RelayRequest>(request: T, settings: &DriftSettings) -> (routed: T)
    ensures
        match settings.relay.effective() {
            Some(url) => routed.relay_of() == Some(url) && request.same_but_relay(routed),
            None => routed == request,
        },
{
    match settings.relay.effective_url() {
        Some(relay) => request.with_relay(relay.to_owned()),
        None => request,
    }
}

/// What a command to send comes to: a request, or why there is none.
pub open spec fn send_plan(
    settings: Result<DriftSettings, SettingsError>,
    paths: Seq<Seq<char>>,
) -> Result<SendModel, AppCommandError> {
    match settings {
        Err(error) => Err(AppCommandError::SettingsLoad(error)),
        Ok(settings) => if paths.len() == 0 {
            Err(
                AppCommandError::InvalidRequest(
                    BackendError::InvalidRequest(BackendRequestError::EmptyPaths),
                ),
            )
        } else {
            Ok(SendModel { paths, relay: settings.relay.effective() })
        },
    }
}

/// The request that a command to send stands for.
pub fn plan_send(settings: &Result<DriftSettings, SettingsError>, paths: Vec<String>) -> (result:
    Result<SendRequest, AppCommandError>)
    ensures
        match *settings {
            Err(error) => result == Err::<SendRequest, AppCommandError>(
                AppCommandError::SettingsLoad(error),
            ),
            Ok(settings) => if paths@.len() == 0 {
                result == Err::<SendRequest, AppCommandError>(
                    AppCommandError::InvalidRequest(
                        BackendError::InvalidRequest(BackendRequestError::EmptyPaths),
                    ),
                )
            } else {
                result matches Ok(request) && request.paths == paths && optional_text(request.relay)
                    == settings.relay.effective()
            },
        },
        match send_plan(*settings, texts(paths@)) {
            Ok(plan) => result matches Ok(request) && request@ == plan,
            Err(error) => result == Err::<SendRequest, AppCommandError>(error),
        },
{
    match settings {
        Err(error) => Err(AppCommandError::SettingsLoad(*error)),
        Ok(settings) => match SendRequest::new(paths) {
            Err(error) => Err(AppCommandError::InvalidRequest(error)),
            Ok(request) => Ok(apply_relay(request, settings)),
        },
    }
}

/// Where a command to receive goes to, or why it goes nowhere.
pub open spec fn directory_plan(
    settings: Result<DriftSettings, SettingsError>,
    code: Seq<char>,
    chosen: Option<Seq<char>>,
    default_directory: Seq<char>,
) -> Result<Seq<char>, AppCommandError> {
    match settings {
        Err(error) => Err(AppCommandError::SettingsLoad(error)),
        Ok(_) => if blank(code) {
            Err(AppCommandError::EmptyTransferCode)
        } else {
            match chosen {
                Some(directory) => Ok(directory),
                None => Ok(default_directory),
            }
        },
    }
}

/// Where a command to receive goes to, before that place is looked at.
pub fn plan_receive_directory(
    settings: &Result<DriftSettings, SettingsError>,
    code: &str,
    output_directory: &Option<String>,
    default_directory: &str,
) -> (result: Result<String, AppCommandError>)
    ensures
        match *settings {
            Err(error) => result == Err::<String, AppCommandError>(
                AppCommandError::SettingsLoad(error),
            ),
            Ok(_) => if blank(code@) {
                result == Err::<String, AppCommandError>(AppCommandError::EmptyTransferCode)
            } else {
                result matches Ok(directory) && directory@ == (match *output_directory {
                    Some(chosen) => chosen@,
                    None => default_directory@,
                })
            },
        },
        match directory_plan(
            *settings,
            code@,
            optional_text(*output_directory),
            default_directory@,
        ) {
            Ok(plan) => result matches Ok(directory) && directory@ == plan,
            Err(error) => result == Err::<String, AppCommandError>(error),
        },
{
    if let Err(error) = settings {
        return Err(AppCommandError::SettingsLoad(*error));
    }
    if is_blank(code) {
        return Err(AppCommandError::EmptyTransferCode);
    }
    match output_directory {
        Some(chosen) => Ok(chosen.as_str().to_owned()),
        None => Ok(default_directory.to_owned()),
    }
}

/// What a command to receive comes to, once its directory was looked at.
pub open spec fn receive_plan(
    settings: Result<DriftSettings, SettingsError>,
    checked: Result<(), DestinationError>,
    code: Seq<char>,
    directory: Seq<char>,
) -> Result<ReceiveModel, AppCommandError> {
    match settings {
        Err(error) => Err(AppCommandError::SettingsLoad(error)),
        Ok(settings) => match checked {
            Err(error) => Err(directory_error(error)),
            Ok(_) => match ReceiveRequest::fault(code, directory) {
                Some(error) => Err(
                    AppCommandError::InvalidRequest(BackendError::InvalidRequest(error)),
                ),
                None => Ok(
                    ReceiveModel {
                        code,
                        output_directory: directory,
                        relay: settings.relay.effective(),
                    },
                ),
            },
        },
    }
}

/// The request that a command to receive stands for, once its directory was looked at.
pub fn plan_receive(
    settings: &Result<DriftSettings, SettingsError>,
    checked: Result<(), DestinationError>,
    code: &str,
    directory: &str,
) -> (result: Result<ReceiveRequest, AppCommandError>)
    ensures
        match *settings {
            Err(error) => result == Err::<ReceiveRequest, AppCommandError>(
                AppCommandError::SettingsLoad(error),
            ),
            Ok(settings) => match checked {
                Err(error) => result == Err::<ReceiveRequest, AppCommandError>(
                    directory_error(error),
                ),
                Ok(_) => match ReceiveRequest::fault(code@, directory@) {
                    Some(error) => result == Err::<ReceiveRequest, AppCommandError>(
                        AppCommandError::InvalidRequest(BackendError::InvalidRequest(error)),
                    ),
                    None => result matches Ok(request) && request.code@ == code@
                        && request.output_directory@ == directory@ && optional_text(request.relay)
                        == settings.relay.effective(),
                },
            },
        },
        match receive_plan(*settings, checked, code@, directory@) {
            Ok(plan) => result matches Ok(request) && request@ == plan,
            Err(error) => result == Err::<ReceiveRequest, AppCommandError>(error),
        },
{
    let settings = match settings {
        Err(error) => {
            return Err(AppCommandError::SettingsLoad(*error));
        },
        Ok(settings) => settings,
    };
    if let Err(error) = checked {
        return Err(AppCommandError::from(error));
    }
    match ReceiveRequest::new(code, directory) {
        Err(error) => Err(AppCommandError::InvalidRequest(error)),
        Ok(request) => Ok(apply_relay(request, settings)),
    }
}

/// The metadata to recover a transfer with, as it was loaded.
pub fn recovery_metadata(loaded: Result<Option<ResumeState>, StorageError>) -> (result: Result<
    ResumeState,
    AppCommandError,
>)
    ensures
        match loaded {
            Err(error) => result == Err::<ResumeState, AppCommandError>(
                AppCommandError::RecoveryStorage(error),
            ),
            Ok(None) => result == Err::<ResumeState, AppCommandError>(
                AppCommandError::RecoveryUnavailable,
            ),
            Ok(Some(state)) => result == Ok::<ResumeState, AppCommandError>(state),
        },
{
    match loaded {
        Err(error) => Err(AppCommandError::RecoveryStorage(error)),
        Ok(None) => Err(AppCommandError::RecoveryUnavailable),
        Ok(Some(state)) => Ok(state),
    }
}

/// What has to be looked at before a transfer is recovered.
pub enum RecoveryCheck {
    Sources(Vec<String>),
    Directory(String),
}

/// The paths, or the directory, to look at before a transfer is recovered, or why it cannot be.
pub open spec fn recovery_plan(
    request: ResumeRequestModel,
    code: Option<Seq<char>>,
    chosen: Option<Seq<char>>,
) -> Result<ResumeRequestModel, AppCommandError> {
    match request {
        ResumeRequestModel::Send { .. } => Ok(request),
        ResumeRequestModel::Receive { output_directory } => if code matches Some(text) && !blank(
            text,
        ) {
            Ok(
                ResumeRequestModel::Receive {
                    output_directory: match chosen {
                        Some(directory) => directory,
                        None => output_directory,
                    },
                },
            )
        } else {
            Err(AppCommandError::EmptyTransferCode)
        },
    }
}

pub open spec fn optional_str(text: Option<&str>) -> Option<Seq<char>> {
    match text {
        Some(text) => Some(text@),
        None => None,
    }
}

/// What to look at before a transfer is recovered. To receive again takes a code.
pub fn validate_recovery_inputs(
    state: &ResumeState,
    receive_code: Option<&str>,
    replacement_directory: Option<&str>,
) -> (result: Result<RecoveryCheck, AppCommandError>)
    ensures
        match state@.request {
            ResumeRequestModel::Send { source_paths } => result matches Ok(
                RecoveryCheck::Sources(paths),
            ) && texts(paths@) == source_paths,
            ResumeRequestModel::Receive { output_directory } => if receive_code is None || blank(
                receive_code->Some_0@,
            ) {
                result == Err::<RecoveryCheck, AppCommandError>(AppCommandError::EmptyTransferCode)
            } else {
                result matches Ok(RecoveryCheck::Directory(directory)) && directory@ == (
                match replacement_directory {
                    Some(chosen) => chosen@,
                    None => output_directory,
                })
            },
        },
        match recovery_plan(
            state@.request,
            optional_str(receive_code),
            optional_str(replacement_directory),
        ) {
            Ok(ResumeRequestModel::Send { source_paths }) => result matches Ok(
                RecoveryCheck::Sources(paths),
            ) && texts(paths@) == source_paths,
            Ok(ResumeRequestModel::Receive { output_directory }) => result matches Ok(
                RecoveryCheck::Directory(directory),
            ) && directory@ == output_directory,
            Err(error) => result == Err::<RecoveryCheck, AppCommandError>(error),
        },
{
    match &state.request {
        ResumeRequest::Send { source_paths } => Ok(RecoveryCheck::Sources(copy_texts(source_paths))),
        ResumeRequest::Receive { output_directory } => {
            let missing = match receive_code {
                None => true,
                Some(code) => is_blank(code),
            };
            if missing {
                return Err(AppCommandError::EmptyTransferCode);
            }
            match replacement_directory {
                Some(chosen) => Ok(RecoveryCheck::Directory(chosen.to_owned())),
                None => Ok(RecoveryCheck::Directory(output_directory.as_str().to_owned())),
            }
        },
    }
}

/// The same file, whatever identifiers it goes by and however its path is written.
pub open spec fn same_file(expected: FileModel, actual: FileModel) -> bool {
    &&& same_path(expected.relative_path, actual.relative_path)
    &&& expected.size == actual.size
    &&& expected.modified_at == actual.modified_at
    &&& expected.digest == actual.digest
}

pub open spec fn holds_file(files: Seq<FileModel>, file: FileModel) -> bool {
    exists|j: int| 0 <= j < files.len() && same_file(file, #[trigger] files[j])
}

/// Every file that is expected is there unchanged, and nothing else is.
pub open spec fn matching(expected: ManifestModel, actual: ManifestModel) -> bool {
    &&& expected.total_size == actual.total_size
    &&& expected.files.len() == actual.files.len()
    &&& forall|i: int|
        0 <= i < expected.files.len() ==> holds_file(actual.files, #[trigger] expected.files[i])
}

fn is_same_file(expected: &FileEntry, actual: &FileEntry) -> (same: bool)
    ensures
        same == same_file(expected@, actual@),
{
    let same_time = match (expected.modified_at, actual.modified_at) {
        (Some(left), Some(right)) => left == right,
        (None, None) => true,
        _ => false,
    };
    is_same_path(expected.relative_path.as_str(), actual.relative_path.as_str()) && expected.size
        == actual.size && same_time && same_optional_text(&expected.digest, &actual.digest)
}

fn contains_file(files: &Vec<FileEntry>, file: &FileEntry) -> (contains: bool)
    ensures
        contains == holds_file(crate::manifest::file_models(files@), file@),
{
    let ghost models = crate::manifest::file_models(files@);
    let mut j: usize = 0;
    while j < files.len()
        invariant
            j <= files@.len(),
            models == crate::manifest::file_models(files@),
            forall|k: int| 0 <= k < j ==> !same_file(file@, #[trigger] models[k]),
        decreases files@.len() - j,
    {
        assert(models[j as int] == files@[j as int]@);
        if is_same_file(file, &files[j]) {
            assert(same_file(file@, models[j as int]));
            return true;
        }
        j = j + 1;
    }
    false
}

pub fn manifests_match(expected: &TransferManifest, actual: &TransferManifest) -> (matches: bool)
    ensures
        matches == matching(expected@, actual@),
{
    if expected.total_size != actual.total_size || expected.files.len() != actual.files.len() {
        return false;
    }
    let mut i: usize = 0;
    while i < expected.files.len()
        invariant
            i <= expected.files@.len(),
            expected@.total_size == actual@.total_size,
            expected@.files.len() == actual@.files.len(),
            forall|k: int|
                0 <= k < i ==> holds_file(actual@.files, #[trigger] expected@.files[k]),
        decreases expected.files@.len() - i,
    {
        assert(expected@.files[i as int] == expected.files@[i as int]@);
        if !contains_file(&actual.files, &expected.files[i]) {
            assert(!holds_file(actual@.files, expected@.files[i as int]));
            return false;
        }
        i = i + 1;
    }
    true
}

/// Whether what is to be sent again is what was sent before. A scan that failed shows nothing.
pub fn validate_recovery_sources(state: &ResumeState, scanned: Option<&TransferManifest>) -> (result:
    Result<(), AppCommandError>)
    ensures
        result == (if scanned matches Some(actual) && state@.manifest matches Some(expected)
            && matching(expected, actual@) {
            Ok::<(), AppCommandError>(())
        } else {
            Err(AppCommandError::RecoveryInvalid)
        }),
{
    match (scanned, &state.manifest) {
        (Some(actual), Some(expected)) => if manifests_match(expected, actual) {
            Ok(())
        } else {
            Err(AppCommandError::RecoveryInvalid)
        },
        _ => Err(AppCommandError::RecoveryInvalid),
    }
}

/// Where metadata is kept: beside the configuration file.
pub fn resume_root(config_path: &str) -> (root: String)
    ensures
        root@ == below(directory_above_of(config_path@), "state"@),
{
    join_path(directory_above(config_path).as_str(), "state")
}

/// Files that did not change can always be sent again.
pub proof fn law_unchanged_files_match(expected: ManifestModel, actual: ManifestModel)
    requires
        expected.total_size == actual.total_size,
        expected.files.len() == actual.files.len(),
        forall|i: int|
            0 <= i < expected.files.len() ==> same_file(
                #[trigger] expected.files[i],
                actual.files[i],
            ),
    ensures
        matching(expected, actual),
{
    assert forall|i: int| 0 <= i < expected.files.len() implies holds_file(
        actual.files,
        #[trigger] expected.files[i],
    ) by {
        assert(same_file(expected.files[i], actual.files[i]));
    }
}

/// Two files have the same size, digest and time of change; a file whose time of change is not known
/// has none of those that are.
pub open spec fn unchanged(expected: FileModel, actual: FileModel) -> bool {
    &&& expected.size == actual.size
    &&& expected.digest == actual.digest
    &&& match (expected.modified_at, actual.modified_at) {
        (Some(before), Some(after)) => before == after,
        (None, None) => true,
        _ => false,
    }
}

/// A file of a manifest is at a path and is as it was.
pub open spec fn finds_unchanged(files: Seq<FileModel>, file: FileModel) -> bool {
    exists|j: int|
        0 <= j < files.len() && (#[trigger] files[j]).relative_path == file.relative_path
            && unchanged(file, files[j])
}

/// What is sent again is what was sent: two manifests of safe paths match exactly if they have the
/// same total and equally many files, and for every file that is expected there is one at the same
/// path, of the same size, with the same digest and changed at the same time.
pub proof fn law_changed_files_do_not_match(expected: ManifestModel, actual: ManifestModel)
    requires
        forall|i: int|
            0 <= i < expected.files.len() ==> is_safe((#[trigger] expected.files[i]).relative_path),
        forall|i: int|
            0 <= i < actual.files.len() ==> is_safe((#[trigger] actual.files[i]).relative_path),
    ensures
        matching(expected, actual) <==> {
            &&& expected.total_size == actual.total_size
            &&& expected.files.len() == actual.files.len()
            &&& forall|i: int|
                0 <= i < expected.files.len() ==> finds_unchanged(
                    actual.files,
                    #[trigger] expected.files[i],
                )
        },
{
    assert forall|i: int| 0 <= i < expected.files.len() implies holds_file(
        actual.files,
        #[trigger] expected.files[i],
    ) == finds_unchanged(actual.files, expected.files[i]) by {
        let file = expected.files[i];
        if holds_file(actual.files, file) {
            let j = choose|j: int|
                0 <= j < actual.files.len() && same_file(file, #[trigger] actual.files[j]);
            law_same_paths(file.relative_path, actual.files[j].relative_path);
            assert(actual.files[j].relative_path == file.relative_path);
            assert(unchanged(file, actual.files[j]));
        }
        if finds_unchanged(actual.files, file) {
            let j = choose|j: int|
                0 <= j < actual.files.len() && (#[trigger] actual.files[j]).relative_path
                    == file.relative_path && unchanged(file, actual.files[j]);
            law_same_paths(file.relative_path, actual.files[j].relative_path);
            assert(same_file(file, actual.files[j]));
        }
    }
}

/// However its paths are written, a manifest that matches holds, for every file that is expected,
/// one of the same size, with the same digest and changed at the same time, whose path has the same
/// parts.
pub proof fn law_matching_files_are_unchanged(
    expected: ManifestModel,
    actual: ManifestModel,
    i: int,
)
    requires
        matching(expected, actual),
        0 <= i < expected.files.len(),
    ensures
        exists|j: int|
            0 <= j < actual.files.len() && unchanged(expected.files[i], #[trigger] actual.files[j])
                && same_path(expected.files[i].relative_path, actual.files[j].relative_path),
{
    let file = expected.files[i];
    assert(holds_file(actual.files, file));
    let j = choose|j: int|
        0 <= j < actual.files.len() && same_file(file, #[trigger] actual.files[j]);
    assert(unchanged(file, actual.files[j]));
}

/// What is wrong with a directory to receive to is told as far as a user can do something about it:
/// none was named, nothing can be written to it, or it cannot be used.
pub proof fn law_directories_are_judged_for_users(error: DestinationError)
    ensures
        directory_error(error) == AppCommandError::EmptyOutputDirectory <==> error
            == DestinationError::Empty,
        directory_error(error) == AppCommandError::OutputDirectoryNotWritable <==> error
            == DestinationError::NotWritable,
        directory_error(error) == AppCommandError::OutputDirectoryUnavailable <==> error
            == DestinationError::Unavailable || error == DestinationError::NotDirectory || error
            == DestinationError::SymlinkNotAllowed,
{
}

/// A command to send is carried out exactly if the settings could be loaded and there is something
/// to send: all of it is sent, through the relay that is set exactly while it is enabled.
pub proof fn law_commands_to_send(
    settings: Result<DriftSettings, SettingsError>,
    paths: Seq<Seq<char>>,
)
    ensures
        send_plan(settings, paths) is Ok <==> settings is Ok && paths.len() > 0,
        send_plan(settings, paths) matches Ok(plan) ==> {
            let relay = settings->Ok_0.relay;
            &&& plan.paths == paths
            &&& !relay.enabled ==> plan.relay is None
            &&& relay.enabled ==> plan.relay == optional_text(relay.url)
        },
        settings matches Err(error) ==> send_plan(settings, paths) == Err::<
            SendModel,
            AppCommandError,
        >(AppCommandError::SettingsLoad(error)),
{
}

/// A command to receive is carried out exactly if the settings could be loaded, there is a code, and
/// there is a directory in which files can be written: what was chosen, or else the default. The
/// code is used as it was given.
pub proof fn law_commands_to_receive(
    settings: Result<DriftSettings, SettingsError>,
    checked: Result<(), DestinationError>,
    code: Seq<char>,
    chosen: Option<Seq<char>>,
    default_directory: Seq<char>,
    directory: Seq<char>,
)
    ensures
        ({
            let some_code = exists|i: int| 0 <= i < code.len() && !is_space(#[trigger] code[i]);
            &&& directory_plan(settings, code, chosen, default_directory) is Ok <==> settings is Ok
                && some_code
            &&& directory_plan(settings, code, chosen, default_directory) matches Ok(plan) ==> (
            chosen matches Some(own) ==> plan == own) && (chosen is None ==> plan
                == default_directory)
            &&& settings is Ok && !some_code ==> directory_plan(
                settings,
                code,
                chosen,
                default_directory,
            ) == Err::<Seq<char>, AppCommandError>(AppCommandError::EmptyTransferCode)
            &&& receive_plan(settings, checked, code, directory) is Ok <==> settings is Ok
                && checked is Ok && some_code && directory.len() > 0
            &&& receive_plan(settings, checked, code, directory) matches Ok(plan) ==> {
                let relay = settings->Ok_0.relay;
                &&& plan.code == code
                &&& plan.output_directory == directory
                &&& !relay.enabled ==> plan.relay is None
                &&& relay.enabled ==> plan.relay == optional_text(relay.url)
            }
            &&& settings is Ok && checked == Err::<(), DestinationError>(
                DestinationError::NotWritable,
            ) ==> receive_plan(settings, checked, code, directory) == Err::<
                ReceiveModel,
                AppCommandError,
            >(AppCommandError::OutputDirectoryNotWritable)
        }),
{
}

/// What was sent is looked at where it was; what was received takes a code, and is received to the
/// directory that is chosen or else to the one it went to.
pub proof fn law_what_recovery_looks_at(
    source_paths: Seq<Seq<char>>,
    output_directory: Seq<char>,
    code: Option<Seq<char>>,
    chosen: Option<Seq<char>>,
)
    ensures
        recovery_plan(ResumeRequestModel::Send { source_paths }, code, chosen) == Ok::<
            ResumeRequestModel,
            AppCommandError,
        >(ResumeRequestModel::Send { source_paths }),
        ({
            let plan = recovery_plan(
                ResumeRequestModel::Receive { output_directory },
                code,
                chosen,
            );
            let some_code = code matches Some(text) && exists|i: int|
                0 <= i < text.len() && !is_space(#[trigger] text[i]);
            &&& plan is Ok <==> some_code
            &&& !some_code ==> plan == Err::<ResumeRequestModel, AppCommandError>(
                AppCommandError::EmptyTransferCode,
            )
            &&& plan matches Ok(request) ==> request == (ResumeRequestModel::Receive {
                output_directory: match chosen {
                    Some(own) => own,
                    None => output_directory,
                },
            })
        }),
{
}

} // verus!
