//! Settings: their defaults, where they are kept, and what makes them valid.
use vstd::prelude::*;
use crate::file_name::{
    directory_above, directory_above_of, file_name, file_name_of, replace_extension, with_extension,
};
use crate::io_kind::IoErrorKind;
use crate::resume::is_empty_text;
use crate::scan::{
    begins_with, parse_number, parsed_number, piece_views, skip_chars, split, split_on,
    starts_with,
};
use crate::text::{
    chars_of, flag_name, flag_text, is_space, is_whitespace, optional_text, push_seconds,
    seconds_text,
};

verus! {

const DEFAULT_TIMEOUT_SECS: u64 = 1_800;

#[derive(Clone, PartialEq, Eq)]
pub struct DriftSettings {
    pub relay: RelaySettings,
    pub transfer: TransferSettings,
    pub ui: UiSettings,
    pub privacy: PrivacySettings,
}

/// A relay of the user's own; it is used only while it is enabled.
#[derive(Clone, PartialEq, Eq)]
pub struct RelaySettings {
    pub enabled: bool,
    pub url: Option<String>,
}

#[derive(Clone, PartialEq, Eq)]
pub struct TransferSettings {
    pub croc_executable: String,
    pub default_receive_directory: String,
    pub timeout_secs: u64,
}

#[derive(Debug, Clone, Copy, PartialEq, Eq, Structural)]
pub struct UiSettings {
    pub show_notifications: bool,
}

#[derive(Debug, Clone, Copy, PartialEq, Eq, Structural)]
pub struct PrivacySettings {
    pub redact_sensitive_values: bool,
}

impl Default for RelaySettings {
    fn default() -> (settings: Self)
        ensures
            !settings.enabled,
            settings.url is None,
    {
        Self { enabled: false, url: None }
    }
}

impl Default for UiSettings {
    fn default() -> (settings: Self)
        ensures
            settings.show_notifications,
    {
        Self { show_notifications: true }
    }
}

impl Default for PrivacySettings {
    fn default() -> (settings: Self)
        ensures
            settings.redact_sensitive_values,
    {
        Self { redact_sensitive_values: true }
    }
}

/// Whether settings are those of a fresh installation whose downloads go to `receive_directory`.
pub open spec fn is_default(settings: DriftSettings, receive_directory: Seq<char>) -> bool {
    &&& !settings.relay.enabled
    &&& settings.relay.url is None
    &&& settings.transfer.croc_executable@ == "croc"@
    &&& settings.transfer.default_receive_directory@ == receive_directory
    &&& settings.transfer.timeout_secs == 1_800
    &&& settings.ui.show_notifications
    &&& settings.privacy.redact_sensitive_values
}

#[derive(Debug, Clone, Copy, PartialEq, Eq, Structural)]
pub enum SettingsValidationError {
    EmptyCrocExecutable,
    MissingRelayUrl,
    InvalidRelayUrl,
    NonPositiveTimeout,
    EmptyReceiveDirectory,
    UnusableReceiveDirectory,
    PrivacyRedactionDisabled,
}

impl SettingsValidationError {
    pub fn message(self) -> (text: &'static str)
        ensures
            text@ == match self {
                SettingsValidationError::EmptyCrocExecutable =>
                    "croc executable path must not be empty"@,
                SettingsValidationError::MissingRelayUrl =>
                    "an enabled relay must have a URL"@,
                SettingsValidationError::InvalidRelayUrl =>
                    "relay URL must use http or https and include a host"@,
                SettingsValidationError::NonPositiveTimeout =>
                    "transfer timeout must be positive"@,
                SettingsValidationError::EmptyReceiveDirectory =>
                    "default receive directory must not be empty"@,
                SettingsValidationError::UnusableReceiveDirectory =>
                    "default receive directory is not usable"@,
                SettingsValidationError::PrivacyRedactionDisabled =>
                    "privacy settings must redact sensitive values"@,
            },
    {
        match self {
            Self::EmptyCrocExecutable => "croc executable path must not be empty",
            Self::MissingRelayUrl => "an enabled relay must have a URL",
            Self::InvalidRelayUrl => "relay URL must use http or https and include a host",
            Self::NonPositiveTimeout => "transfer timeout must be positive",
            Self::EmptyReceiveDirectory => "default receive directory must not be empty",
            Self::UnusableReceiveDirectory => "default receive directory is not usable",
            Self::PrivacyRedactionDisabled => "privacy settings must redact sensitive values",
        }
    }
}

#[derive(Debug, Clone, Copy, PartialEq, Eq, Structural)]
pub enum ConfigPathError {
    HomeDirectoryUnavailable,
    ConfigDirectoryUnavailable,
}

impl ConfigPathError {
    pub fn message(self) -> (text: &'static str)
        ensures
            text@ == match self {
                ConfigPathError::HomeDirectoryUnavailable => "home directory is unavailable"@,
                ConfigPathError::ConfigDirectoryUnavailable =>
                    "configuration directory is unavailable"@,
            },
    {
        match self {
            Self::HomeDirectoryUnavailable => "home directory is unavailable",
            Self::ConfigDirectoryUnavailable => "configuration directory is unavailable",
        }
    }
}

#[derive(Debug, Clone, Copy, PartialEq, Eq, Structural)]
pub enum SettingsError {
    Read(IoErrorKind),
    Parse,
    Validation(SettingsValidationError),
    InvalidPath,
    Serialization,
    Write(IoErrorKind),
}

impl SettingsError {
    pub fn message(self) -> (text: &'static str)
        ensures
            text@ == match self {
                SettingsError::Read(_) => "configuration file could not be read"@,
                SettingsError::Parse => "configuration file contains invalid JSON"@,
                SettingsError::Validation(_) => "configuration values are invalid"@,
                SettingsError::InvalidPath => "configuration path must name a file"@,
                SettingsError::Serialization => "configuration file could not be serialized"@,
                SettingsError::Write(_) => "configuration file could not be written"@,
            },
    {
        match self {
            Self::Read(_) => "configuration file could not be read",
            Self::Parse => "configuration file contains invalid JSON",
            Self::Validation(_) => "configuration values are invalid",
            Self::InvalidPath => "configuration path must name a file",
            Self::Serialization => "configuration file could not be serialized",
            Self::Write(_) => "configuration file could not be written",
        }
    }
}

impl From<SettingsValidationError> for SettingsError {
    fn from(error: SettingsValidationError) -> (wrapped: Self) {
        Self::Validation(error)
    }
}

impl vstd::std_specs::convert::FromSpecImpl<SettingsValidationError> for SettingsError {
    open spec fn obeys_from_spec() -> bool {
        true
    }

    open spec fn from_spec(error: SettingsValidationError) -> Self {
        SettingsError::Validation(error)
    }
}

/// What is found at a path.
#[derive(Debug, Clone, Copy, PartialEq, Eq, Structural)]
pub enum PathProbe {
    Directory,
    NotDirectory,
    Missing,
    Failed,
}

/// A directory to receive to is there, or can be made in the directory above it.
pub open spec fn receive_directory_fault(
    path: Seq<char>,
    found: PathProbe,
    above: PathProbe,
) -> Option<SettingsValidationError> {
    if path.len() == 0 {
        Some(SettingsValidationError::EmptyReceiveDirectory)
    } else if found == PathProbe::Directory || (found == PathProbe::Missing && above
        == PathProbe::Directory) {
        None
    } else {
        Some(SettingsValidationError::UnusableReceiveDirectory)
    }
}

/// Judges a default receive directory by what is found at its path and at the path above it.
pub fn validate_receive_directory(path: &str, found: PathProbe, above: PathProbe) -> (result:
    Result<(), SettingsValidationError>)
    ensures
        result == (match receive_directory_fault(path@, found, above) {
            Some(error) => Err(error),
            None => Ok::<(), SettingsValidationError>(()),
        }),
{
    if is_empty_text(path) {
        return Err(SettingsValidationError::EmptyReceiveDirectory);
    }
    match found {
        PathProbe::Directory => Ok(()),
        PathProbe::Missing => match above {
            PathProbe::Directory => Ok(()),
            _ => Err(SettingsValidationError::UnusableReceiveDirectory),
        },
        PathProbe::NotDirectory | PathProbe::Failed => Err(
            SettingsValidationError::UnusableReceiveDirectory,
        ),
    }
}

/// The part of a URL after its scheme, up to the first slash, question mark or hash sign.
pub open spec fn authority_of(rest: Seq<char>) -> Seq<char>
    decreases rest.len(),
{
    if rest.len() == 0 || rest[0] == '/' || rest[0] == '?' || rest[0] == '#' {
        Seq::empty()
    } else {
        seq![rest[0]] + authority_of(rest.skip(1))
    }
}

pub open spec fn port_valid(port: Seq<char>) -> bool {
    parsed_number(port) matches Some(number) && 0 < number <= 65535
}

/// A host in brackets that is not empty, and a valid port if a colon follows the bracket.
pub open spec fn bracketed_valid(authority: Seq<char>) -> bool {
    exists|end: int|
        #![trigger authority[end]]
        {
            &&& 1 < end < authority.len()
            &&& authority[end] == ']'
            &&& forall|k: int| 0 <= k < end ==> authority[k] != ']'
            &&& (end + 1 < authority.len() && authority[end + 1] == ':' ==> port_valid(
                authority.skip(end + 2),
            ))
        }
}

/// A host that is not empty, and a valid port if there is one.
pub open spec fn host_and_port_valid(authority: Seq<char>) -> bool {
    let pieces = split_on(authority, ':');
    &&& pieces[0].len() > 0
    &&& pieces.len() == 1 || (pieces.len() == 2 && port_valid(pieces[1]))
}

pub open spec fn authority_valid(authority: Seq<char>) -> bool {
    &&& authority.len() > 0
    &&& !authority.contains('@')
    &&& if authority[0] == '[' {
        bracketed_valid(authority)
    } else {
        host_and_port_valid(authority)
    }
}

/// A relay URL: no white space, `http` or `https`, no user name, a host and perhaps a port.
pub open spec fn relay_url_valid(url: Seq<char>) -> bool {
    &&& forall|i: int| 0 <= i < url.len() ==> !is_space(#[trigger] url[i])
    &&& {
        ||| begins_with(url, "http://"@) && authority_valid(
            authority_of(url.skip("http://"@.len() as int)),
        )
        ||| begins_with(url, "https://"@) && authority_valid(
            authority_of(url.skip("https://"@.len() as int)),
        )
    }
}

fn valid_port(port: &[char]) -> (valid: bool)
    ensures
        valid == port_valid(port@),
{
    match parse_number(port) {
        Some(number) => 0 < number && number <= 65535,
        None => false,
    }
}

fn cut_authority<'a>(rest: &'a [char]) -> (authority: &'a [char])
    ensures
        authority@ == authority_of(rest@),
{
    let mut end: usize = 0;
    assert(rest@.skip(0) =~= rest@);
    assert(rest@.take(0) + authority_of(rest@) =~= authority_of(rest@));
    while end < rest.len() && rest[end] != '/' && rest[end] != '?' && rest[end] != '#'
        invariant
            end <= rest@.len(),
            authority_of(rest@) == rest@.take(end as int) + authority_of(rest@.skip(end as int)),
        decreases rest@.len() - end,
    {
        assert(rest@.skip(end as int).skip(1) =~= rest@.skip(end as int + 1));
        assert(rest@.take(end as int) + (seq![rest@[end as int]] + authority_of(
            rest@.skip(end as int + 1),
        )) =~= rest@.take(end as int + 1) + authority_of(rest@.skip(end as int + 1)));
        end = end + 1;
    }
    let authority = vstd::slice::slice_subrange(rest, 0, end);
    assert(authority@ =~= rest@.take(end as int) + authority_of(rest@.skip(end as int)));
    authority
}

fn valid_bracketed(authority: &[char]) -> (valid: bool)
    requires
        authority@.len() > 0,
        authority@[0] == '[',
    ensures
        valid == bracketed_valid(authority@),
{
    let mut end: usize = 0;
    while end < authority.len() && authority[end] != ']'
        invariant
            end <= authority@.len(),
            forall|k: int| 0 <= k < end ==> authority@[k] != ']',
        decreases authority@.len() - end,
    {
        end = end + 1;
    }
    if end == authority.len() || end == 1 {
        return false;
    }
    assert(authority@[end as int] == ']');
    let valid = if end + 1 < authority.len() && authority[end + 1] == ':' {
        valid_port(skip_chars(authority, end + 2))
    } else {
        true
    };
    proof {
        if bracketed_valid(authority@) {
            let found = choose|e: int|
                #![trigger authority@[e]]
                {
                    &&& 1 < e < authority@.len()
                    &&& authority@[e] == ']'
                    &&& forall|k: int| 0 <= k < e ==> authority@[k] != ']'
                    &&& (e + 1 < authority@.len() && authority@[e + 1] == ':' ==> port_valid(
                        authority@.skip(e + 2),
                    ))
                };
            assert(found == end);
        }
    }
    valid
}

fn valid_host_and_port(authority: &[char]) -> (valid: bool)
    ensures
        valid == host_and_port_valid(authority@),
{
    let pieces = split(authority, ':');
    let ghost views = piece_views(pieces@);
    proof {
        crate::scan::lemma_split_nonempty(authority@, ':');
        assert(views[0] == pieces@[0]@);
    }
    if pieces[0].len() == 0 {
        return false;
    }
    if pieces.len() == 1 {
        return true;
    }
    assert(views[1] == pieces@[1]@);
    pieces.len() == 2 && valid_port(&pieces[1])
}

fn valid_authority(authority: &[char]) -> (valid: bool)
    ensures
        valid == authority_valid(authority@),
{
    if authority.len() == 0 {
        return false;
    }
    let mut i: usize = 0;
    while i < authority.len()
        invariant
            i <= authority@.len(),
            forall|k: int| 0 <= k < i ==> authority@[k] != '@',
        decreases authority@.len() - i,
    {
        if authority[i] == '@' {
            assert(authority@.contains('@'));
            return false;
        }
        i = i + 1;
    }
    if authority[0] == '[' {
        valid_bracketed(authority)
    } else {
        valid_host_and_port(authority)
    }
}

/// Whether a text is a URL that can be used as a relay.
pub fn is_valid_relay_url(value: &str) -> (valid: bool)
    ensures
        valid == relay_url_valid(value@),
{
    let url = chars_of(value);
    let mut i: usize = 0;
    while i < url.len()
        invariant
            i <= url@.len(),
            url@ == value@,
            forall|k: int| 0 <= k < i ==> !is_space(#[trigger] url@[k]),
        decreases url@.len() - i,
    {
        if is_whitespace(url[i]) {
            assert(is_space(value@[i as int]));
            return false;
        }
        i = i + 1;
    }
    let plain = chars_of("http://");
    let secure = chars_of("https://");
    proof {
        reveal_strlit("http://");
        reveal_strlit("https://");
        if begins_with(url@, plain@) && begins_with(url@, secure@) {
            assert(url@.take(plain@.len() as int)[4] == url@[4]);
            assert(url@.take(secure@.len() as int)[4] == url@[4]);
        }
    }
    if starts_with(&url, &plain) {
        return valid_authority(cut_authority(skip_chars(&url, plain.len())));
    }
    if starts_with(&url, &secure) {
        return valid_authority(cut_authority(skip_chars(&url, secure.len())));
    }
    false
}

impl RelaySettings {
    pub open spec fn effective(self) -> Option<Seq<char>> {
        if self.enabled {
            optional_text(self.url)
        } else {
            None
        }
    }

    /// The relay to use, if one is set and enabled.
    pub fn effective_url(&self) -> (url: Option<&str>)
        ensures
            match url {
                Some(text) => self.effective() == Some(text@),
                None => self.effective() is None,
            },
    {
        if !self.enabled {
            return None;
        }
        match &self.url {
            Some(url) => Some(url.as_str()),
            None => None,
        }
    }

    pub open spec fn fault(self) -> Option<SettingsValidationError> {
        match self.url {
            Some(url) => if relay_url_valid(url@) {
                None
            } else {
                Some(SettingsValidationError::InvalidRelayUrl)
            },
            None => if self.enabled {
                Some(SettingsValidationError::MissingRelayUrl)
            } else {
                None
            },
        }
    }

    pub fn validate(&self) -> (result: Result<(), SettingsValidationError>)
        ensures
            result == (match self.fault() {
                Some(error) => Err(error),
                None => Ok::<(), SettingsValidationError>(()),
            }),
    {
        match &self.url {
            Some(url) => if is_valid_relay_url(url.as_str()) {
                Ok(())
            } else {
                Err(SettingsValidationError::InvalidRelayUrl)
            },
            None => if self.enabled {
                Err(SettingsValidationError::MissingRelayUrl)
            } else {
                Ok(())
            },
        }
    }

    pub open spec fn text(self) -> Seq<char> {
        "RelaySettings { url_configured: "@ + flag_text(self.url is Some) + " }"@
    }

    pub fn description(&self) -> (text: String)
        ensures
            text@ == self.text(),
    {
        let mut text = "RelaySettings { url_configured: ".to_owned();
        text.append(flag_name(self.url.is_some()));
        text.append(" }");
        text
    }
}

impl TransferSettings {
    pub fn default(environment: &Environment) -> (settings: Self)
        ensures
            settings.croc_executable@ == "croc"@,
            settings.default_receive_directory@ == receive_directory_of(*environment),
            settings.timeout_secs == 1_800,
    {
        Self {
            croc_executable: "croc".to_owned(),
            default_receive_directory: default_receive_directory(environment),
            timeout_secs: DEFAULT_TIMEOUT_SECS,
        }
    }

    pub open spec fn text(self) -> Seq<char> {
        "TransferSettings { croc_executable_configured: "@ + flag_text(
            self.croc_executable@.len() > 0,
        ) + ", default_receive_directory_configured: "@ + flag_text(
            self.default_receive_directory@.len() > 0,
        ) + ", timeout: "@ + seconds_text(self.timeout_secs) + " }"@
    }

    pub fn description(&self) -> (text: String)
        ensures
            text@ == self.text(),
    {
        let mut text = "TransferSettings { croc_executable_configured: ".to_owned();
        text.append(flag_name(!is_empty_text(self.croc_executable.as_str())));
        text.append(", default_receive_directory_configured: ");
        text.append(flag_name(!is_empty_text(self.default_receive_directory.as_str())));
        text.append(", timeout: ");
        push_seconds(&mut text, self.timeout_secs);
        text.append(" }");
        text
    }
}

impl DriftSettings {
    /// The first thing that is wrong with settings, given what is found at the default receive
    /// directory and above it.
    pub open spec fn fault(self, found: PathProbe, above: PathProbe) -> Option<
        SettingsValidationError,
    > {
        if self.transfer.croc_executable@.len() == 0 {
            Some(SettingsValidationError::EmptyCrocExecutable)
        } else if self.relay.fault() is Some {
            self.relay.fault()
        } else if self.transfer.timeout_secs == 0 {
            Some(SettingsValidationError::NonPositiveTimeout)
        } else if receive_directory_fault(
            self.transfer.default_receive_directory@,
            found,
            above,
        ) is Some {
            receive_directory_fault(self.transfer.default_receive_directory@, found, above)
        } else if !self.privacy.redact_sensitive_values {
            Some(SettingsValidationError::PrivacyRedactionDisabled)
        } else {
            None
        }
    }

    pub fn validate(&self, found: PathProbe, above: PathProbe) -> (result: Result<
        (),
        SettingsValidationError,
    >)
        ensures
            result == (match self.fault(found, above) {
                Some(error) => Err(error),
                None => Ok::<(), SettingsValidationError>(()),
            }),
    {
        if is_empty_text(self.transfer.croc_executable.as_str()) {
            return Err(SettingsValidationError::EmptyCrocExecutable);
        }
        self.relay.validate()?;
        if self.transfer.timeout_secs == 0 {
            return Err(SettingsValidationError::NonPositiveTimeout);
        }
        validate_receive_directory(
            self.transfer.default_receive_directory.as_str(),
            found,
            above,
        )?;
        if !self.privacy.redact_sensitive_values {
            return Err(SettingsValidationError::PrivacyRedactionDisabled);
        }
        Ok(())
    }

    /// The settings of a fresh installation, for a user with this environment.
    pub fn default(environment: &Environment) -> (settings: Self)
        ensures
            is_default(settings, receive_directory_of(*environment)),
    {
        Self {
            relay: RelaySettings::default(),
            transfer: TransferSettings::default(environment),
            ui: UiSettings::default(),
            privacy: PrivacySettings::default(),
        }
    }

    /// The same settings with another relay.
    pub fn with_relay(self, relay: RelaySettings) -> (settings: Self)
        ensures
            settings == (DriftSettings { relay, ..self }),
    {
        Self { relay, transfer: self.transfer, ui: self.ui, privacy: self.privacy }
    }

    /// Settings in writing; the relay and the paths are not written out.
    pub open spec fn text(self) -> Seq<char> {
        "DriftSettings { relay_configured: "@ + flag_text(self.relay.url is Some)
            + ", transfer: "@ + self.transfer.text() + ", ui: UiSettings { show_notifications: "@
            + flag_text(self.ui.show_notifications)
            + " }, privacy: PrivacySettings { redact_sensitive_values: "@ + flag_text(
            self.privacy.redact_sensitive_values,
        ) + " } }"@
    }

    pub fn description(&self) -> (text: String)
        ensures
            text@ == self.text(),
    {
        let mut text = "DriftSettings { relay_configured: ".to_owned();
        text.append(flag_name(self.relay.url.is_some()));
        text.append(", transfer: ");
        text.append(&self.transfer.description());
        text.append(", ui: UiSettings { show_notifications: ");
        text.append(flag_name(self.ui.show_notifications));
        text.append(" }, privacy: PrivacySettings { redact_sensitive_values: ");
        text.append(flag_name(self.privacy.redact_sensitive_values));
        text.append(" } }");
        text
    }
}

/// Fresh settings are valid wherever their receive directory can be used.
pub proof fn law_default_settings_are_valid(
    settings: DriftSettings,
    receive_directory: Seq<char>,
    found: PathProbe,
    above: PathProbe,
)
    requires
        is_default(settings, receive_directory),
        receive_directory_fault(receive_directory, found, above) is None,
    ensures
        settings.fault(found, above) is None,
{
    reveal_strlit("croc");
}

/// Settings read the same whatever relay and paths they hold.
pub proof fn law_settings_text_hides_values(first: DriftSettings, second: DriftSettings)
    requires
        first.relay.url is Some == second.relay.url is Some,
        first.transfer.croc_executable@.len() > 0 <==> second.transfer.croc_executable@.len() > 0,
        first.transfer.default_receive_directory@.len() > 0
            <==> second.transfer.default_receive_directory@.len() > 0,
        first.transfer.timeout_secs == second.transfer.timeout_secs,
        first.ui == second.ui,
        first.privacy == second.privacy,
    ensures
        first.text() == second.text(),
{
}

#[derive(Debug, Clone, Copy, PartialEq, Eq, Structural)]
pub enum SettingsSource {
    Defaults,
    File,
}

impl SettingsSource {
    pub fn as_str(self) -> (name: &'static str)
        ensures
            name@ == match self {
                SettingsSource::Defaults => "defaults"@,
                SettingsSource::File => "file"@,
            },
    {
        match self {
            Self::Defaults => "defaults",
            Self::File => "file",
        }
    }
}

pub struct LoadedSettings {
    pub settings: DriftSettings,
    pub source: SettingsSource,
}

/// What reading the configuration file gave.
pub enum SettingsRead {
    Missing,
    Failed(IoErrorKind),
    Unparsable,
    Parsed(DriftSettings),
}

/// Where the configuration file is.
#[derive(Debug, Clone, PartialEq, Eq)]
pub struct SettingsLoader {
    path: String,
}

impl SettingsLoader {
    pub closed spec fn path_spec(self) -> Seq<char> {
        self.path@
    }

    /// The loader for the place where this platform keeps configuration.
    pub fn new(platform: Platform, environment: &Environment) -> (result: Result<
        Self,
        ConfigPathError,
    >)
        ensures
            match config_path(platform, *environment) {
                Ok(path) => result matches Ok(loader) && loader.path_spec() == path,
                Err(error) => result == Err::<SettingsLoader, ConfigPathError>(error),
            },
    {
        let path = default_config_path(platform, environment)?;
        Ok(Self { path })
    }

    pub fn with_path(path: &str) -> (loader: Self)
        ensures
            loader.path_spec() == path@,
    {
        Self { path: path.to_owned() }
    }

    pub fn test_override(path: &str) -> (loader: Self)
        ensures
            loader.path_spec() == path@,
    {
        Self::with_path(path)
    }

    pub fn path(&self) -> (path: &str)
        ensures
            path@ == self.path_spec(),
    {
        self.path.as_str()
    }

    /// The settings that a read of the file amounts to. `found` and `above` tell what is at the
    /// default receive directory of the settings that were read, or of `defaults` where there is no
    /// file.
    pub fn load(
        read: SettingsRead,
        defaults: DriftSettings,
        found: PathProbe,
        above: PathProbe,
    ) -> (result: Result<LoadedSettings, SettingsError>)
        ensures
            result == loaded(read, defaults, found, above),
    {
        match read {
            SettingsRead::Failed(kind) => Err(SettingsError::Read(kind)),
            SettingsRead::Unparsable => Err(SettingsError::Parse),
            SettingsRead::Missing => match defaults.validate(found, above) {
                Err(error) => Err(SettingsError::Validation(error)),
                Ok(()) => Ok(
                    LoadedSettings { settings: defaults, source: SettingsSource::Defaults },
                ),
            },
            SettingsRead::Parsed(settings) => match settings.validate(found, above) {
                Err(error) => Err(SettingsError::Validation(error)),
                Ok(()) => Ok(LoadedSettings { settings, source: SettingsSource::File }),
            },
        }
    }

    /// Begins to save settings: the directory that they go to, and the file that they are written
    /// to before they replace the old ones. Settings that are not valid are not saved.
    pub fn save(&self, settings: &DriftSettings, found: PathProbe, above: PathProbe) -> (result:
        Result<SettingsSave, SettingsError>)
        ensures
            match save_fault(self.path_spec(), *settings, found, above) {
                Some(error) => result == Err::<SettingsSave, SettingsError>(error),
                None => result matches Ok(save) && save.directory@ == directory_above_of(
                    self.path_spec(),
                ) && save.temporary_path@ == with_extension(self.path_spec(), "json.tmp"@),
            },
    {
        if file_name(self.path.as_str()).is_none() {
            return Err(SettingsError::InvalidPath);
        }
        match settings.validate(found, above) {
            Err(error) => Err(SettingsError::Validation(error)),
            Ok(()) => Ok(
                SettingsSave {
                    directory: directory_above(self.path.as_str()),
                    temporary_path: replace_extension(self.path.as_str(), "json.tmp"),
                },
            ),
        }
    }
}

/// What a read of the configuration file amounts to: defaults where there is no file, and nothing
/// that is not valid.
pub open spec fn loaded(
    read: SettingsRead,
    defaults: DriftSettings,
    found: PathProbe,
    above: PathProbe,
) -> Result<LoadedSettings, SettingsError> {
    match read {
        SettingsRead::Failed(kind) => Err(SettingsError::Read(kind)),
        SettingsRead::Unparsable => Err(SettingsError::Parse),
        SettingsRead::Missing => match defaults.fault(found, above) {
            Some(error) => Err(SettingsError::Validation(error)),
            None => Ok(LoadedSettings { settings: defaults, source: SettingsSource::Defaults }),
        },
        SettingsRead::Parsed(settings) => match settings.fault(found, above) {
            Some(error) => Err(SettingsError::Validation(error)),
            None => Ok(LoadedSettings { settings, source: SettingsSource::File }),
        },
    }
}

/// Why settings are not saved to a path.
pub open spec fn save_fault(
    path: Seq<char>,
    settings: DriftSettings,
    found: PathProbe,
    above: PathProbe,
) -> Option<SettingsError> {
    if file_name_of(path) is None {
        Some(SettingsError::InvalidPath)
    } else {
        match settings.fault(found, above) {
            Some(error) => Some(SettingsError::Validation(error)),
            None => None,
        }
    }
}

/// Where a save goes by.
#[derive(Debug, Clone, PartialEq, Eq)]
pub struct SettingsSave {
    pub directory: String,
    pub temporary_path: String,
}

/// How far a save has come: the next thing to do.
#[derive(Debug, Clone, Copy, PartialEq, Eq, Structural)]
pub enum SettingsSaveStage {
    Serialize,
    CreateDirectory,
    WriteTemporary,
    Rename,
    RemoveTemporary { cause: IoErrorKind },
    Saved,
}

/// What follows the outcome of a step: the next step, or the error that the save ends in. Where
/// the new file cannot take the place of the old one, it is removed first.
pub open spec fn save_step(stage: SettingsSaveStage, outcome: Result<(), IoErrorKind>) -> Result<
    SettingsSaveStage,
    SettingsError,
> {
    match (stage, outcome) {
        (SettingsSaveStage::Serialize, Ok(())) => Ok(SettingsSaveStage::CreateDirectory),
        (SettingsSaveStage::Serialize, Err(_)) => Err(SettingsError::Serialization),
        (SettingsSaveStage::CreateDirectory, Ok(())) => Ok(SettingsSaveStage::WriteTemporary),
        (SettingsSaveStage::CreateDirectory, Err(kind)) => Err(SettingsError::Write(kind)),
        (SettingsSaveStage::WriteTemporary, Ok(())) => Ok(SettingsSaveStage::Rename),
        (SettingsSaveStage::WriteTemporary, Err(kind)) => Err(SettingsError::Write(kind)),
        (SettingsSaveStage::Rename, Ok(())) => Ok(SettingsSaveStage::Saved),
        (SettingsSaveStage::Rename, Err(cause)) => Ok(SettingsSaveStage::RemoveTemporary { cause }),
        (SettingsSaveStage::RemoveTemporary { cause }, _) => Err(SettingsError::Write(cause)),
        (SettingsSaveStage::Saved, _) => Ok(SettingsSaveStage::Saved),
    }
}

impl SettingsSaveStage {
    pub fn next(self, outcome: Result<(), IoErrorKind>) -> (result: Result<Self, SettingsError>)
        ensures
            result == save_step(self, outcome),
    {
        match self {
            Self::Serialize => match outcome {
                Ok(()) => Ok(Self::CreateDirectory),
                Err(_) => Err(SettingsError::Serialization),
            },
            Self::CreateDirectory => match outcome {
                Ok(()) => Ok(Self::WriteTemporary),
                Err(kind) => Err(SettingsError::Write(kind)),
            },
            Self::WriteTemporary => match outcome {
                Ok(()) => Ok(Self::Rename),
                Err(kind) => Err(SettingsError::Write(kind)),
            },
            Self::Rename => match outcome {
                Ok(()) => Ok(Self::Saved),
                Err(cause) => Ok(Self::RemoveTemporary { cause }),
            },
            Self::RemoveTemporary { cause } => Err(SettingsError::Write(cause)),
            Self::Saved => Ok(Self::Saved),
        }
    }
}

/// What could be saved can be loaded again as it was.
pub proof fn law_saved_settings_load(
    path: Seq<char>,
    settings: DriftSettings,
    defaults: DriftSettings,
    found: PathProbe,
    above: PathProbe,
)
    requires
        save_fault(path, settings, found, above) is None,
    ensures
        loaded(SettingsRead::Parsed(settings), defaults, found, above) == Ok::<
            LoadedSettings,
            SettingsError,
        >(LoadedSettings { settings, source: SettingsSource::File }),
{
}

/// Nothing that is loaded is invalid.
pub proof fn law_loaded_settings_are_valid(
    read: SettingsRead,
    defaults: DriftSettings,
    found: PathProbe,
    above: PathProbe,
)
    requires
        loaded(read, defaults, found, above) is Ok,
    ensures
        loaded(read, defaults, found, above)->Ok_0.settings.fault(found, above) is None,
{
}

#[derive(Debug, Clone, Copy, PartialEq, Eq, Structural)]
pub enum Platform {
    MacOs,
    Windows,
    Other,
}

/// The variables that name a user's directories; one that is empty counts as not set.
pub struct Environment {
    pub home: Option<String>,
    pub user_profile: Option<String>,
    pub app_data: Option<String>,
    pub xdg_config_home: Option<String>,
}

pub open spec fn nonempty(value: Option<String>) -> Option<Seq<char>> {
    match value {
        Some(text) => if text@.len() > 0 {
            Some(text@)
        } else {
            None
        },
        None => None,
    }
}

/// A path below a directory.
pub open spec fn below(directory: Seq<char>, name: Seq<char>) -> Seq<char> {
    if directory.len() == 0 {
        name
    } else if directory.last() == '/' {
        directory + name
    } else {
        directory + seq!['/'] + name
    }
}

pub open spec fn home_of(environment: Environment) -> Option<Seq<char>> {
    match nonempty(environment.home) {
        Some(home) => Some(home),
        None => nonempty(environment.user_profile),
    }
}

pub open spec fn config_path(platform: Platform, environment: Environment) -> Result<
    Seq<char>,
    ConfigPathError,
> {
    let home = home_of(environment);
    match platform {
        Platform::MacOs => match home {
            Some(home) => Ok(
                below(
                    below(below(below(home, "Library"@), "Application Support"@), "Drift"@),
                    "config.json"@,
                ),
            ),
            None => Err(ConfigPathError::HomeDirectoryUnavailable),
        },
        Platform::Windows => match (nonempty(environment.app_data), home) {
            (Some(root), _) | (None, Some(root)) => Ok(
                below(below(root, "Drift"@), "config.json"@),
            ),
            (None, None) => Err(ConfigPathError::ConfigDirectoryUnavailable),
        },
        Platform::Other => match (nonempty(environment.xdg_config_home), home) {
            (Some(root), _) => Ok(below(below(root, "drift"@), "config.json"@)),
            (None, Some(home)) => Ok(
                below(below(below(home, ".config"@), "drift"@), "config.json"@),
            ),
            (None, None) => Err(ConfigPathError::ConfigDirectoryUnavailable),
        },
    }
}

/// Where files are received to, unless the user says otherwise.
pub open spec fn receive_directory_of(environment: Environment) -> Seq<char> {
    match home_of(environment) {
        Some(home) => below(home, "Downloads"@),
        None => "."@,
    }
}

pub(crate) fn join_path(directory: &str, name: &str) -> (path: String)
    ensures
        path@ == below(directory@, name@),
{
    let chars = chars_of(directory);
    let mut path = directory.to_owned();
    if chars.len() > 0 && chars[chars.len() - 1] != '/' {
        path.push('/');
        assert(path@ =~= directory@ + seq!['/']);
    }
    path.append(name);
    assert(path@ =~= below(directory@, name@));
    path
}

fn set_value(value: &Option<String>) -> (set: Option<&str>)
    ensures
        match set {
            Some(text) => nonempty(*value) == Some(text@),
            None => nonempty(*value) is None,
        },
{
    match value {
        Some(text) => if is_empty_text(text.as_str()) {
            None
        } else {
            Some(text.as_str())
        },
        None => None,
    }
}

pub fn home_dir(environment: &Environment) -> (result: Result<&str, ConfigPathError>)
    ensures
        match home_of(*environment) {
            Some(home) => result matches Ok(text) && text@ == home,
            None => result == Err::<&str, ConfigPathError>(
                ConfigPathError::HomeDirectoryUnavailable,
            ),
        },
{
    match set_value(&environment.home) {
        Some(home) => Ok(home),
        None => match set_value(&environment.user_profile) {
            Some(home) => Ok(home),
            None => Err(ConfigPathError::HomeDirectoryUnavailable),
        },
    }
}

/// The configuration file of a user.
pub fn default_config_path(platform: Platform, environment: &Environment) -> (result: Result<
    String,
    ConfigPathError,
>)
    ensures
        match config_path(platform, *environment) {
            Ok(path) => result matches Ok(text) && text@ == path,
            Err(error) => result == Err::<String, ConfigPathError>(error),
        },
{
    match platform {
        Platform::MacOs => {
            let home = home_dir(environment)?;
            let library = join_path(home, "Library");
            let support = join_path(library.as_str(), "Application Support");
            let root = join_path(support.as_str(), "Drift");
            Ok(join_path(root.as_str(), "config.json"))
        },
        Platform::Windows => {
            let base = match set_value(&environment.app_data) {
                Some(root) => root,
                None => match home_dir(environment) {
                    Ok(home) => home,
                    Err(_) => {
                        return Err(ConfigPathError::ConfigDirectoryUnavailable);
                    },
                },
            };
            let root = join_path(base, "Drift");
            Ok(join_path(root.as_str(), "config.json"))
        },
        Platform::Other => {
            let base = match set_value(&environment.xdg_config_home) {
                Some(root) => root.to_owned(),
                None => match home_dir(environment) {
                    Ok(home) => join_path(home, ".config"),
                    Err(_) => {
                        return Err(ConfigPathError::ConfigDirectoryUnavailable);
                    },
                },
            };
            let root = join_path(base.as_str(), "drift");
            Ok(join_path(root.as_str(), "config.json"))
        },
    }
}

/// The default receive directory of a user.
pub fn default_receive_directory(environment: &Environment) -> (path: String)
    ensures
        path@ == receive_directory_of(*environment),
{
    match home_dir(environment) {
        Ok(home) => join_path(home, "Downloads"),
        Err(_) => ".".to_owned(),
    }
}

} // verus!
