use drift::settings::{
    default_receive_directory, is_valid_relay_url, ConfigPathError, DriftSettings, Environment,
    PathProbe, Platform, RelaySettings, SettingsError, SettingsLoader, SettingsRead, SettingsSave,
    SettingsSaveStage, SettingsSource, SettingsValidationError,
};
use drift::file_name::{ancestors, directory_above, is_same_path, parent, replace_extension};
use drift::io_kind::IoErrorKind;

fn defaults() -> DriftSettings {
    DriftSettings::default(&environment(Some("/home/a"), None, None))
}

fn validate(settings: &DriftSettings) -> Result<(), SettingsValidationError> {
    settings.validate(PathProbe::Directory, PathProbe::Directory)
}

fn load(read: SettingsRead) -> Result<(DriftSettings, SettingsSource), SettingsError> {
    SettingsLoader::load(
        read,
        defaults(),
        PathProbe::Directory,
        PathProbe::Directory,
    )
    .map(|loaded| (loaded.settings, loaded.source))
}

#[test]
fn missing_file_uses_defaults() {
    let (settings, source) = load(SettingsRead::Missing).unwrap();
    assert!(settings == defaults());
    assert_eq!(source, SettingsSource::Defaults);
}

#[test]
fn valid_settings_are_taken_from_the_file() {
    let mut settings = defaults();
    settings.relay.url = Some("https://relay.example.test:443".into());
    settings.transfer.croc_executable = "/opt/bin/croc".into();
    settings.transfer.timeout_secs = 90;
    let (loaded, source) = load(SettingsRead::Parsed(settings.clone())).unwrap();
    assert!(loaded == settings);
    assert_eq!(source, SettingsSource::File);
    assert_eq!(source.as_str(), "file");
}

#[test]
fn rejects_empty_executable_path() {
    let mut settings = defaults();
    settings.transfer.croc_executable = String::new();
    assert_eq!(
        validate(&settings),
        Err(SettingsValidationError::EmptyCrocExecutable)
    );
}

#[test]
fn rejects_invalid_relay_url() {
    let mut settings = defaults();
    settings.relay.url = Some("ftp://relay.example.test".into());
    assert_eq!(
        validate(&settings),
        Err(SettingsValidationError::InvalidRelayUrl)
    );
}

#[test]
fn rejects_non_positive_timeout() {
    let mut settings = defaults();
    settings.transfer.timeout_secs = 0;
    assert_eq!(
        validate(&settings),
        Err(SettingsValidationError::NonPositiveTimeout)
    );
}

#[test]
fn rejects_unusable_receive_directory() {
    let mut settings = defaults();
    settings.transfer.default_receive_directory = "/tmp/missing/nested".into();
    assert_eq!(
        settings.validate(PathProbe::Missing, PathProbe::Missing),
        Err(SettingsValidationError::UnusableReceiveDirectory)
    );
    assert_eq!(
        settings.validate(PathProbe::Missing, PathProbe::Directory),
        Ok(())
    );
    settings.transfer.default_receive_directory = String::new();
    assert_eq!(
        validate(&settings),
        Err(SettingsValidationError::EmptyReceiveDirectory)
    );
}

#[test]
fn rejects_disabled_sensitive_value_redaction() {
    let mut settings = defaults();
    settings.privacy.redact_sensitive_values = false;
    assert_eq!(
        validate(&settings),
        Err(SettingsValidationError::PrivacyRedactionDisabled)
    );
}

#[test]
fn debug_redacts_relay_value() {
    let mut settings = defaults();
    settings.relay.url = Some("https://secret-relay.example.test".into());
    let debug = settings.description();
    assert!(!debug.contains("secret-relay.example.test"));
    assert!(debug.contains("relay_configured: true"));

    let relay_debug = settings.relay.description();
    assert!(!relay_debug.contains("secret-relay.example.test"));
}

#[test]
fn invalid_json_returns_parse_error() {
    assert!(matches!(
        load(SettingsRead::Unparsable),
        Err(SettingsError::Parse)
    ));
    assert!(matches!(
        load(SettingsRead::Failed(IoErrorKind::PermissionDenied)),
        Err(SettingsError::Read(IoErrorKind::PermissionDenied))
    ));
}

#[test]
fn enabled_relays_need_a_url() {
    let mut settings = defaults();
    settings.relay = RelaySettings {
        enabled: true,
        url: None,
    };
    assert_eq!(
        validate(&settings),
        Err(SettingsValidationError::MissingRelayUrl)
    );
    assert_eq!(settings.relay.effective_url(), None);
    let disabled = RelaySettings {
        enabled: false,
        url: Some("https://relay.example.test".into()),
    };
    assert_eq!(disabled.effective_url(), None);
    assert_eq!(disabled.validate(), Ok(()));
}

#[test]
fn relay_urls_are_judged_part_by_part() {
    for good in [
        "http://relay",
        "https://relay.example.test:443/path?x#y",
        "https://[::1]",
        "https://[::1]:8080",
        "http://host:1",
    ] {
        assert!(is_valid_relay_url(good), "{good}");
    }
    for bad in [
        "relay",
        "https://",
        "https://:80",
        "https://host:0",
        "https://host:65536",
        "https://user@host",
        "https://a:b:c",
        "https://[]",
        "https://[::1",
        "https://[::1]:x",
        "https://ho st",
        "ftp://host",
    ] {
        assert!(!is_valid_relay_url(bad), "{bad}");
    }
}

fn environment(home: Option<&str>, app_data: Option<&str>, xdg: Option<&str>) -> Environment {
    Environment {
        home: home.map(str::to_owned),
        user_profile: None,
        app_data: app_data.map(str::to_owned),
        xdg_config_home: xdg.map(str::to_owned),
    }
}

#[test]
fn configuration_lives_where_the_platform_keeps_it() {
    let path = |platform, environment: Environment| {
        SettingsLoader::new(platform, &environment).map(|loader| loader.path().to_owned())
    };
    assert_eq!(
        path(Platform::MacOs, environment(Some("/Users/a"), None, None)).unwrap(),
        "/Users/a/Library/Application Support/Drift/config.json"
    );
    assert_eq!(
        path(Platform::Other, environment(Some("/home/a"), None, Some("/xdg"))).unwrap(),
        "/xdg/drift/config.json"
    );
    assert_eq!(
        path(Platform::Other, environment(Some("/home/a"), None, None)).unwrap(),
        "/home/a/.config/drift/config.json"
    );
    assert_eq!(
        path(Platform::MacOs, environment(None, None, None)).err(),
        Some(ConfigPathError::HomeDirectoryUnavailable)
    );
    assert_eq!(
        SettingsLoader::test_override("/tmp/config.json").path(),
        "/tmp/config.json"
    );
    assert_eq!(
        default_receive_directory(&environment(Some("/home/a"), None, None)),
        "/home/a/Downloads"
    );
}

#[test]
fn settings_are_described_without_their_values() {
    assert_eq!(
        defaults().description(),
        "DriftSettings { relay_configured: false, transfer: TransferSettings { \
         croc_executable_configured: true, default_receive_directory_configured: true, timeout: \
         1800s }, ui: UiSettings { show_notifications: true }, privacy: PrivacySettings { \
         redact_sensitive_values: true } }"
    );
}

#[test]
fn errors_about_settings_have_fixed_texts() {
    assert_eq!(
        SettingsError::from(SettingsValidationError::MissingRelayUrl).message(),
        "configuration values are invalid"
    );
    assert_eq!(
        ConfigPathError::ConfigDirectoryUnavailable.message(),
        "configuration directory is unavailable"
    );
}

fn save(path: &str, settings: &DriftSettings) -> Result<SettingsSave, SettingsError> {
    SettingsLoader::test_override(path).save(settings, PathProbe::Directory, PathProbe::Directory)
}

#[test]
fn saved_settings_are_loaded_as_they_were() {
    let mut settings = defaults();
    settings.relay.url = Some("https://relay.example.test:443".into());
    settings.transfer.croc_executable = "/opt/bin/croc".into();
    settings.transfer.timeout_secs = 90;
    assert_eq!(
        save("root/nested/config.json", &settings),
        Ok(SettingsSave {
            directory: "root/nested".to_owned(),
            temporary_path: "root/nested/config.json.tmp".to_owned(),
        })
    );
    let (loaded, source) = load(SettingsRead::Parsed(settings.clone())).unwrap();
    assert!(loaded == settings);
    assert_eq!(source, SettingsSource::File);
}

#[test]
fn settings_that_cannot_be_saved_are_refused() {
    let settings = defaults();
    assert_eq!(save("root/..", &settings), Err(SettingsError::InvalidPath));
    assert_eq!(save("", &settings), Err(SettingsError::InvalidPath));
    let mut invalid = defaults();
    invalid.relay.enabled = true;
    assert_eq!(
        save("config.json", &invalid),
        Err(SettingsError::Validation(
            SettingsValidationError::MissingRelayUrl
        ))
    );
}

#[test]
fn failed_saves_leave_no_temporary_file() {
    let full = Err(IoErrorKind::StorageFull);
    let stage = SettingsSaveStage::Serialize;
    assert_eq!(stage.next(full), Err(SettingsError::Serialization));
    let stage = stage.next(Ok(())).unwrap();
    assert_eq!(stage, SettingsSaveStage::CreateDirectory);
    assert_eq!(
        stage.next(full),
        Err(SettingsError::Write(IoErrorKind::StorageFull))
    );
    let stage = stage.next(Ok(())).unwrap();
    assert_eq!(stage, SettingsSaveStage::WriteTemporary);
    let stage = stage.next(Ok(())).unwrap();
    assert_eq!(stage, SettingsSaveStage::Rename);
    assert_eq!(stage.next(Ok(())), Ok(SettingsSaveStage::Saved));
    let stage = stage.next(full).unwrap();
    assert_eq!(
        stage,
        SettingsSaveStage::RemoveTemporary {
            cause: IoErrorKind::StorageFull
        }
    );
    assert_eq!(
        stage.next(Ok(())),
        Err(SettingsError::Write(IoErrorKind::StorageFull))
    );
}

#[test]
fn extensions_are_replaced_as_paths_do() {
    for path in [
        "config.json",
        "a/config.json",
        "a/.hidden",
        "a/..hidden",
        "a/name.",
        "a/name/",
        "a/name.x/.",
        "name",
        "a.b/c",
        "/a.tar.gz",
        "..",
        "/",
        "",
    ] {
        assert_eq!(
            replace_extension(path, "json.tmp"),
            std::path::Path::new(path)
                .with_extension("json.tmp")
                .to_str()
                .unwrap()
        );
    }
}

#[test]
fn directories_above_are_those_that_paths_have() {
    for path in [
        "", "/", "//", ".", "..", "/.", "./", "a", "a/", "a/.", "a/..", "./a", "../a", "/a", "/a/b",
        "a/b/c", "a//b", "a/./b", "/./a", "//a", "a/b/.//", "/a/../b", ".a", "..a/b",
    ] {
        let std_path = std::path::Path::new(path);
        assert_eq!(
            parent(path),
            std_path
                .parent()
                .map(|directory| directory.to_str().unwrap().to_owned()),
            "{path}"
        );
        let steps: Vec<String> = std_path
            .ancestors()
            .map(|step| step.to_str().unwrap().to_owned())
            .filter(|step| !step.is_empty())
            .collect();
        assert_eq!(ancestors(path), steps, "{path}");
    }
    assert_eq!(directory_above("a/b.json"), "a");
    assert_eq!(directory_above("b.json"), ".");
    assert_eq!(directory_above("/"), ".");
}

#[test]
fn fresh_settings_receive_to_the_downloads_of_the_user() {
    assert_eq!(
        defaults().transfer.default_receive_directory,
        "/home/a/Downloads"
    );
    assert_eq!(
        DriftSettings::default(&environment(None, None, None))
            .transfer
            .default_receive_directory,
        "."
    );
    assert_eq!(defaults().transfer.croc_executable, "croc");
    assert_eq!(defaults().transfer.timeout_secs, 1_800);
}

#[test]
fn paths_are_the_same_by_their_parts() {
    let paths = [
        "", "/", "//", ".", "./", "./.", "/.", "..", "a", "a/", "a/.", "./a", "/a", "//a", "/./a",
        "a/b", "a//b", "a/./b", "a/../b", "../a", "a/b/", "ab", "A", ".a", "a.",
    ];
    for first in paths {
        for second in paths {
            assert_eq!(
                is_same_path(first, second),
                std::path::Path::new(first) == std::path::Path::new(second),
                "{first} {second}"
            );
        }
    }
}
