//! What settings are taken for valid, and what becomes of them.
use vstd::prelude::*;
use crate::file_name::file_name_of;
use crate::io_kind::IoErrorKind;
use crate::scan::{begins_with, law_numbers_are_read_back, split_on};
use crate::settings::{
    authority_of, authority_valid, below, bracketed_valid, config_path, loaded, port_valid,
    receive_directory_of, relay_url_valid, save_fault, save_step, ConfigPathError, DriftSettings,
    Environment, PathProbe, Platform, SettingsError, SettingsRead, SettingsSaveStage,
    SettingsSource, SettingsValidationError,
};
use crate::text::{decimal, is_space};

verus! {

/// Settings are valid exactly if there is something to run, the relay has a sound URL where it has
/// one and has one where it is in use, there is some time to wait, there is a directory to receive
/// to or one that it can be made in, and nothing confidential is written out.
pub proof fn law_settings_that_can_be_used(
    settings: DriftSettings,
    found: PathProbe,
    above: PathProbe,
)
    ensures
        settings.fault(found, above) is None <==> {
            &&& settings.transfer.croc_executable@.len() > 0
            &&& settings.relay.url matches Some(url) ==> relay_url_valid(url@)
            &&& settings.relay.enabled ==> settings.relay.url is Some
            &&& settings.transfer.timeout_secs > 0
            &&& settings.transfer.default_receive_directory@.len() > 0
            &&& found == PathProbe::Directory || (found == PathProbe::Missing && above
                == PathProbe::Directory)
            &&& settings.privacy.redact_sensitive_values
        },
        settings.fault(found, above) == Some(SettingsValidationError::EmptyCrocExecutable)
            <==> settings.transfer.croc_executable@.len() == 0,
        settings.fault(found, above) == Some(SettingsValidationError::InvalidRelayUrl) ==> (
        settings.relay.url matches Some(url) && !relay_url_valid(url@)),
        settings.fault(found, above) == Some(SettingsValidationError::MissingRelayUrl)
            ==> settings.relay.enabled && settings.relay.url is None,
        settings.fault(found, above) == Some(SettingsValidationError::NonPositiveTimeout)
            ==> settings.transfer.timeout_secs == 0,
        settings.fault(found, above) == Some(SettingsValidationError::EmptyReceiveDirectory)
            ==> settings.transfer.default_receive_directory@.len() == 0,
        settings.fault(found, above) == Some(SettingsValidationError::UnusableReceiveDirectory)
            ==> found != PathProbe::Directory,
        settings.fault(found, above) == Some(SettingsValidationError::PrivacyRedactionDisabled)
            ==> !settings.privacy.redact_sensitive_values,
{
}

/// A relay is used exactly while it is enabled, and then it is the one that is set.
pub proof fn law_disabled_relays_are_not_used(settings: DriftSettings)
    ensures
        !settings.relay.enabled ==> settings.relay.effective() is None,
        settings.relay.enabled ==> (settings.relay.url matches Some(url)
            ==> settings.relay.effective() == Some(url@)),
        settings.relay.url is None ==> settings.relay.effective() is None,
{
}

/// A character that ends what names a host in a URL.
pub open spec fn ends_host(c: char) -> bool {
    c == '/' || c == '?' || c == '#'
}

proof fn lemma_authority(host: Seq<char>, tail: Seq<char>)
    requires
        forall|i: int| 0 <= i < host.len() ==> !ends_host(#[trigger] host[i]),
        tail.len() > 0 ==> ends_host(tail[0]),
    ensures
        authority_of(host + tail) == host,
    decreases host.len(),
{
    let rest = host + tail;
    if host.len() > 0 {
        assert(rest[0] == host[0]);
        assert(rest.skip(1) =~= host.skip(1) + tail);
        lemma_authority(host.skip(1), tail);
        assert(seq![host[0]] + host.skip(1) =~= host);
    } else {
        assert(rest =~= tail);
    }
}

proof fn lemma_no_colon(text: Seq<char>)
    requires
        forall|i: int| 0 <= i < text.len() ==> #[trigger] text[i] != ':',
    ensures
        split_on(text, ':') == seq![text],
    decreases text.len(),
{
    if text.len() > 0 {
        let rest = text.drop_last();
        assert forall|i: int| 0 <= i < rest.len() implies #[trigger] rest[i] != ':' by {
            assert(rest[i] == text[i]);
        }
        lemma_no_colon(rest);
        assert(text[text.len() - 1] != ':');
        assert(rest.push(text.last()) =~= text);
        assert(split_on(text, ':') =~= seq![text]);
    } else {
        assert(text =~= Seq::empty());
    }
}

proof fn lemma_one_colon(host: Seq<char>, port: Seq<char>)
    requires
        forall|i: int| 0 <= i < host.len() ==> #[trigger] host[i] != ':',
        forall|i: int| 0 <= i < port.len() ==> #[trigger] port[i] != ':',
    ensures
        split_on(host + seq![':'] + port, ':') == seq![host, port],
    decreases port.len(),
{
    let text = host + seq![':'] + port;
    if port.len() > 0 {
        let rest = port.drop_last();
        assert forall|i: int| 0 <= i < rest.len() implies #[trigger] rest[i] != ':' by {
            assert(rest[i] == port[i]);
        }
        lemma_one_colon(host, rest);
        assert(text.drop_last() =~= host + seq![':'] + rest);
        assert(port[port.len() - 1] != ':');
        assert(rest.push(port.last()) =~= port);
        assert(split_on(text, ':') =~= seq![host, port]);
    } else {
        lemma_no_colon(host);
        assert(text.drop_last() =~= host);
        assert(port =~= Seq::empty());
        assert(split_on(text, ':') =~= seq![host, port]);
    }
}

/// A name of a host: not empty, and without the characters that mean something else in a URL.
pub open spec fn plain_host(host: Seq<char>) -> bool {
    &&& host.len() > 0
    &&& host[0] != '['
    &&& forall|i: int|
        0 <= i < host.len() ==> !ends_host(#[trigger] host[i]) && host[i] != ':' && host[i] != '@'
            && !is_space(host[i])
}

/// What may follow the host in a URL.
pub open spec fn plain_tail(tail: Seq<char>) -> bool {
    &&& tail.len() > 0 ==> ends_host(tail[0])
    &&& forall|i: int| 0 <= i < tail.len() ==> !is_space(#[trigger] tail[i])
}

proof fn lemma_scheme(scheme: Seq<char>, rest: Seq<char>)
    requires
        scheme == "http://"@ || scheme == "https://"@,
        forall|i: int| 0 <= i < rest.len() ==> !is_space(#[trigger] rest[i]),
    ensures
        relay_url_valid(scheme + rest) <==> authority_valid(authority_of(rest)),
{
    reveal_strlit("http://");
    reveal_strlit("https://");
    let url = scheme + rest;
    assert(url.skip(scheme.len() as int) =~= rest);
    assert(url.take(scheme.len() as int) =~= scheme);
    assert forall|i: int| 0 <= i < url.len() implies !is_space(#[trigger] url[i]) by {
        if i >= scheme.len() {
            assert(url[i] == rest[i - scheme.len()]);
        }
    }
    if scheme == "http://"@ {
        assert(url[4] == scheme[4]);
        assert(!begins_with(url, "https://"@)) by {
            if begins_with(url, "https://"@) {
                assert("https://"@[4] == url.take(8)[4]);
                assert(url.take(8)[4] == url[4]);
            }
        }
    } else {
        assert(url[4] == scheme[4]);
        assert(!begins_with(url, "http://"@)) by {
            if begins_with(url, "http://"@) {
                assert("http://"@[4] == url.take(7)[4]);
                assert(url.take(7)[4] == url[4]);
            }
        }
    }
}

/// A relay is named by `http` or `https` and a host, perhaps with a port from 1 to 65535 and perhaps
/// with more behind it.
pub proof fn law_relays_are_named_by_host_and_port(
    scheme: Seq<char>,
    host: Seq<char>,
    port: nat,
    tail: Seq<char>,
)
    requires
        scheme == "http://"@ || scheme == "https://"@,
        plain_host(host),
        plain_tail(tail),
    ensures
        relay_url_valid(scheme + (host + tail)),
        relay_url_valid(scheme + (host + seq![':'] + decimal(port) + tail)) <==> 1 <= port <= 65535,
{
    let number = decimal(port);
    law_numbers_are_read_back(port);
    lemma_authority(host, tail);
    lemma_scheme(scheme, host + tail);
    lemma_no_colon(host);
    assert(!host.contains('@'));
    let named = host + seq![':'] + number;
    assert forall|i: int| 0 <= i < named.len() implies !ends_host(#[trigger] named[i]) && !is_space(
        named[i],
    ) && named[i] != '@' by {
        if i < host.len() {
            assert(named[i] == host[i]);
        } else if i > host.len() {
            assert(named[i] == number[i - host.len() - 1]);
        }
    }
    lemma_authority(named, tail);
    assert forall|i: int| 0 <= i < (named + tail).len() implies !is_space(
        #[trigger] (named + tail)[i],
    ) by {
        if i < named.len() {
            assert((named + tail)[i] == named[i]);
        } else {
            assert((named + tail)[i] == tail[i - named.len()]);
        }
    }
    lemma_scheme(scheme, named + tail);
    assert forall|i: int| 0 <= i < number.len() implies #[trigger] number[i] != ':' by {}
    lemma_one_colon(host, number);
    assert(named[0] == host[0]);
    assert(!named.contains('@'));
    assert(split_on(named, ':')[0] == host && split_on(named, ':')[1] == number);
}

/// A URL with white space in it, with another scheme, without a host or with a user name is no
/// relay's.
pub proof fn law_other_urls_name_no_relay(
    url: Seq<char>,
    scheme: Seq<char>,
    authority: Seq<char>,
    tail: Seq<char>,
)
    requires
        scheme == "http://"@ || scheme == "https://"@,
        forall|i: int| 0 <= i < authority.len() ==> !ends_host(#[trigger] authority[i]),
        plain_tail(tail),
    ensures
        relay_url_valid(url) ==> url.len() > 7 && url[0] == 'h' && url[1] == 't' && url[2] == 't'
            && url[3] == 'p' && (url[4] == ':' || (url[4] == 's' && url[5] == ':')),
        relay_url_valid(url) ==> forall|i: int| 0 <= i < url.len() ==> !is_space(#[trigger] url[i]),
        authority.len() == 0 || authority.contains('@') ==> !relay_url_valid(
            scheme + (authority + tail),
        ),
{
    reveal_strlit("http://");
    reveal_strlit("https://");
    if relay_url_valid(url) {
        if begins_with(url, "http://"@) {
            assert(url.take(7)[0] == 'h' && url.take(7)[1] == 't' && url.take(7)[2] == 't'
                && url.take(7)[3] == 'p' && url.take(7)[4] == ':');
            assert(url.len() == 7 ==> url.skip(7).len() == 0);
        } else {
            assert(url.take(8)[0] == 'h' && url.take(8)[1] == 't' && url.take(8)[2] == 't'
                && url.take(8)[3] == 'p' && url.take(8)[4] == 's' && url.take(8)[5] == ':');
        }
    }
    lemma_authority(authority, tail);
    let rest = authority + tail;
    if forall|i: int| 0 <= i < rest.len() ==> !is_space(#[trigger] rest[i]) {
        lemma_scheme(scheme, rest);
    } else {
        let i = choose|i: int| 0 <= i < rest.len() && is_space(#[trigger] rest[i]);
        assert((scheme + rest)[scheme.len() + i] == rest[i]);
    }
}

/// Settings that cannot be read are told apart from those that cannot be understood and those that
/// are not there; the latter are replaced by the defaults.
pub proof fn law_loading_tells_what_went_wrong(
    defaults: DriftSettings,
    settings: DriftSettings,
    kind: IoErrorKind,
    found: PathProbe,
    above: PathProbe,
)
    ensures
        loaded(SettingsRead::Failed(kind), defaults, found, above) matches Err(error) && error
            == SettingsError::Read(kind),
        loaded(SettingsRead::Unparsable, defaults, found, above) matches Err(error) && error
            == SettingsError::Parse,
        loaded(SettingsRead::Missing, defaults, found, above) matches Ok(result) ==> result.settings
            == defaults && result.source == SettingsSource::Defaults,
        loaded(SettingsRead::Parsed(settings), defaults, found, above) matches Ok(result)
            ==> result.settings == settings && result.source == SettingsSource::File,
        loaded(SettingsRead::Missing, defaults, found, above) is Ok <==> defaults.fault(
            found,
            above,
        ) is None,
        loaded(SettingsRead::Parsed(settings), defaults, found, above) is Ok <==> settings.fault(
            found,
            above,
        ) is None,
{
}

/// Where a save that went well so far stands after a number of steps.
pub open spec fn saved_after(steps: nat) -> SettingsSaveStage
    decreases steps,
{
    if steps == 0 {
        SettingsSaveStage::Serialize
    } else {
        save_step(saved_after((steps - 1) as nat), Ok(()))->Ok_0
    }
}

/// A save goes through a file of its own that takes the place of the old one last of all: it is
/// done after four steps and not before, and nothing that fails leaves that file behind.
pub proof fn law_saves_replace_the_old_file_last(stage: SettingsSaveStage, kind: IoErrorKind)
    ensures
        saved_after(4) == SettingsSaveStage::Saved,
        saved_after(3) == SettingsSaveStage::Rename,
        saved_after(2) == SettingsSaveStage::WriteTemporary,
        save_step(stage, Ok(())) == Ok::<SettingsSaveStage, SettingsError>(SettingsSaveStage::Saved)
            ==> stage == SettingsSaveStage::Rename || stage == SettingsSaveStage::Saved,
        stage != SettingsSaveStage::Saved ==> save_step(stage, Err(kind)) != Ok::<
            SettingsSaveStage,
            SettingsError,
        >(SettingsSaveStage::Saved),
        save_step(SettingsSaveStage::Rename, Err(kind)) == Ok::<SettingsSaveStage, SettingsError>(
            SettingsSaveStage::RemoveTemporary { cause: kind },
        ),
        save_step(SettingsSaveStage::RemoveTemporary { cause: kind }, Ok(())) == Err::<
            SettingsSaveStage,
            SettingsError,
        >(SettingsError::Write(kind)),
        save_step(SettingsSaveStage::RemoveTemporary { cause: kind }, Err(IoErrorKind::Other))
            == Err::<SettingsSaveStage, SettingsError>(SettingsError::Write(kind)),
        save_step(SettingsSaveStage::WriteTemporary, Err(kind)) == Err::<
            SettingsSaveStage,
            SettingsError,
        >(SettingsError::Write(kind)),
        save_step(SettingsSaveStage::CreateDirectory, Err(kind)) == Err::<
            SettingsSaveStage,
            SettingsError,
        >(SettingsError::Write(kind)),
        save_step(SettingsSaveStage::Serialize, Err(kind)) == Err::<
            SettingsSaveStage,
            SettingsError,
        >(SettingsError::Serialization),
{
    reveal_with_fuel(saved_after, 5);
}

/// Settings are saved exactly if they are valid and the path names a file.
pub proof fn law_sound_settings_are_saved(
    path: Seq<char>,
    settings: DriftSettings,
    found: PathProbe,
    above: PathProbe,
)
    ensures
        save_fault(path, settings, found, above) is None <==> file_name_of(path) is Some
            && settings.fault(found, above) is None,
        file_name_of(path) is None ==> save_fault(path, settings, found, above) == Some(
            SettingsError::InvalidPath,
        ),
{
}

/// What lies below a directory that is named begins with the directory and ends with the name, with
/// one slash between them.
pub proof fn law_paths_below_a_directory(directory: Seq<char>, name: Seq<char>)
    ensures
        ({
            let path = below(directory, name);
            &&& directory.len() == 0 ==> path == name
            &&& directory.len() > 0 ==> {
                let gap: int = if directory[directory.len() - 1] == '/' {
                    0
                } else {
                    1
                };
                &&& path.len() == directory.len() + gap + name.len()
                &&& path.take(directory.len() as int) == directory
                &&& path.skip(directory.len() + gap) == name
                &&& path[directory.len() - 1] == '/' || path[directory.len() as int] == '/'
            }
        }),
{
    let path = below(directory, name);
    if directory.len() > 0 {
        assert(path.take(directory.len() as int) =~= directory);
        if directory.last() == '/' {
            assert(path.skip(directory.len() as int) =~= name);
            assert(path[directory.len() - 1] == '/');
        } else {
            assert(path.skip(directory.len() + 1int) =~= name);
        }
    }
}

/// The configuration is kept in a file of the same name everywhere, and is found exactly if the
/// user's directory is; a directory that is set for it goes before the user's own.
pub proof fn law_configuration_has_its_place(environment: Environment)
    ensures
        ({
            let set = |value: Option<String>| value matches Some(text) && text@.len() > 0;
            let home = set(environment.home) || set(environment.user_profile);
            &&& config_path(Platform::MacOs, environment) is Ok <==> home
            &&& config_path(Platform::Windows, environment) is Ok <==> home || set(
                environment.app_data,
            )
            &&& config_path(Platform::Other, environment) is Ok <==> home || set(
                environment.xdg_config_home,
            )
            &&& set(environment.app_data) ==> config_path(Platform::Windows, environment) == Ok::<
                Seq<char>,
                ConfigPathError,
            >(below(below(environment.app_data->Some_0@, "Drift"@), "config.json"@))
            &&& set(environment.xdg_config_home) ==> config_path(Platform::Other, environment)
                == Ok::<Seq<char>, ConfigPathError>(
                below(below(environment.xdg_config_home->Some_0@, "drift"@), "config.json"@),
            )
            &&& set(environment.home) ==> receive_directory_of(environment) == below(
                environment.home->Some_0@,
                "Downloads"@,
            )
            &&& !set(environment.home) && set(environment.user_profile) ==> receive_directory_of(
                environment,
            ) == below(environment.user_profile->Some_0@, "Downloads"@)
            &&& !home ==> receive_directory_of(environment) == "."@
        }),
{
}

/// A host may also be named in brackets, so that it can hold colons.
pub proof fn law_hosts_may_stand_in_brackets(
    scheme: Seq<char>,
    inner: Seq<char>,
    port: nat,
    tail: Seq<char>,
)
    requires
        scheme == "http://"@ || scheme == "https://"@,
        inner.len() > 0,
        forall|i: int|
            0 <= i < inner.len() ==> !ends_host(#[trigger] inner[i]) && inner[i] != ']' && inner[i]
                != '@' && !is_space(inner[i]),
        plain_tail(tail),
    ensures
        relay_url_valid(scheme + (seq!['['] + inner + seq![']'] + tail)),
        relay_url_valid(
            scheme + (seq!['['] + inner + seq![']', ':'] + decimal(port) + tail),
        ) <==> 1 <= port <= 65535,
        !relay_url_valid(scheme + (seq!['[', ']'] + tail)),
        !relay_url_valid(scheme + (seq!['['] + inner + tail)),
{
    let number = decimal(port);
    law_numbers_are_read_back(port);
    let host = seq!['['] + inner + seq![']'];
    let named = seq!['['] + inner + seq![']', ':'] + number;
    let open = seq!['['] + inner;
    let empty = seq!['[', ']'];
    let end = inner.len() + 1int;
    assert(host[end] == ']' && named[end] == ']' && named[end + 1] == ':');
    assert(forall|i: int| 0 < i < end ==> host[i] == inner[i - 1]);
    assert(forall|i: int| 0 < i < end ==> named[i] == inner[i - 1]);
    assert(forall|i: int| 0 < i < end ==> open[i] == inner[i - 1]);
    assert(named.skip(end + 2) =~= number);
    assert forall|i: int| 0 <= i < named.len() implies !ends_host(#[trigger] named[i]) && named[i]
        != '@' && !is_space(named[i]) by {
        if 0 < i < end {
            assert(named[i] == inner[i - 1]);
        } else if i > end + 1 {
            assert(named[i] == number[i - end - 2]);
        }
    }
    assert forall|i: int| 0 <= i < host.len() implies !ends_host(#[trigger] host[i]) && host[i]
        != '@' && !is_space(host[i]) by {
        if 0 < i < end {
            assert(host[i] == inner[i - 1]);
        }
    }
    assert forall|i: int| 0 <= i < open.len() implies !ends_host(#[trigger] open[i]) && open[i]
        != '@' && open[i] != ']' && !is_space(open[i]) by {
        if i > 0 {
            assert(open[i] == inner[i - 1]);
        }
    }
    lemma_bracketed(scheme, host, tail);
    lemma_bracketed(scheme, named, tail);
    lemma_bracketed(scheme, open, tail);
    lemma_bracketed(scheme, empty, tail);
    assert(bracketed_valid(host)) by {
        assert forall|k: int| 0 <= k < end implies host[k] != ']' by {
            if k > 0 {
                assert(host[k] == inner[k - 1]);
            }
        }
        assert(host[end] == ']');
    }
    assert forall|k: int| 0 <= k < end implies named[k] != ']' by {
        if k > 0 {
            assert(named[k] == inner[k - 1]);
        }
    }
    if 1 <= port <= 65535 {
        assert(port_valid(named.skip(end + 2)));
        assert(named[end] == ']');
        assert(bracketed_valid(named));
    }
    if bracketed_valid(named) {
        let k = choose|k: int|
            #![trigger named[k]]
            {
                &&& 1 < k < named.len()
                &&& named[k] == ']'
                &&& forall|j: int| 0 <= j < k ==> named[j] != ']'
                &&& (k + 1 < named.len() && named[k + 1] == ':' ==> port_valid(named.skip(k + 2)))
            };
        assert(k == end) by {
            if k > end {
                assert(named[end] != ']');
            }
        }
        assert(port_valid(number));
    }
    assert(!bracketed_valid(open));
    assert(!bracketed_valid(empty));
}

proof fn lemma_bracketed(scheme: Seq<char>, authority: Seq<char>, tail: Seq<char>)
    requires
        scheme == "http://"@ || scheme == "https://"@,
        authority.len() > 0,
        authority[0] == '[',
        forall|i: int|
            0 <= i < authority.len() ==> !ends_host(#[trigger] authority[i]) && authority[i] != '@'
                && !is_space(authority[i]),
        plain_tail(tail),
    ensures
        relay_url_valid(scheme + (authority + tail)) <==> bracketed_valid(authority),
{
    lemma_authority(authority, tail);
    let rest = authority + tail;
    assert forall|i: int| 0 <= i < rest.len() implies !is_space(#[trigger] rest[i]) by {
        if i < authority.len() {
            assert(rest[i] == authority[i]);
        } else {
            assert(rest[i] == tail[i - authority.len()]);
        }
    }
    lemma_scheme(scheme, rest);
    assert(!authority.contains('@'));
}

} // verus!
