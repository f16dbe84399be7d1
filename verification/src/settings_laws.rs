//! What settings are made of: each option of the command line and each entry of a file reaches
//! them, and each broken rule is named.

use vstd::prelude::*;

use crate::cli::{Refusal, RefusalView, RefusedOption, ServeArgs, ServeOption, ServeOptions};
use crate::config::{ForwardMode, Platform, RelayView, Settings, SettingsView};
use crate::duration::Duration;
use crate::endpoint::{Endpoint, EndpointView};
use crate::error::ConfigError;
use crate::load::{FileConfig, FileReading, GlobalFileConfig, RelayFileConfig};
use crate::text::NumberError;

verus! {

/// A span of exactly this many seconds.
pub open spec fn lasts_seconds(duration: Duration, seconds: nat) -> bool {
    duration.seconds() == seconds && duration.nanos() == 0
}

/// Settings with one relay and every option of single-relay mode as it stands on the command
/// line, or with its documented default where it is absent. The limits are those of the process.
pub open spec fn keep_options(settings: SettingsView, args: ServeArgs) -> bool {
    let relay = settings.relays[0];
    &&& settings.relays.len() == 1
    &&& relay.name == "default"@
    &&& relay.idle_timeout == args.idle_timeout
    &&& relay.tcp_keepalive == args.tcp_keepalive
    &&& relay.dns_refresh == args.dns_refresh
    &&& relay.socket_buffer_size == args.socket_buffer_size
    &&& relay.max_connections is None
    &&& relay.max_connecting is None
    &&& args.connect_timeout matches Some(given) ==> relay.connect_timeout == given
    &&& args.connect_timeout is None ==> lasts_seconds(relay.connect_timeout, 10)
    &&& args.buffer_size matches Some(given) ==> relay.buffer_size == given
    &&& args.buffer_size is None ==> relay.buffer_size == 16_384
    &&& settings.global_max_connections == args.max_connections
    &&& settings.global_max_connecting == args.max_connecting
    &&& settings.reuse_port == args.reuse_port
    &&& settings.metrics_tls_cert == args.metrics_tls_cert
    &&& settings.metrics_tls_key == args.metrics_tls_key
    &&& args.metrics_token matches Some(given) ==> settings.metrics_bearer_token == Some(given@)
    &&& args.metrics_token is None ==> settings.metrics_bearer_token is None
    &&& args.log_level matches Some(given) ==> settings.log_level == given@
    &&& args.log_level is None ==> settings.log_level == "info"@
    &&& args.shutdown_timeout matches Some(given) ==> settings.shutdown_timeout == given
    &&& args.shutdown_timeout is None ==> lasts_seconds(settings.shutdown_timeout, 30)
    &&& args.buffer_pool_size matches Some(given) ==> settings.buffer_pool_size == given
    &&& args.buffer_pool_size is None ==> settings.buffer_pool_size == 8_192
    &&& args.connection_log_sample_rate matches Some(given) ==> settings.connection_log_sample_rate
        == given
    &&& args.connection_log_sample_rate is None ==> settings.connection_log_sample_rate == 100
}

/// Every option of single-relay mode reaches the settings as it stands on the command line, and
/// takes its documented default where it is absent.
pub proof fn options_reach_the_view(
    args: ServeArgs,
    listen: EndpointView,
    target: EndpointView,
    forward_mode: ForwardMode,
    metrics_listen: Option<EndpointView>,
)
    ensures
        ({
            let settings = crate::load::cli_view(args, listen, target, forward_mode, metrics_listen);
            &&& keep_options(settings, args)
            &&& settings.relays[0].listen == listen
            &&& settings.relays[0].target == target
            &&& settings.relays[0].forward_mode == forward_mode
            &&& settings.metrics_listen == metrics_listen
        }),
{
    crate::duration::lemma_new_parts(10, 0);
    crate::duration::lemma_new_parts(30, 0);
}

/// The settings of a command line hold every option that stands on it, and the documented default
/// of every other one; its listener and target, its forwarding mode and its metrics listener are
/// what their texts read as.
pub proof fn options_reach_the_settings(args: ServeArgs, platform: Platform)
    ensures
        crate::load::cli_settings(args, platform) matches Ok(settings) ==> {
            &&& keep_options(settings, args)
            &&& args.listen matches Some(text) && crate::endpoint::parse_endpoint(text@, true, true)
                == Ok::<EndpointView, Seq<char>>(settings.relays[0].listen)
            &&& args.target matches Some(text) && crate::endpoint::parse_endpoint(
                text@,
                false,
                false,
            ) == Ok::<EndpointView, Seq<char>>(settings.relays[0].target)
            &&& reads_as_mode(
                args.forward_mode,
                ForwardMode::Auto,
                settings.relays[0].forward_mode,
            )
            &&& reads_as_listener(args.metrics_listen, settings.metrics_listen)
        },
{
    if let Ok(settings) = crate::load::cli_settings(args, platform) {
        options_reach_the_view(
            args,
            settings.relays[0].listen,
            settings.relays[0].target,
            settings.relays[0].forward_mode,
            settings.metrics_listen,
        );
    }
}

/// Settings for a listener and a target alone have all documented defaults: no limit but the
/// connect and shutdown timeouts, no metrics, and a relay called `default`.
pub proof fn single_settings_have_the_defaults_of_all_options(
    listen: Seq<char>,
    target: Seq<char>,
)
    ensures
        ({
            let first = crate::endpoint::parse_endpoint(listen, true, true);
            let second = crate::endpoint::parse_endpoint(target, false, false);
            let settings = crate::load::single_settings(listen, target);
            &&& settings is Ok <==> first is Ok && second is Ok
            &&& first is Err ==> settings == Err::<SettingsView, Seq<char>>(first->Err_0)
            &&& first is Ok && second is Err ==> settings == Err::<SettingsView, Seq<char>>(
                second->Err_0,
            )
            &&& settings matches Ok(settings) ==> {
                let relay = settings.relays[0];
                &&& settings.relays.len() == 1
                &&& relay.name == "default"@
                &&& Ok::<EndpointView, Seq<char>>(relay.listen) == first
                &&& Ok::<EndpointView, Seq<char>>(relay.target) == second
                &&& lasts_seconds(relay.connect_timeout, 10)
                &&& relay.idle_timeout is None
                &&& relay.max_connections is None
                &&& relay.max_connecting is None
                &&& relay.tcp_keepalive is None
                &&& relay.dns_refresh is None
                &&& relay.socket_buffer_size is None
                &&& relay.buffer_size == 16_384
                &&& relay.forward_mode == ForwardMode::Auto
                &&& settings.log_level == "info"@
                &&& settings.metrics_listen is None
                &&& settings.metrics_bearer_token is None
                &&& settings.metrics_tls_cert is None
                &&& settings.metrics_tls_key is None
                &&& lasts_seconds(settings.shutdown_timeout, 30)
                &&& settings.global_max_connections is None
                &&& settings.global_max_connecting is None
                &&& settings.buffer_pool_size == 8_192
                &&& settings.connection_log_sample_rate == 100
                &&& !settings.reuse_port
            }
        }),
{
    crate::duration::lemma_new_parts(10, 0);
    crate::duration::lemma_new_parts(30, 0);
}

/// An optional text of an endpoint has this reading.
pub open spec fn reads_as_listener(text: Option<String>, endpoint: Option<EndpointView>) -> bool {
    match text {
        None => endpoint is None,
        Some(text) => endpoint matches Some(endpoint) && crate::endpoint::parse_endpoint(
            text@,
            true,
            true,
        ) == Ok::<EndpointView, Seq<char>>(endpoint),
    }
}

/// An optional name of a forwarding mode has this reading; without a name it is `default`.
pub open spec fn reads_as_mode(
    text: Option<String>,
    default: ForwardMode,
    mode: ForwardMode,
) -> bool {
    match text {
        None => mode == default,
        Some(text) => crate::config::parse_forward_mode(text@) == Ok::<ForwardMode, Seq<char>>(
            mode,
        ),
    }
}

/// A command line gives settings exactly where it names a listener and a target, its texts can
/// be read, and the settings break no rule; and then those of its readings.
pub proof fn command_lines_give_settings(
    args: ServeArgs,
    platform: Platform,
    listen: EndpointView,
    target: EndpointView,
    forward_mode: ForwardMode,
    metrics_listen: Option<EndpointView>,
)
    requires
        args.listen matches Some(text) && crate::endpoint::parse_endpoint(text@, true, true)
            == Ok::<EndpointView, Seq<char>>(listen),
        args.target matches Some(text) && crate::endpoint::parse_endpoint(text@, false, false)
            == Ok::<EndpointView, Seq<char>>(target),
        reads_as_mode(args.forward_mode, ForwardMode::Auto, forward_mode),
        reads_as_listener(args.metrics_listen, metrics_listen),
    ensures
        ({
            let view = crate::load::cli_view(args, listen, target, forward_mode, metrics_listen);
            let settings = crate::load::cli_settings(args, platform);
            &&& settings is Ok <==> crate::config::are_sound_settings(view, platform)
            &&& settings is Ok ==> settings->Ok_0 == view
        }),
{
    let view = crate::load::cli_view(args, listen, target, forward_mode, metrics_listen);
    crate::config::valid_settings_are_sound(view, platform);
}

/// A command line whose texts cannot be read gives no settings, but what is wrong with the first
/// of them.
pub proof fn unreadable_command_lines_are_refused(args: ServeArgs, platform: Platform)
    ensures
        ({
            let settings = crate::load::cli_settings(args, platform);
            let listen = crate::endpoint::parse_endpoint(args.listen->0@, true, true);
            let target = crate::endpoint::parse_endpoint(args.target->0@, false, false);
            let mode_is_bad = args.forward_mode is Some && crate::config::parse_forward_mode(
                args.forward_mode->0@,
            ) is Err;
            &&& args.listen is None || args.target is None ==> settings == Err::<
                SettingsView,
                Seq<char>,
            >("--listen and --target are required without --config"@)
            &&& args.listen is Some && args.target is Some && mode_is_bad ==> settings == Err::<
                SettingsView,
                Seq<char>,
            >(crate::config::parse_forward_mode(args.forward_mode->0@)->Err_0)
            &&& args.listen is Some && args.target is Some && !mode_is_bad && listen is Err
                ==> settings == Err::<SettingsView, Seq<char>>(listen->Err_0)
            &&& args.listen is Some && args.target is Some && !mode_is_bad && listen is Ok
                && target is Err ==> settings == Err::<SettingsView, Seq<char>>(target->Err_0)
            &&& args.listen is Some && args.target is Some && !mode_is_bad && listen is Ok
                && target is Ok && args.metrics_listen is Some && crate::endpoint::parse_endpoint(
                args.metrics_listen->0@,
                true,
                true,
            ) is Err ==> settings == Err::<SettingsView, Seq<char>>(
                crate::endpoint::parse_endpoint(args.metrics_listen->0@, true, true)->Err_0,
            )
        }),
{
}

/// `value` is what the relay's own table sets, or else what the global table sets.
pub open spec fn is_inherited<T>(value: Option<T>, own: Option<T>, global: Option<T>) -> bool {
    &&& own is Some ==> value == own
    &&& own is None ==> value == global
}

/// `value` is what the relay's own table sets, or else what the global table sets, or else the
/// default.
pub open spec fn is_inherited_or<T>(
    value: T,
    own: Option<T>,
    global: Option<T>,
    is_default: bool,
) -> bool {
    &&& own matches Some(own) ==> value == own
    &&& own is None ==> (global matches Some(global) ==> value == global)
    &&& own is None && global is None ==> is_default
}

/// A relay has the values of its own table, those of the global table where its own sets none,
/// and the documented defaults where neither does. Limits are never inherited, and a relay
/// without a name is called by its place.
pub open spec fn is_relay_of(
    relay: RelayView,
    own: RelayFileConfig,
    global: GlobalFileConfig,
    global_mode: ForwardMode,
    index: nat,
) -> bool {
    &&& crate::endpoint::parse_endpoint(own.listen@, true, true) == Ok::<EndpointView, Seq<char>>(
        relay.listen,
    )
    &&& crate::endpoint::parse_endpoint(own.target@, false, false) == Ok::<
        EndpointView,
        Seq<char>,
    >(relay.target)
    &&& reads_as_mode(own.forward_mode, global_mode, relay.forward_mode)
    &&& is_inherited(relay.idle_timeout, own.idle_timeout, global.idle_timeout)
    &&& is_inherited(relay.tcp_keepalive, own.tcp_keepalive, global.tcp_keepalive)
    &&& is_inherited(relay.dns_refresh, own.dns_refresh, global.dns_refresh)
    &&& is_inherited(relay.socket_buffer_size, own.socket_buffer_size, global.socket_buffer_size)
    &&& is_inherited_or(
        relay.connect_timeout,
        own.connect_timeout,
        global.connect_timeout,
        lasts_seconds(relay.connect_timeout, 10),
    )
    &&& is_inherited_or(
        relay.buffer_size,
        own.buffer_size,
        global.buffer_size,
        relay.buffer_size == 16_384,
    )
    &&& relay.max_connections == own.max_connections
    &&& relay.max_connecting == own.max_connecting
    &&& match own.name {
        Some(name) => if exists|i: int|
            0 <= i < name@.len() && !crate::text::is_white_space(#[trigger] name@[i]) {
            relay.name == name@
        } else {
            relay.name == "relay-"@ + crate::text::decimal(index + 1)
        },
        None => relay.name == "relay-"@ + crate::text::decimal(index + 1),
    }
}

/// The texts of a relay's own table can be read.
pub open spec fn is_readable_relay(own: RelayFileConfig) -> bool {
    &&& crate::endpoint::parse_endpoint(own.listen@, true, true) is Ok
    &&& crate::endpoint::parse_endpoint(own.target@, false, false) is Ok
    &&& own.forward_mode matches Some(mode) ==> crate::config::parse_forward_mode(mode@) is Ok
}

/// Each entry of a relay's table reaches the relay.
pub proof fn relay_entries_reach_the_relay(
    own: RelayFileConfig,
    global: GlobalFileConfig,
    global_mode: ForwardMode,
    index: nat,
)
    ensures
        ({
            let relay = crate::load::file_relay(global, global_mode, own, index);
            &&& relay is Ok <==> is_readable_relay(own)
            &&& relay matches Ok(relay) ==> is_relay_of(relay, own, global, global_mode, index)
        }),
{
    crate::duration::lemma_new_parts(10, 0);
    if let Some(name) = own.name {
        crate::text_laws::trimming_takes_white_space_only(name@);
    }
}

proof fn lemma_relays_of(file: FileConfig, mode: ForwardMode, count: nat)
    requires
        count <= file.relay@.len(),
    ensures
        ({
            let relays = crate::load::file_relays(file, mode, count);
            &&& relays is Ok <==> forall|i: int|
                0 <= i < count ==> is_readable_relay(#[trigger] file.relay@[i])
            &&& relays matches Ok(relays) ==> relays.len() == count && forall|i: int|
                0 <= i < count ==> is_relay_of(
                    #[trigger] relays[i],
                    file.relay@[i],
                    file.global,
                    mode,
                    i as nat,
                )
        }),
    decreases count,
{
    if count > 0 {
        let last = (count - 1) as nat;
        lemma_relays_of(file, mode, last);
        relay_entries_reach_the_relay(file.relay@[last as int], file.global, mode, last);
    }
}

/// Each entry of each relay table of a file reaches the relay at its place in the settings; and
/// the file is read exactly where the texts of all its relay tables can be.
pub proof fn relay_entries_reach_the_settings(
    file: FileConfig,
    args: ServeArgs,
    platform: Platform,
    mode: ForwardMode,
)
    requires
        reads_as_mode(file.global.forward_mode, ForwardMode::Auto, mode),
    ensures
        crate::load::file_relays(file, mode, file.relay@.len()) is Ok <==> forall|i: int|
            0 <= i < file.relay@.len() ==> is_readable_relay(#[trigger] file.relay@[i]),
        crate::load::file_settings(file, args, platform) matches Ok(settings) ==> {
            &&& settings.relays.len() == file.relay@.len()
            &&& forall|i: int|
                0 <= i < file.relay@.len() ==> is_relay_of(
                    #[trigger] settings.relays[i],
                    file.relay@[i],
                    file.global,
                    mode,
                    i as nat,
                )
        },
{
    lemma_relays_of(file, mode, file.relay@.len());
}

/// Settings with every entry of the global table of a file, or its documented default where it is
/// absent. The command line overrides the log level and the shutdown timeout.
pub open spec fn keep_global_entries(
    settings: SettingsView,
    global: GlobalFileConfig,
    args: ServeArgs,
) -> bool {
    &&& args.log_level matches Some(given) ==> settings.log_level == given@
    &&& args.log_level is None ==> (global.log_level matches Some(given) ==> settings.log_level
        == given@)
    &&& args.log_level is None && global.log_level is None ==> settings.log_level == "info"@
    &&& is_inherited_or(
        settings.shutdown_timeout,
        args.shutdown_timeout,
        global.shutdown_timeout,
        lasts_seconds(settings.shutdown_timeout, 30),
    )
    &&& global.metrics_bearer_token matches Some(given) ==> settings.metrics_bearer_token == Some(
        given@,
    )
    &&& global.metrics_bearer_token is None ==> settings.metrics_bearer_token is None
    &&& settings.metrics_tls_cert == global.metrics_tls_cert
    &&& settings.metrics_tls_key == global.metrics_tls_key
    &&& settings.global_max_connections == global.max_connections
    &&& settings.global_max_connecting == global.max_connecting
    &&& global.buffer_pool_size matches Some(given) ==> settings.buffer_pool_size == given
    &&& global.buffer_pool_size is None ==> settings.buffer_pool_size == 8_192
    &&& global.connection_log_sample_rate matches Some(given)
        ==> settings.connection_log_sample_rate == given
    &&& global.connection_log_sample_rate is None ==> settings.connection_log_sample_rate == 100
    &&& settings.reuse_port == global.reuse_port
}

/// Each entry of the global table of a file reaches the settings, except where the command line
/// overrides it, and takes its documented default where it is absent.
pub proof fn global_entries_reach_the_view(
    file: FileConfig,
    args: ServeArgs,
    metrics_listen: Option<EndpointView>,
    relays: Seq<RelayView>,
)
    ensures
        ({
            let settings = crate::load::file_view(file, args, metrics_listen, relays);
            &&& keep_global_entries(settings, file.global, args)
            &&& settings.relays == relays
            &&& settings.metrics_listen == metrics_listen
        }),
{
    crate::duration::lemma_new_parts(30, 0);
}

/// The settings of a file hold every entry of its global table, except where the command line
/// overrides it. The metrics listener is that of the command line, or else that of the file.
pub proof fn global_entries_reach_the_settings(
    file: FileConfig,
    args: ServeArgs,
    platform: Platform,
)
    ensures
        crate::load::file_settings(file, args, platform) matches Ok(settings) ==> {
            &&& keep_global_entries(settings, file.global, args)
            &&& args.metrics_listen is Some ==> reads_as_listener(
                args.metrics_listen,
                settings.metrics_listen,
            )
            &&& args.metrics_listen is None ==> reads_as_listener(
                file.global.metrics_listen,
                settings.metrics_listen,
            )
        },
{
    if let Ok(settings) = crate::load::file_settings(file, args, platform) {
        global_entries_reach_the_view(file, args, settings.metrics_listen, settings.relays);
    }
}

/// A file gives settings exactly where it has a relay, its texts can be read, and the settings
/// break no rule. The metrics listener of the command line goes before that of the file, which
/// must be readable all the same.
pub proof fn files_give_settings(
    file: FileConfig,
    args: ServeArgs,
    platform: Platform,
    own: Option<EndpointView>,
    other: Option<EndpointView>,
    mode: ForwardMode,
)
    requires
        reads_as_listener(args.metrics_listen, own),
        reads_as_listener(file.global.metrics_listen, other),
        reads_as_mode(file.global.forward_mode, ForwardMode::Auto, mode),
    ensures
        ({
            let settings = crate::load::file_settings(file, args, platform);
            let relays = crate::load::file_relays(file, mode, file.relay@.len());
            let listener = if own is Some {
                own
            } else {
                other
            };
            let view = crate::load::file_view(file, args, listener, relays->Ok_0);
            &&& settings is Ok <==> file.relay@.len() > 0 && relays is Ok
                && crate::config::are_sound_settings(view, platform)
            &&& settings is Ok ==> settings->Ok_0 == view
            &&& file.relay@.len() > 0 && relays is Err ==> settings == Err::<
                SettingsView,
                Seq<char>,
            >(relays->Err_0)
        }),
{
    let relays = crate::load::file_relays(file, mode, file.relay@.len());
    let listener = if own is Some {
        own
    } else {
        other
    };
    let view = crate::load::file_view(file, args, listener, relays->Ok_0);
    crate::config::valid_settings_are_sound(view, platform);
}

/// A file whose global texts cannot be read, or that has no relay, gives no settings, but what
/// is wrong with it.
pub proof fn unreadable_files_are_refused(file: FileConfig, args: ServeArgs, platform: Platform)
    ensures
        ({
            let settings = crate::load::file_settings(file, args, platform);
            let own = crate::endpoint::parse_endpoint(args.metrics_listen->0@, true, true);
            let other = crate::endpoint::parse_endpoint(file.global.metrics_listen->0@, true, true);
            let own_is_bad = args.metrics_listen is Some && own is Err;
            let other_is_bad = file.global.metrics_listen is Some && other is Err;
            let mode = crate::config::parse_forward_mode(file.global.forward_mode->0@);
            &&& file.relay@.len() == 0 ==> settings == Err::<SettingsView, Seq<char>>(
                "configuration must contain at least one [[relay]] entry"@,
            )
            &&& file.relay@.len() > 0 && own_is_bad ==> settings == Err::<SettingsView, Seq<char>>(
                own->Err_0,
            )
            &&& file.relay@.len() > 0 && !own_is_bad && other_is_bad ==> settings == Err::<
                SettingsView,
                Seq<char>,
            >(other->Err_0)
            &&& file.relay@.len() > 0 && !own_is_bad && !other_is_bad
                && file.global.forward_mode is Some && mode is Err ==> settings == Err::<
                SettingsView,
                Seq<char>,
            >(mode->Err_0)
        }),
{
}

/// Of the relay tables of a file that cannot be read, the first is named, by what is wrong with
/// the first of its texts: the forwarding mode, the listener, the target.
pub proof fn first_unreadable_relay_is_named(
    file: FileConfig,
    mode: ForwardMode,
    count: nat,
    index: int,
)
    requires
        count <= file.relay@.len(),
        0 <= index < count,
        !is_readable_relay(file.relay@[index]),
        forall|i: int| 0 <= i < index ==> is_readable_relay(#[trigger] file.relay@[i]),
    ensures
        ({
            let relays = crate::load::file_relays(file, mode, count);
            let own = file.relay@[index];
            let own_mode = crate::config::parse_forward_mode(own.forward_mode->0@);
            let mode_is_bad = own.forward_mode is Some && own_mode is Err;
            let listen = crate::endpoint::parse_endpoint(own.listen@, true, true);
            let target = crate::endpoint::parse_endpoint(own.target@, false, false);
            &&& mode_is_bad ==> relays == Err::<Seq<RelayView>, Seq<char>>(own_mode->Err_0)
            &&& !mode_is_bad && listen is Err ==> relays == Err::<Seq<RelayView>, Seq<char>>(
                listen->Err_0,
            )
            &&& !mode_is_bad && listen is Ok ==> relays == Err::<Seq<RelayView>, Seq<char>>(
                target->Err_0,
            )
        }),
    decreases count,
{
    if count - 1 > index {
        first_unreadable_relay_is_named(file, mode, (count - 1) as nat, index);
    } else {
        lemma_relays_of(file, mode, index as nat);
    }
}

/// Options of a relay beside a configuration file are refused, whatever the file holds; the
/// overrides and the file itself are not such options.
pub proof fn relay_options_are_refused_beside_files(args: ServeArgs)
    ensures
        crate::load::has_relay_options(args) <==> {
            ||| args.connect_timeout is Some || args.idle_timeout is Some
            ||| args.max_connections is Some || args.max_connecting is Some
            ||| args.tcp_keepalive is Some || args.dns_refresh is Some
            ||| args.socket_buffer_size is Some || args.buffer_size is Some
            ||| args.buffer_pool_size is Some || args.connection_log_sample_rate is Some
            ||| args.forward_mode is Some || args.reuse_port
            ||| args.metrics_token is Some || args.metrics_tls_cert is Some
            ||| args.metrics_tls_key is Some
        },
{
}

/// Settings come from the command line where it names no file, and otherwise from the file, as
/// the entries of each say. A file that cannot be read, or is no TOML of the expected shape, is
/// told as such, with its reason.
pub proof fn settings_come_from_one_source(
    result: Result<Settings, ConfigError>,
    args: ServeArgs,
    reading: FileReading,
    platform: Platform,
)
    requires
        crate::load::is_load_result(result, args, reading, platform),
    ensures
        args.config is None ==> (result matches Ok(settings) ==> crate::load::cli_settings(
            args,
            platform,
        ) == Ok::<SettingsView, Seq<char>>(settings@)),
        args.config is None ==> (result matches Err(error) ==> crate::load::cli_settings(
            args,
            platform,
        ) matches Err(message) && error.is_invalid(message)),
        args.config is Some && crate::load::has_relay_options(args) ==> (result matches Err(error)
            && error.text() == "invalid configuration: "@
            + "relay runtime options must be set in TOML when --config is used"@),
        args.config is Some && !crate::load::has_relay_options(args) ==> match reading {
            FileReading::Unread => false,
            FileReading::Unreadable { path_text, reason } => result matches Err(error)
                && error.text() == "cannot read configuration file "@ + path_text@ + ": "@
                + reason@,
            FileReading::Malformed(reason) => result matches Err(error) && error.text()
                == "invalid TOML configuration: "@ + reason@,
            FileReading::Parsed(file) => match result {
                Ok(settings) => crate::load::file_settings(file, args, platform) == Ok::<
                    SettingsView,
                    Seq<char>,
                >(settings@),
                Err(error) => crate::load::file_settings(file, args, platform) matches Err(message)
                    && error.text() == "invalid configuration: "@ + message,
            },
        },
{
}

/// The values of settings and relays are those of their fields, each of them.
pub proof fn views_show_every_field(settings: Settings, index: int)
    requires
        0 <= index < settings.relays@.len(),
    ensures
        ({
            let view = settings@;
            &&& view.log_level == settings.log_level@
            &&& view.metrics_listen is Some <==> settings.metrics_listen is Some
            &&& settings.metrics_listen matches Some(endpoint) ==> view.metrics_listen == Some(
                endpoint@,
            )
            &&& view.metrics_bearer_token is Some <==> settings.metrics_bearer_token is Some
            &&& settings.metrics_bearer_token matches Some(token) ==> view.metrics_bearer_token
                == Some(token@)
            &&& view.metrics_tls_cert == settings.metrics_tls_cert
            &&& view.metrics_tls_key == settings.metrics_tls_key
            &&& view.shutdown_timeout == settings.shutdown_timeout
            &&& view.global_max_connections == settings.global_max_connections
            &&& view.global_max_connecting == settings.global_max_connecting
            &&& view.buffer_pool_size == settings.buffer_pool_size
            &&& view.connection_log_sample_rate == settings.connection_log_sample_rate
            &&& view.reuse_port == settings.reuse_port
            &&& view.relays.len() == settings.relays@.len()
        }),
        ({
            let relay = settings.relays@[index];
            let view = settings@.relays[index];
            &&& view.name == relay.name@
            &&& view.listen == relay.listen@
            &&& view.target == relay.target@
            &&& view.connect_timeout == relay.connect_timeout
            &&& view.idle_timeout == relay.idle_timeout
            &&& view.max_connections == relay.max_connections
            &&& view.max_connecting == relay.max_connecting
            &&& view.tcp_keepalive == relay.tcp_keepalive
            &&& view.dns_refresh == relay.dns_refresh
            &&& view.socket_buffer_size == relay.socket_buffer_size
            &&& view.buffer_size == relay.buffer_size
            &&& view.forward_mode == relay.forward_mode
        }),
{
}

/// The texts that say what is wrong with a configuration.
pub proof fn errors_tell_what_is_wrong(path: std::path::PathBuf, shown: String, reason: String)
    ensures
        (ConfigError::ReadConfig { path, path_text: shown, source: reason }).text()
            == "cannot read configuration file "@ + shown@ + ": "@ + reason@,
        ConfigError::ParseConfig(reason).text() == "invalid TOML configuration: "@ + reason@,
        ConfigError::Invalid(reason).text() == "invalid configuration: "@ + reason@,
{
}

/// A forwarding mode is read from its name in any case, with white space around it or none, and
/// from nothing else.
pub proof fn modes_are_read_by_name(value: Seq<char>)
    ensures
        ({
            let mode = crate::config::parse_forward_mode(value);
            let is_auto = crate::text_laws::is_word_in(value, "auto"@);
            let is_copy = crate::text_laws::is_word_in(value, "tokio"@)
                || crate::text_laws::is_word_in(value, "copy"@);
            let is_splice = crate::text_laws::is_word_in(value, "splice"@);
            &&& mode == Ok::<ForwardMode, Seq<char>>(ForwardMode::Auto) <==> is_auto
            &&& mode == Ok::<ForwardMode, Seq<char>>(ForwardMode::Tokio) <==> is_copy
            &&& mode == Ok::<ForwardMode, Seq<char>>(ForwardMode::Splice) <==> is_splice
            &&& mode is Err <==> !is_auto && !is_copy && !is_splice
            &&& mode matches Err(message) ==> message
                == "forward_mode must be one of auto, tokio, or splice, got "@
                + crate::text::quoted(crate::text::lowered(crate::text::trimmed(value)))
        }),
{
    reveal_strlit("auto");
    reveal_strlit("tokio");
    reveal_strlit("copy");
    reveal_strlit("splice");
    assert("auto"@[0] == 'a');
    assert("tokio"@[0] == 't');
    assert("copy"@[0] == 'c');
    assert("splice"@[0] == 's');
    crate::text_laws::words_are_read_in_any_case(value, "auto"@);
    crate::text_laws::words_are_read_in_any_case(value, "tokio"@);
    crate::text_laws::words_are_read_in_any_case(value, "copy"@);
    crate::text_laws::words_are_read_in_any_case(value, "splice"@);
}

/// The first rule that settings break is named: the rules on the process before those on relays,
/// each in this order.
pub proof fn first_broken_rule_is_named(settings: SettingsView, platform: Platform)
    ensures
        ({
            let error = crate::config::settings_error(settings, platform);
            let a = settings.relays.len() > 0;
            let b = a && crate::config::is_lasting(Some(settings.shutdown_timeout));
            let c = b && crate::config::is_open_limit(settings.global_max_connections);
            let d = c && crate::config::is_open_limit(settings.global_max_connecting);
            let e = d && settings.buffer_pool_size >= 2 && settings.buffer_pool_size % 2 == 0;
            let f = e && settings.connection_log_sample_rate > 0;
            let g = f && (settings.metrics_tls_cert is Some <==> settings.metrics_tls_key is Some);
            let h = g && (settings.metrics_tls_cert is Some ==> settings.metrics_listen is Some);
            let i = h && (settings.metrics_bearer_token matches Some(token) ==> token.len() > 0);
            let j = i && (settings.reuse_port ==> platform.unix);
            &&& !a ==> error == Some("at least one relay mapping is required"@)
            &&& a && !b ==> error == Some("shutdown_timeout must be greater than zero"@)
            &&& b && !c ==> error == Some(
                "global max_connections"@ + " must be greater than zero"@,
            )
            &&& c && !d ==> error == Some("global max_connecting"@ + " must be greater than zero"@)
            &&& d && !e ==> error == Some("buffer_pool_size must be an even number of at least 2"@)
            &&& e && !f ==> error == Some(
                "connection_log_sample_rate must be greater than zero"@,
            )
            &&& f && !g ==> error == Some(
                "metrics_tls_cert and metrics_tls_key must be configured together"@,
            )
            &&& g && !h ==> error == Some("metrics TLS requires metrics_listen"@)
            &&& h && !i ==> error == Some("metrics_bearer_token cannot be empty"@)
            &&& i && !j ==> error == Some("reuse_port is only supported on Unix platforms"@)
            &&& j ==> error == crate::config::relays_error(settings.relays, 0, platform)
        }),
{
    if let Some(token) = settings.metrics_bearer_token {
        if token.len() == 0 {
            assert(token =~= Seq::<char>::empty());
        }
    }
}

/// Of the relays that break a rule, the first is named.
pub proof fn first_broken_relay_is_named(
    relays: Seq<RelayView>,
    from: int,
    index: int,
    platform: Platform,
)
    requires
        0 <= from <= index < relays.len(),
        forall|i: int|
            from <= i < index ==> (#[trigger] crate::config::relay_error(relays, i, platform))
                is None,
        crate::config::relay_error(relays, index, platform) is Some,
    ensures
        crate::config::relays_error(relays, from, platform) == crate::config::relay_error(
            relays,
            index,
            platform,
        ),
    decreases index - from,
{
    if from < index {
        assert(crate::config::relay_error(relays, from, platform) is None);
        first_broken_relay_is_named(relays, from + 1, index, platform);
    }
}

/// The first rule that a relay breaks is named, in this order: its name, that of another relay
/// before it, the listener of another before it, and then its own values.
pub proof fn first_broken_rule_of_a_relay_is_named(
    relays: Seq<RelayView>,
    index: int,
    platform: Platform,
)
    requires
        0 <= index < relays.len(),
    ensures
        ({
            let relay = relays[index];
            let error = crate::config::relay_error(relays, index, platform);
            let about = "relay "@ + crate::text::quoted(relay.name);
            let a = exists|i: int|
                0 <= i < relay.name.len() && !crate::text::is_white_space(#[trigger] relay.name[i]);
            let b = a && forall|i: int|
                0 <= i < index ==> (#[trigger] relays[i]).name != relay.name;
            let c = b && forall|i: int|
                0 <= i < index ==> (#[trigger] relays[i]).listen.address != relay.listen.address
                    || relays[i].listen.port == 0 || relay.listen.port == 0;
            let d = c && crate::config::is_lasting(Some(relay.connect_timeout));
            let e = d && crate::config::is_lasting(relay.idle_timeout);
            let f = e && crate::config::is_lasting(relay.tcp_keepalive);
            let g = f && crate::config::is_open_limit(relay.max_connections);
            let h = g && crate::config::is_open_limit(relay.max_connecting);
            let i = h && crate::config::is_lasting(relay.dns_refresh);
            let j = i && crate::config::is_open_limit(relay.socket_buffer_size);
            let k = j && relay.buffer_size > 0;
            let l = k && (relay.forward_mode == ForwardMode::Splice ==> platform.linux);
            &&& !a ==> error == Some("relay name cannot be empty"@)
            &&& a && !b ==> error == Some(
                "duplicate relay name "@ + crate::text::quoted(relay.name),
            )
            &&& b && !c ==> error == Some(
                "duplicate listener address "@ + crate::text::quoted(relay.listen.address),
            )
            &&& c && !d ==> error == Some(about + " connect_timeout must be greater than zero"@)
            &&& d && !e ==> error == Some(about + " idle_timeout must be greater than zero"@)
            &&& e && !f ==> error == Some(about + " tcp_keepalive must be greater than zero"@)
            &&& f && !g ==> error == Some(
                about + " max_connections"@ + " must be greater than zero"@,
            )
            &&& g && !h ==> error == Some(
                about + " max_connecting"@ + " must be greater than zero"@,
            )
            &&& h && !i ==> error == Some(about + " dns_refresh must be greater than zero"@)
            &&& i && !j ==> error == Some(about + " socket_buffer_size must be greater than zero"@)
            &&& j && !k ==> error == Some(about + " buffer_size must be greater than zero"@)
            &&& k && !l ==> error == Some("forward_mode=splice is only supported on Linux"@)
            &&& l ==> error is None
        }),
{
    crate::text_laws::trimming_takes_white_space_only(relays[index].name);
}

/// A duration entry is read without the white space around it, and an absent one gives none.
pub proof fn duration_entries_are_trimmed(raw: Option<String>)
    ensures
        raw is None ==> crate::load::duration_entry(raw) == Ok::<Option<Duration>, Seq<char>>(None),
        raw matches Some(value) ==> match crate::duration::duration_in(
            crate::text::trimmed(value@),
        ) {
            Ok(duration) => crate::load::duration_entry(raw) == Ok::<Option<Duration>, Seq<char>>(
                Some(duration),
            ),
            Err(message) => crate::load::duration_entry(raw) == Err::<Option<Duration>, Seq<char>>(
                message,
            ),
        },
{
}

/// The text of a duration option gives this value: none where it is absent, and otherwise the
/// duration in it, which lasts.
pub open spec fn reads_as_duration(text: Option<String>, value: Option<Duration>) -> bool {
    match text {
        None => value is None,
        Some(text) => value matches Some(duration) && crate::duration::duration_in(text@) == Ok::<
            Duration,
            Seq<char>,
        >(duration) && (duration.seconds() > 0 || duration.nanos() > 0),
    }
}

/// The text of a limit option gives this value: none where it is absent, and otherwise the number
/// that its digits stand for, which is above zero.
pub open spec fn reads_as_limit(text: Option<String>, value: Option<usize>) -> bool {
    match text {
        None => value is None,
        Some(text) => {
            let digits = crate::text_laws::without_plus(text@);
            value matches Some(number) && digits.len() > 0 && crate::text_laws::are_digits(digits)
                && number == crate::text_laws::place_value(digits) && number > 0
        },
    }
}

proof fn lemma_duration_option(text: Option<String>)
    ensures
        match crate::cli::duration_option(text) {
            Ok(value) => reads_as_duration(text, value),
            Err(_) => forall|value: Option<Duration>| !reads_as_duration(text, value),
        },
{
}

proof fn lemma_limit_option(text: Option<String>)
    ensures
        match crate::cli::number_option(text) {
            Ok(value) => reads_as_limit(text, value),
            Err(_) => forall|value: Option<usize>| !reads_as_limit(text, value),
        },
{
    if let Some(text) = text {
        crate::text_laws::numbers_are_their_digits(text@, usize::MAX as nat);
    }
}

/// Accepted options give arguments that hold each of them: texts and flags as they stand,
/// durations and limits as they read.
pub proof fn accepted_options_keep_their_values(options: ServeOptions, args: ServeArgs)
    ensures
        options.gives(args) <==> {
            &&& args.listen == options.listen
            &&& args.target == options.target
            &&& args.config == options.config
            &&& reads_as_duration(options.connect_timeout, args.connect_timeout)
            &&& reads_as_duration(options.idle_timeout, args.idle_timeout)
            &&& reads_as_duration(options.shutdown_timeout, args.shutdown_timeout)
            &&& reads_as_limit(options.max_connections, args.max_connections)
            &&& reads_as_limit(options.max_connecting, args.max_connecting)
            &&& reads_as_duration(options.tcp_keepalive, args.tcp_keepalive)
            &&& reads_as_duration(options.dns_refresh, args.dns_refresh)
            &&& reads_as_limit(options.socket_buffer_size, args.socket_buffer_size)
            &&& reads_as_limit(options.buffer_size, args.buffer_size)
            &&& reads_as_limit(options.buffer_pool_size, args.buffer_pool_size)
            &&& reads_as_limit(
                options.connection_log_sample_rate,
                args.connection_log_sample_rate,
            )
            &&& args.forward_mode == options.forward_mode
            &&& args.reuse_port == options.reuse_port
            &&& args.metrics_listen == options.metrics_listen
            &&& args.metrics_token == options.metrics_token
            &&& args.metrics_tls_cert == options.metrics_tls_cert
            &&& args.metrics_tls_key == options.metrics_tls_key
            &&& args.log_level == options.log_level
        },
{
    lemma_duration_option(options.connect_timeout);
    lemma_duration_option(options.idle_timeout);
    lemma_duration_option(options.shutdown_timeout);
    lemma_duration_option(options.tcp_keepalive);
    lemma_duration_option(options.dns_refresh);
    lemma_limit_option(options.max_connections);
    lemma_limit_option(options.max_connecting);
    lemma_limit_option(options.socket_buffer_size);
    lemma_limit_option(options.buffer_size);
    lemma_limit_option(options.buffer_pool_size);
    lemma_limit_option(options.connection_log_sample_rate);
}

/// The text of a duration option that is refused, and the reason.
pub open spec fn duration_refusal(text: Option<String>) -> Option<RefusalView> {
    match text {
        None => None,
        Some(text) => match crate::duration::duration_in(text@) {
            Err(message) => Some(
                RefusalView::Value(
                    "invalid duration "@ + crate::text::quoted(text@) + ": "@ + message,
                ),
            ),
            Ok(duration) => if duration.seconds() == 0 && duration.nanos() == 0 {
                Some(RefusalView::Value("duration must be greater than zero"@))
            } else {
                None
            },
        },
    }
}

/// The text of a limit option that is refused, and the reason.
pub open spec fn limit_refusal(text: Option<String>) -> Option<RefusalView> {
    match text {
        None => None,
        Some(text) => match crate::text::number(text@, usize::MAX as nat) {
            Err(error) => Some(
                RefusalView::Value(
                    "invalid positive integer "@ + crate::text::quoted(text@) + ": "@
                        + error.text(),
                ),
            ),
            Ok(number) => if number == 0 {
                Some(RefusalView::Value("value must be greater than zero"@))
            } else {
                None
            },
        },
    }
}

/// The refusal of an option, if it is refused.
pub open spec fn refusal_of(options: ServeOptions, option: ServeOption) -> Option<RefusalView> {
    let conflict = if options.config is Some {
        Some(RefusalView::ConflictsWithConfig)
    } else {
        None
    };
    match option {
        ServeOption::Listen => if options.listen is Some {
            conflict
        } else {
            None
        },
        ServeOption::Target => if options.target is Some {
            conflict
        } else {
            None
        },
        ServeOption::ConnectTimeout => duration_refusal(options.connect_timeout),
        ServeOption::IdleTimeout => duration_refusal(options.idle_timeout),
        ServeOption::ShutdownTimeout => duration_refusal(options.shutdown_timeout),
        ServeOption::MaxConnections => limit_refusal(options.max_connections),
        ServeOption::MaxConnecting => limit_refusal(options.max_connecting),
        ServeOption::TcpKeepalive => duration_refusal(options.tcp_keepalive),
        ServeOption::DnsRefresh => duration_refusal(options.dns_refresh),
        ServeOption::SocketBufferSize => limit_refusal(options.socket_buffer_size),
        ServeOption::BufferSize => limit_refusal(options.buffer_size),
        ServeOption::BufferPoolSize => limit_refusal(options.buffer_pool_size),
        ServeOption::ConnectionLogSampleRate => limit_refusal(options.connection_log_sample_rate),
    }
}

/// The options that can be refused, in the order of the command's help.
pub open spec fn refusable_options() -> Seq<ServeOption> {
    seq![
        ServeOption::Listen,
        ServeOption::Target,
        ServeOption::ConnectTimeout,
        ServeOption::IdleTimeout,
        ServeOption::ShutdownTimeout,
        ServeOption::MaxConnections,
        ServeOption::MaxConnecting,
        ServeOption::TcpKeepalive,
        ServeOption::DnsRefresh,
        ServeOption::SocketBufferSize,
        ServeOption::BufferSize,
        ServeOption::BufferPoolSize,
        ServeOption::ConnectionLogSampleRate,
    ]
}

/// An option with its refusal, if it is refused.
pub open spec fn refusal_entry(option: ServeOption, refusal: Option<RefusalView>) -> Seq<
    (ServeOption, RefusalView),
> {
    match refusal {
        Some(refusal) => seq![(option, refusal)],
        None => Seq::empty(),
    }
}

/// The refusals of the first `count` options.
pub open spec fn refusals_up_to(options: ServeOptions, count: nat) -> Seq<
    (ServeOption, RefusalView),
>
    decreases count,
{
    if count == 0 {
        Seq::empty()
    } else {
        let option = refusable_options()[count - 1];
        refusals_up_to(options, (count - 1) as nat) + refusal_entry(
            option,
            refusal_of(options, option),
        )
    }
}

proof fn lemma_one_refusal(
    options: ServeOptions,
    before: Seq<(ServeOption, RefusalView)>,
    entry: Seq<(ServeOption, RefusalView)>,
    option: ServeOption,
    count: nat,
) -> (after: Seq<(ServeOption, RefusalView)>)
    requires
        0 < count <= 13,
        refusable_options()[count - 1] == option,
        before == refusals_up_to(options, (count - 1) as nat),
        entry == refusal_entry(option, refusal_of(options, option)),
    ensures
        after == before + entry,
        after == refusals_up_to(options, count),
{
    before + entry
}

proof fn lemma_duration_entry(option: ServeOption, text: Option<String>) -> (entry: Seq<
    (ServeOption, RefusalView),
>)
    ensures
        entry == crate::cli::refused_value(option, crate::cli::duration_option(text)),
        entry == refusal_entry(option, duration_refusal(text)),
{
    crate::cli::refused_value(option, crate::cli::duration_option(text))
}

proof fn lemma_limit_entry(option: ServeOption, text: Option<String>) -> (entry: Seq<
    (ServeOption, RefusalView),
>)
    ensures
        entry == crate::cli::refused_value(option, crate::cli::number_option(text)),
        entry == refusal_entry(option, limit_refusal(text)),
{
    crate::cli::refused_value(option, crate::cli::number_option(text))
}

/// Every option that breaks a rule is refused, once, for its own reason; no other is.
#[verifier::spinoff_prover]
#[verifier::rlimit(40)]
pub proof fn every_broken_option_is_refused(options: ServeOptions)
    ensures
        options.refusals() == refusals_up_to(options, 13),
{
    let none = Seq::<(ServeOption, RefusalView)>::empty();
    let listen = crate::cli::refused_beside_config(
        ServeOption::Listen,
        options.listen,
        options.config,
    );
    assert(none + listen =~= listen);
    let after = lemma_one_refusal(options, none, listen, ServeOption::Listen, 1);
    let target = crate::cli::refused_beside_config(
        ServeOption::Target,
        options.target,
        options.config,
    );
    let after = lemma_one_refusal(options, after, target, ServeOption::Target, 2);
    let entry = lemma_duration_entry(ServeOption::ConnectTimeout, options.connect_timeout);
    let after = lemma_one_refusal(options, after, entry, ServeOption::ConnectTimeout, 3);
    let entry = lemma_duration_entry(ServeOption::IdleTimeout, options.idle_timeout);
    let after = lemma_one_refusal(options, after, entry, ServeOption::IdleTimeout, 4);
    let entry = lemma_duration_entry(ServeOption::ShutdownTimeout, options.shutdown_timeout);
    let after = lemma_one_refusal(options, after, entry, ServeOption::ShutdownTimeout, 5);
    let entry = lemma_limit_entry(ServeOption::MaxConnections, options.max_connections);
    let after = lemma_one_refusal(options, after, entry, ServeOption::MaxConnections, 6);
    let entry = lemma_limit_entry(ServeOption::MaxConnecting, options.max_connecting);
    let after = lemma_one_refusal(options, after, entry, ServeOption::MaxConnecting, 7);
    let entry = lemma_duration_entry(ServeOption::TcpKeepalive, options.tcp_keepalive);
    let after = lemma_one_refusal(options, after, entry, ServeOption::TcpKeepalive, 8);
    let entry = lemma_duration_entry(ServeOption::DnsRefresh, options.dns_refresh);
    let after = lemma_one_refusal(options, after, entry, ServeOption::DnsRefresh, 9);
    let entry = lemma_limit_entry(ServeOption::SocketBufferSize, options.socket_buffer_size);
    let after = lemma_one_refusal(options, after, entry, ServeOption::SocketBufferSize, 10);
    let entry = lemma_limit_entry(ServeOption::BufferSize, options.buffer_size);
    let after = lemma_one_refusal(options, after, entry, ServeOption::BufferSize, 11);
    let entry = lemma_limit_entry(ServeOption::BufferPoolSize, options.buffer_pool_size);
    let after = lemma_one_refusal(options, after, entry, ServeOption::BufferPoolSize, 12);
    let entry = lemma_limit_entry(ServeOption::ConnectionLogSampleRate, options.connection_log_sample_rate);
    let after = lemma_one_refusal(options, after, entry, ServeOption::ConnectionLogSampleRate, 13);
}

/// A result that says what is expected gives that very value, or an error that tells the expected
/// message and nothing else.
pub proof fn results_say_what_is_expected(
    settings: Result<Settings, ConfigError>,
    expected_settings: Result<SettingsView, Seq<char>>,
    endpoint: Result<Endpoint, ConfigError>,
    expected_endpoint: Result<EndpointView, Seq<char>>,
    rule: Result<(), ConfigError>,
    broken: Option<Seq<char>>,
)
    ensures
        crate::load::is_settings_result(settings, expected_settings) <==> match settings {
            Ok(settings) => expected_settings matches Ok(view) && settings@ == view,
            Err(ConfigError::Invalid(message)) => expected_settings matches Err(text) && message@
                == text,
            Err(_) => false,
        },
        crate::endpoint::is_endpoint_result(endpoint, expected_endpoint) <==> match endpoint {
            Ok(endpoint) => expected_endpoint matches Ok(view) && endpoint@ == view,
            Err(ConfigError::Invalid(message)) => expected_endpoint matches Err(text) && message@
                == text,
            Err(_) => false,
        },
        crate::config::is_rule_result(rule, broken) <==> match rule {
            Ok(_) => broken is None,
            Err(ConfigError::Invalid(message)) => broken matches Some(text) && message@ == text,
            Err(_) => false,
        },
{
}

/// A limit of zero breaks a rule, and the message names the limit; no other limit does.
pub proof fn limits_of_zero_are_named(value: Option<usize>, name: Seq<char>)
    ensures
        value == Some(0usize) ==> crate::config::limit_error(value, name) == Some(
            name + " must be greater than zero"@,
        ),
        value != Some(0usize) ==> crate::config::limit_error(value, name) is None,
{
}

/// What is told of a result is its value or the characters of its message; what is told of
/// refused options is each of them, in order, with its reason.
pub proof fn refusals_are_told_as_they_are(
    value: Result<Duration, String>,
    number: Result<usize, String>,
    refused: Seq<RefusedOption>,
    index: int,
)
    ensures
        value matches Ok(duration) ==> crate::cli::with_text(value) == Ok::<Duration, Seq<char>>(
            duration,
        ),
        value matches Err(message) ==> crate::cli::with_text(value) == Err::<Duration, Seq<char>>(
            message@,
        ),
        number matches Ok(limit) ==> crate::cli::with_text(number) == Ok::<usize, Seq<char>>(limit),
        number matches Err(message) ==> crate::cli::with_text(number) == Err::<usize, Seq<char>>(
            message@,
        ),
        crate::cli::refusal_views(refused).len() == refused.len(),
        0 <= index < refused.len() ==> crate::cli::refusal_views(refused)[index].0
            == refused[index].option,
        0 <= index < refused.len() ==> match refused[index].refusal {
            Refusal::Value(reason) => crate::cli::refusal_views(refused)[index].1
                == RefusalView::Value(reason@),
            Refusal::ConflictsWithConfig => crate::cli::refusal_views(refused)[index].1
                == RefusalView::ConflictsWithConfig,
        },
{
}

/// A duration option takes every duration that lasts, whatever reading gives it, and a limit
/// option every number above zero that a machine word holds.
pub proof fn options_take_what_is_above_zero(
    value: Seq<char>,
    reading: Result<Duration, Seq<char>>,
)
    ensures
        ({
            let result = crate::cli::positive_duration(value, reading);
            &&& result is Ok <==> (reading matches Ok(duration) && (duration.seconds() > 0
                || duration.nanos() > 0))
            &&& result is Ok ==> result == reading
            &&& reading matches Err(message) ==> result == Err::<Duration, Seq<char>>(
                "invalid duration "@ + crate::text::quoted(value) + ": "@ + message,
            )
            &&& reading is Ok && result is Err ==> result == Err::<Duration, Seq<char>>(
                "duration must be greater than zero"@,
            )
        }),
        ({
            let digits = crate::text_laws::without_plus(value);
            let number = crate::text_laws::place_value(digits);
            let is_number = digits.len() > 0 && crate::text_laws::are_digits(digits) && number
                <= usize::MAX;
            let result = crate::cli::positive_number(value);
            &&& is_number && number > 0 ==> result == Ok::<usize, Seq<char>>(number as usize)
            &&& is_number && number == 0 ==> result == Err::<usize, Seq<char>>(
                "value must be greater than zero"@,
            )
            &&& !is_number ==> result == Err::<usize, Seq<char>>(
                "invalid positive integer "@ + crate::text::quoted(value) + ": "@
                    + crate::text::number(value, usize::MAX as nat)->Err_0.text(),
            )
        }),
{
    crate::text_laws::numbers_are_their_digits(value, usize::MAX as nat);
}

/// The texts that say what is wrong with a number.
pub proof fn number_errors_have_these_texts()
    ensures
        NumberError::Empty.text() == "cannot parse integer from empty string"@,
        NumberError::InvalidDigit.text() == "invalid digit found in string"@,
        NumberError::TooLarge.text() == "number too large to fit in target type"@,
{
}

/// A file without a global table sets nothing by it.
pub proof fn absent_tables_set_nothing()
    ensures
        ({
            let global = GlobalFileConfig::absent();
            &&& global.log_level is None
            &&& global.metrics_listen is None
            &&& global.metrics_bearer_token is None
            &&& global.metrics_tls_cert is None
            &&& global.metrics_tls_key is None
            &&& global.connect_timeout is None
            &&& global.idle_timeout is None
            &&& global.shutdown_timeout is None
            &&& global.max_connections is None
            &&& global.max_connecting is None
            &&& global.tcp_keepalive is None
            &&& global.dns_refresh is None
            &&& global.socket_buffer_size is None
            &&& global.buffer_size is None
            &&& global.buffer_pool_size is None
            &&& global.connection_log_sample_rate is None
            &&& global.forward_mode is None
            &&& !global.reuse_port
        }),
        Platform::spec_linux().unix && Platform::spec_linux().linux,
{
}

} // verus!
