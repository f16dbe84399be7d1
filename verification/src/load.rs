//! Settings from the command line and from configuration files.

use std::path::PathBuf;

use vstd::prelude::*;

use crate::cli::ServeArgs;
use crate::config::{
    ForwardMode, Platform, RelaySpec, Settings, DEFAULT_BUFFER_POOL_SIZE, DEFAULT_BUFFER_SIZE,
    DEFAULT_CONNECTION_LOG_SAMPLE_RATE, DEFAULT_CONNECT_TIMEOUT_SECS, DEFAULT_SHUTDOWN_TIMEOUT_SECS,
};
use crate::duration::{parse_duration, Duration};
use crate::endpoint::Endpoint;
use crate::error::ConfigError;
use crate::paths::copy_path;
use crate::text::{chars_of, copy_optional, is_blank, push_decimal, string_of, trim};

verus! {

/// A configuration file.
#[derive(Debug)]
pub struct FileConfig {
    /// The values for the whole process, and the defaults for relays.
    pub global: GlobalFileConfig,
    /// The relay mappings, in the order of the file.
    pub relay: Vec<RelayFileConfig>,
}

/// The `[global]` table of a configuration file.
#[derive(Debug)]
pub struct GlobalFileConfig {
    pub log_level: Option<String>,
    pub metrics_listen: Option<String>,
    pub metrics_bearer_token: Option<String>,
    pub metrics_tls_cert: Option<PathBuf>,
    pub metrics_tls_key: Option<PathBuf>,
    pub connect_timeout: Option<Duration>,
    pub idle_timeout: Option<Duration>,
    pub shutdown_timeout: Option<Duration>,
    pub max_connections: Option<usize>,
    pub max_connecting: Option<usize>,
    pub tcp_keepalive: Option<Duration>,
    pub dns_refresh: Option<Duration>,
    pub socket_buffer_size: Option<usize>,
    pub buffer_size: Option<usize>,
    pub buffer_pool_size: Option<usize>,
    pub connection_log_sample_rate: Option<usize>,
    pub forward_mode: Option<String>,
    pub reuse_port: bool,
}

/// A `[[relay]]` table of a configuration file.
#[derive(Debug)]
pub struct RelayFileConfig {
    pub name: Option<String>,
    pub listen: String,
    pub target: String,
    pub connect_timeout: Option<Duration>,
    pub idle_timeout: Option<Duration>,
    pub max_connections: Option<usize>,
    pub max_connecting: Option<usize>,
    pub tcp_keepalive: Option<Duration>,
    pub dns_refresh: Option<Duration>,
    pub socket_buffer_size: Option<usize>,
    pub buffer_size: Option<usize>,
    pub forward_mode: Option<String>,
}

impl Default for GlobalFileConfig {
    fn default() -> (result: GlobalFileConfig)
        ensures
            result == GlobalFileConfig::absent(),
    {
        GlobalFileConfig {
            log_level: None,
            metrics_listen: None,
            metrics_bearer_token: None,
            metrics_tls_cert: None,
            metrics_tls_key: None,
            connect_timeout: None,
            idle_timeout: None,
            shutdown_timeout: None,
            max_connections: None,
            max_connecting: None,
            tcp_keepalive: None,
            dns_refresh: None,
            socket_buffer_size: None,
            buffer_size: None,
            buffer_pool_size: None,
            connection_log_sample_rate: None,
            forward_mode: None,
            reuse_port: false,
        }
    }
}

impl GlobalFileConfig {
    /// The table of a file that has none: no value is set.
    pub open spec fn absent() -> GlobalFileConfig {
        GlobalFileConfig {
            log_level: None,
            metrics_listen: None,
            metrics_bearer_token: None,
            metrics_tls_cert: None,
            metrics_tls_key: None,
            connect_timeout: None,
            idle_timeout: None,
            shutdown_timeout: None,
            max_connections: None,
            max_connecting: None,
            tcp_keepalive: None,
            dns_refresh: None,
            socket_buffer_size: None,
            buffer_size: None,
            buffer_pool_size: None,
            connection_log_sample_rate: None,
            forward_mode: None,
            reuse_port: false,
        }
    }
}

/// What a duration entry of a file gives, whose text is read without the white space around
/// it: nothing where the entry is absent.
pub open spec fn duration_entry(raw: Option<String>) -> Result<Option<Duration>, Seq<char>> {
    match raw {
        None => Ok(None),
        Some(value) => match crate::duration::duration_in(crate::text::trimmed(value@)) {
            Ok(duration) => Ok(Some(duration)),
            Err(message) => Err(message),
        },
    }
}

/// Reads a duration entry of a file.
pub fn deserialize_duration_opt(raw: Option<String>) -> (result: Result<Option<Duration>, String>)
    ensures
        crate::cli::with_text(result) == duration_entry(raw),
        result matches Ok(Some(duration)) ==> duration.wf(),
{
    match raw {
        None => Ok(None),
        Some(value) => {
            let chars = chars_of(value.as_str());
            let text = string_of(trim(chars.as_slice()));
            match parse_duration(text.as_str()) {
                Ok(duration) => Ok(Some(duration)),
                Err(message) => Err(message),
            }
        },
    }
}

/// `first` where there is one, `second` otherwise.
pub open spec fn either<T>(first: Option<T>, second: Option<T>) -> Option<T> {
    if first is Some {
        first
    } else {
        second
    }
}

/// The value where there is one, `default` otherwise.
pub open spec fn value_or<T>(value: Option<T>, default: T) -> T {
    match value {
        Some(value) => value,
        None => default,
    }
}

fn first_some<T: Copy>(first: Option<T>, second: Option<T>) -> (result: Option<T>)
    ensures
        result == either(first, second),
{
    match first {
        Some(value) => Some(value),
        None => second,
    }
}

/// The settings where they keep the rules of `platform`, and the message of the first broken
/// rule otherwise.
pub open spec fn checked_settings(
    settings: crate::config::SettingsView,
    platform: Platform,
) -> Result<crate::config::SettingsView, Seq<char>> {
    match crate::config::settings_error(settings, platform) {
        Some(message) => Err(message),
        None => Ok(settings),
    }
}

/// Whether `result` is what `expected` says.
pub open spec fn is_settings_result(
    result: Result<Settings, ConfigError>,
    expected: Result<crate::config::SettingsView, Seq<char>>,
) -> bool {
    match result {
        Ok(settings) => expected == Ok::<crate::config::SettingsView, Seq<char>>(settings@),
        Err(error) => expected matches Err(message) && error.is_invalid(message),
    }
}

fn check_settings(settings: Settings, platform: Platform) -> (result: Result<Settings, ConfigError>)
    ensures
        is_settings_result(result, checked_settings(settings@, platform)),
{
    match settings.validate(platform) {
        Ok(_) => Ok(settings),
        Err(error) => Err(error),
    }
}

/// The settings of a single relay with default values.
pub open spec fn single_view(
    listen: crate::endpoint::EndpointView,
    target: crate::endpoint::EndpointView,
) -> crate::config::SettingsView {
    crate::config::SettingsView {
        log_level: "info"@,
        metrics_listen: None,
        metrics_bearer_token: None,
        metrics_tls_cert: None,
        metrics_tls_key: None,
        shutdown_timeout: Duration::spec_new(DEFAULT_SHUTDOWN_TIMEOUT_SECS, 0),
        global_max_connections: None,
        global_max_connecting: None,
        buffer_pool_size: DEFAULT_BUFFER_POOL_SIZE,
        connection_log_sample_rate: DEFAULT_CONNECTION_LOG_SAMPLE_RATE,
        reuse_port: false,
        relays: seq![
            crate::config::RelayView {
                name: "default"@,
                listen,
                target,
                connect_timeout: Duration::spec_new(DEFAULT_CONNECT_TIMEOUT_SECS, 0),
                idle_timeout: None,
                max_connections: None,
                max_connecting: None,
                tcp_keepalive: None,
                dns_refresh: None,
                socket_buffer_size: None,
                buffer_size: DEFAULT_BUFFER_SIZE,
                forward_mode: ForwardMode::Auto,
            },
        ],
    }
}

/// The settings of a single relay from `listen` to `target` with default values.
pub open spec fn single_settings(listen: Seq<char>, target: Seq<char>) -> Result<
    crate::config::SettingsView,
    Seq<char>,
> {
    match crate::endpoint::parse_endpoint(listen, true, true) {
        Err(message) => Err(message),
        Ok(listen) => match crate::endpoint::parse_endpoint(target, false, false) {
            Err(message) => Err(message),
            Ok(target) => Ok(single_view(listen, target)),
        },
    }
}

impl Settings {
    /// The settings of a single relay from `listen` to `target` with default values.
    pub fn single(listen: &str, target: &str) -> (result: Result<Settings, ConfigError>)
        ensures
            is_settings_result(result, single_settings(listen@, target@)),
            result matches Ok(settings) ==> forall|platform: Platform|
                crate::config::settings_error(settings@, platform) is None,
    {
        let listen = match Endpoint::parse(listen, true, true) {
            Ok(endpoint) => endpoint,
            Err(error) => {
                return Err(error);
            },
        };
        let target = match Endpoint::parse(target, false, false) {
            Ok(endpoint) => endpoint,
            Err(error) => {
                return Err(error);
            },
        };
        let relay = RelaySpec {
            name: "default".to_owned(),
            listen,
            target,
            connect_timeout: Duration::from_secs(DEFAULT_CONNECT_TIMEOUT_SECS),
            idle_timeout: None,
            max_connections: None,
            max_connecting: None,
            tcp_keepalive: None,
            dns_refresh: None,
            socket_buffer_size: None,
            buffer_size: DEFAULT_BUFFER_SIZE,
            forward_mode: ForwardMode::Auto,
        };
        let mut relays: Vec<RelaySpec> = Vec::new();
        relays.push(relay);
        assert(crate::config::relay_views(relays@) =~= seq![relay@]);
        let settings = Settings {
            log_level: "info".to_owned(),
            metrics_listen: None,
            metrics_bearer_token: None,
            metrics_tls_cert: None,
            metrics_tls_key: None,
            shutdown_timeout: Duration::from_secs(DEFAULT_SHUTDOWN_TIMEOUT_SECS),
            global_max_connections: None,
            global_max_connecting: None,
            buffer_pool_size: DEFAULT_BUFFER_POOL_SIZE,
            connection_log_sample_rate: DEFAULT_CONNECTION_LOG_SAMPLE_RATE,
            reuse_port: false,
            relays,
        };
        assert(settings@ == single_view(settings.relays@[0].listen@, settings.relays@[0].target@));
        proof {
            assert forall|platform: Platform|
                crate::config::settings_error(settings@, platform) is None by {
                lemma_single_valid(settings@, platform);
            }
        }
        check_settings(settings, Platform::linux())
    }
}

/// The settings of a single relay with default values keep the rules of every platform.
pub proof fn lemma_single_valid(settings: crate::config::SettingsView, platform: Platform)
    requires
        settings == single_view(settings.relays[0].listen, settings.relays[0].target),
    ensures
        crate::config::settings_error(settings, platform) is None,
{
    reveal_strlit("default");
    crate::text::lemma_trimmed_same("default"@);
    let relays = settings.relays;
    assert(relays.len() == 1);
    assert(crate::config::relays_error(relays, 1, platform) is None);
    assert(!crate::config::name_taken(relays, 0));
    assert(!crate::config::listener_taken(relays, 0));
    crate::duration::lemma_new_parts(DEFAULT_CONNECT_TIMEOUT_SECS, 0);
    crate::duration::lemma_new_parts(DEFAULT_SHUTDOWN_TIMEOUT_SECS, 0);
    assert(crate::config::relay_error(relays, 0, platform) is None);
}

/// The endpoint that an optional text writes, for a listener.
pub open spec fn listener_option(value: Option<String>) -> Result<
    Option<crate::endpoint::EndpointView>,
    Seq<char>,
> {
    match value {
        None => Ok(None),
        Some(value) => match crate::endpoint::parse_endpoint(value@, true, true) {
            Ok(endpoint) => Ok(Some(endpoint)),
            Err(message) => Err(message),
        },
    }
}

fn read_listener_option(value: &Option<String>) -> (result: Result<Option<Endpoint>, ConfigError>)
    ensures
        match result {
            Ok(endpoint) => listener_option(*value) == Ok::<
                Option<crate::endpoint::EndpointView>,
                Seq<char>,
            >(crate::config::endpoint_option(endpoint)),
            Err(error) => listener_option(*value) matches Err(message) && error.is_invalid(message),
        },
{
    match value {
        None => Ok(None),
        Some(value) => match Endpoint::parse(value.as_str(), true, true) {
            Ok(endpoint) => Ok(Some(endpoint)),
            Err(error) => Err(error),
        },
    }
}

/// The forwarding mode that an optional text names, `default` where there is none.
pub open spec fn mode_option(value: Option<String>, default: ForwardMode) -> Result<
    ForwardMode,
    Seq<char>,
> {
    match value {
        None => Ok(default),
        Some(value) => crate::config::parse_forward_mode(value@),
    }
}

fn read_mode_option(value: &Option<String>, default: ForwardMode) -> (result: Result<
    ForwardMode,
    ConfigError,
>)
    ensures
        match result {
            Ok(mode) => mode_option(*value, default) == Ok::<ForwardMode, Seq<char>>(mode),
            Err(error) => mode_option(*value, default) matches Err(message) && error.is_invalid(
                message,
            ),
        },
{
    match value {
        None => Ok(default),
        Some(value) => ForwardMode::parse(value.as_str()),
    }
}

/// The text where there is one, `info` otherwise.
pub open spec fn log_level_or_info(level: Option<String>) -> Seq<char> {
    match level {
        Some(level) => level@,
        None => "info"@,
    }
}

/// The settings that the options give for the given endpoints and forwarding mode, unchecked.
/// The limits of single-relay mode hold for the whole process.
pub open spec fn cli_view(
    args: ServeArgs,
    listen: crate::endpoint::EndpointView,
    target: crate::endpoint::EndpointView,
    forward_mode: ForwardMode,
    metrics_listen: Option<crate::endpoint::EndpointView>,
) -> crate::config::SettingsView {
    crate::config::SettingsView {
        log_level: log_level_or_info(args.log_level),
        metrics_listen,
        metrics_bearer_token: crate::text::optional(args.metrics_token),
        metrics_tls_cert: args.metrics_tls_cert,
        metrics_tls_key: args.metrics_tls_key,
        shutdown_timeout: value_or(
            args.shutdown_timeout,
            Duration::spec_new(DEFAULT_SHUTDOWN_TIMEOUT_SECS, 0),
        ),
        global_max_connections: args.max_connections,
        global_max_connecting: args.max_connecting,
        buffer_pool_size: value_or(args.buffer_pool_size, DEFAULT_BUFFER_POOL_SIZE),
        connection_log_sample_rate: value_or(
            args.connection_log_sample_rate,
            DEFAULT_CONNECTION_LOG_SAMPLE_RATE,
        ),
        reuse_port: args.reuse_port,
        relays: seq![
            crate::config::RelayView {
                name: "default"@,
                listen,
                target,
                connect_timeout: value_or(
                    args.connect_timeout,
                    Duration::spec_new(DEFAULT_CONNECT_TIMEOUT_SECS, 0),
                ),
                idle_timeout: args.idle_timeout,
                max_connections: None,
                max_connecting: None,
                tcp_keepalive: args.tcp_keepalive,
                dns_refresh: args.dns_refresh,
                socket_buffer_size: args.socket_buffer_size,
                buffer_size: value_or(args.buffer_size, DEFAULT_BUFFER_SIZE),
                forward_mode,
            },
        ],
    }
}

/// The settings that the options of single-relay mode give, or the first message that says
/// why they give none.
pub open spec fn cli_settings(args: ServeArgs, platform: Platform) -> Result<
    crate::config::SettingsView,
    Seq<char>,
> {
    if args.listen is None || args.target is None {
        Err("--listen and --target are required without --config"@)
    } else {
        match mode_option(args.forward_mode, ForwardMode::Auto) {
            Err(message) => Err(message),
            Ok(mode) => match crate::endpoint::parse_endpoint(args.listen->0@, true, true) {
                Err(message) => Err(message),
                Ok(listen) => match crate::endpoint::parse_endpoint(args.target->0@, false, false) {
                    Err(message) => Err(message),
                    Ok(target) => match listener_option(args.metrics_listen) {
                        Err(message) => Err(message),
                        Ok(metrics) => checked_settings(
                            cli_view(args, listen, target, mode, metrics),
                            platform,
                        ),
                    },
                },
            },
        }
    }
}

/// The settings that the options of single-relay mode give.
pub fn settings_from_cli(args: &ServeArgs, platform: Platform) -> (result: Result<
    Settings,
    ConfigError,
>)
    ensures
        is_settings_result(result, cli_settings(*args, platform)),
        result matches Ok(settings) ==> crate::config::settings_error(settings@, platform) is None,
{
    let listen = match &args.listen {
        Some(value) => value,
        None => {
            return Err(
                ConfigError::invalid(
                    "--listen and --target are required without --config".to_owned(),
                ),
            );
        },
    };
    let target = match &args.target {
        Some(value) => value,
        None => {
            return Err(
                ConfigError::invalid(
                    "--listen and --target are required without --config".to_owned(),
                ),
            );
        },
    };
    let forward_mode = match read_mode_option(&args.forward_mode, ForwardMode::Auto) {
        Ok(mode) => mode,
        Err(error) => {
            return Err(error);
        },
    };
    let listen = match Endpoint::parse(listen.as_str(), true, true) {
        Ok(endpoint) => endpoint,
        Err(error) => {
            return Err(error);
        },
    };
    let target = match Endpoint::parse(target.as_str(), false, false) {
        Ok(endpoint) => endpoint,
        Err(error) => {
            return Err(error);
        },
    };
    let relay = RelaySpec {
        name: "default".to_owned(),
        listen,
        target,
        connect_timeout: args.connect_timeout.unwrap_or(
            Duration::from_secs(DEFAULT_CONNECT_TIMEOUT_SECS),
        ),
        idle_timeout: args.idle_timeout,
        max_connections: None,
        max_connecting: None,
        tcp_keepalive: args.tcp_keepalive,
        dns_refresh: args.dns_refresh,
        socket_buffer_size: args.socket_buffer_size,
        buffer_size: args.buffer_size.unwrap_or(DEFAULT_BUFFER_SIZE),
        forward_mode,
    };
    let metrics_listen = match read_listener_option(&args.metrics_listen) {
        Ok(endpoint) => endpoint,
        Err(error) => {
            return Err(error);
        },
    };
    let mut relays: Vec<RelaySpec> = Vec::new();
    relays.push(relay);
    assert(crate::config::relay_views(relays@) =~= seq![relay@]);
    let settings = Settings {
        log_level: match &args.log_level {
            Some(level) => level.clone(),
            None => "info".to_owned(),
        },
        metrics_listen,
        metrics_bearer_token: copy_optional(&args.metrics_token),
        metrics_tls_cert: copy_path(&args.metrics_tls_cert),
        metrics_tls_key: copy_path(&args.metrics_tls_key),
        shutdown_timeout: args.shutdown_timeout.unwrap_or(
            Duration::from_secs(DEFAULT_SHUTDOWN_TIMEOUT_SECS),
        ),
        global_max_connections: args.max_connections,
        global_max_connecting: args.max_connecting,
        buffer_pool_size: args.buffer_pool_size.unwrap_or(DEFAULT_BUFFER_POOL_SIZE),
        connection_log_sample_rate: args.connection_log_sample_rate.unwrap_or(
            DEFAULT_CONNECTION_LOG_SAMPLE_RATE,
        ),
        reuse_port: args.reuse_port,
        relays,
    };
    check_settings(settings, platform)
}

/// The name of the relay at `index` of a file: its own, unless that is blank, and otherwise
/// one that counts from 1.
pub open spec fn file_relay_name(name: Option<String>, index: nat) -> Seq<char> {
    match name {
        Some(name) => if crate::text::trimmed(name@).len() > 0 {
            name@
        } else {
            "relay-"@ + crate::text::decimal(index + 1)
        },
        None => "relay-"@ + crate::text::decimal(index + 1),
    }
}

/// The relay at `index` of a file. What its table leaves out comes from the global table,
/// except for limits, and then from the defaults.
pub open spec fn file_relay(
    global: GlobalFileConfig,
    global_mode: ForwardMode,
    relay: RelayFileConfig,
    index: nat,
) -> Result<crate::config::RelayView, Seq<char>> {
    match mode_option(relay.forward_mode, global_mode) {
        Err(message) => Err(message),
        Ok(forward_mode) => match crate::endpoint::parse_endpoint(relay.listen@, true, true) {
            Err(message) => Err(message),
            Ok(listen) => match crate::endpoint::parse_endpoint(relay.target@, false, false) {
                Err(message) => Err(message),
                Ok(target) => Ok(
                    crate::config::RelayView {
                        name: file_relay_name(relay.name, index),
                        listen,
                        target,
                        connect_timeout: value_or(
                            relay.connect_timeout,
                            value_or(
                                global.connect_timeout,
                                Duration::spec_new(DEFAULT_CONNECT_TIMEOUT_SECS, 0),
                            ),
                        ),
                        idle_timeout: either(relay.idle_timeout, global.idle_timeout),
                        max_connections: relay.max_connections,
                        max_connecting: relay.max_connecting,
                        tcp_keepalive: either(relay.tcp_keepalive, global.tcp_keepalive),
                        dns_refresh: either(relay.dns_refresh, global.dns_refresh),
                        socket_buffer_size: either(
                            relay.socket_buffer_size,
                            global.socket_buffer_size,
                        ),
                        buffer_size: value_or(
                            relay.buffer_size,
                            value_or(global.buffer_size, DEFAULT_BUFFER_SIZE),
                        ),
                        forward_mode,
                    },
                ),
            },
        },
    }
}

/// The first `count` relays of a file, or the message of the first one that cannot be read.
pub open spec fn file_relays(file: FileConfig, global_mode: ForwardMode, count: nat) -> Result<
    Seq<crate::config::RelayView>,
    Seq<char>,
>
    decreases count,
{
    if count == 0 {
        Ok(Seq::empty())
    } else {
        let index = (count - 1) as nat;
        match file_relays(file, global_mode, index) {
            Err(message) => Err(message),
            Ok(relays) => match file_relay(
                file.global,
                global_mode,
                file.relay@[index as int],
                index,
            ) {
                Err(message) => Err(message),
                Ok(relay) => Ok(relays.push(relay)),
            },
        }
    }
}

/// The settings of a file with the given relays, unchecked. Log level, metrics listener and
/// shutdown timeout are taken from the command line where they stand there.
pub open spec fn file_view(
    file: FileConfig,
    args: ServeArgs,
    metrics_listen: Option<crate::endpoint::EndpointView>,
    relays: Seq<crate::config::RelayView>,
) -> crate::config::SettingsView {
    crate::config::SettingsView {
        log_level: log_level_or_info(either(args.log_level, file.global.log_level)),
        metrics_listen,
        metrics_bearer_token: crate::text::optional(file.global.metrics_bearer_token),
        metrics_tls_cert: file.global.metrics_tls_cert,
        metrics_tls_key: file.global.metrics_tls_key,
        shutdown_timeout: value_or(
            either(args.shutdown_timeout, file.global.shutdown_timeout),
            Duration::spec_new(DEFAULT_SHUTDOWN_TIMEOUT_SECS, 0),
        ),
        global_max_connections: file.global.max_connections,
        global_max_connecting: file.global.max_connecting,
        buffer_pool_size: value_or(file.global.buffer_pool_size, DEFAULT_BUFFER_POOL_SIZE),
        connection_log_sample_rate: value_or(
            file.global.connection_log_sample_rate,
            DEFAULT_CONNECTION_LOG_SAMPLE_RATE,
        ),
        reuse_port: file.global.reuse_port,
        relays,
    }
}

/// The settings that a file gives under the options `args`, or the first message that says
/// why it gives none.
pub open spec fn file_settings(file: FileConfig, args: ServeArgs, platform: Platform) -> Result<
    crate::config::SettingsView,
    Seq<char>,
> {
    if file.relay@.len() == 0 {
        Err("configuration must contain at least one [[relay]] entry"@)
    } else {
        match listener_option(args.metrics_listen) {
            Err(message) => Err(message),
            Ok(own) => match listener_option(file.global.metrics_listen) {
                Err(message) => Err(message),
                Ok(other) => match mode_option(file.global.forward_mode, ForwardMode::Auto) {
                    Err(message) => Err(message),
                    Ok(mode) => match file_relays(file, mode, file.relay@.len()) {
                        Err(message) => Err(message),
                        Ok(relays) => checked_settings(
                            file_view(file, args, either(own, other), relays),
                            platform,
                        ),
                    },
                },
            },
        }
    }
}

fn read_file_relay(
    global: &GlobalFileConfig,
    global_mode: ForwardMode,
    relay: &RelayFileConfig,
    index: usize,
) -> (result: Result<RelaySpec, ConfigError>)
    ensures
        match result {
            Ok(spec) => file_relay(*global, global_mode, *relay, index as nat) == Ok::<
                crate::config::RelayView,
                Seq<char>,
            >(spec@),
            Err(error) => file_relay(*global, global_mode, *relay, index as nat) matches Err(
                message,
            ) && error.is_invalid(message),
        },
{
    let mut name = "relay-".to_owned();
    push_decimal(&mut name, index as u128 + 1);
    if let Some(given) = &relay.name {
        if !is_blank(given.as_str()) {
            name = given.clone();
        }
    }
    let forward_mode = match read_mode_option(&relay.forward_mode, global_mode) {
        Ok(mode) => mode,
        Err(error) => {
            return Err(error);
        },
    };
    let listen = match Endpoint::parse(relay.listen.as_str(), true, true) {
        Ok(endpoint) => endpoint,
        Err(error) => {
            return Err(error);
        },
    };
    let target = match Endpoint::parse(relay.target.as_str(), false, false) {
        Ok(endpoint) => endpoint,
        Err(error) => {
            return Err(error);
        },
    };
    Ok(
        RelaySpec {
            name,
            listen,
            target,
            connect_timeout: relay.connect_timeout.unwrap_or(
                global.connect_timeout.unwrap_or(Duration::from_secs(DEFAULT_CONNECT_TIMEOUT_SECS)),
            ),
            idle_timeout: first_some(relay.idle_timeout, global.idle_timeout),
            max_connections: relay.max_connections,
            max_connecting: relay.max_connecting,
            tcp_keepalive: first_some(relay.tcp_keepalive, global.tcp_keepalive),
            dns_refresh: first_some(relay.dns_refresh, global.dns_refresh),
            socket_buffer_size: first_some(relay.socket_buffer_size, global.socket_buffer_size),
            buffer_size: relay.buffer_size.unwrap_or(
                global.buffer_size.unwrap_or(DEFAULT_BUFFER_SIZE),
            ),
            forward_mode,
        },
    )
}

/// A relay that cannot be read keeps the whole file from being read.
proof fn lemma_file_relays_fail(file: FileConfig, mode: ForwardMode, from: nat, to: nat)
    requires
        file_relays(file, mode, from) is Err,
        from <= to,
    ensures
        file_relays(file, mode, to) == file_relays(file, mode, from),
    decreases to,
{
    if from < to {
        lemma_file_relays_fail(file, mode, from, (to - 1) as nat);
    }
}

fn read_file_relays(file: &FileConfig, global_mode: ForwardMode) -> (result: Result<
    Vec<RelaySpec>,
    ConfigError,
>)
    ensures
        match result {
            Ok(relays) => file_relays(*file, global_mode, file.relay@.len()) == Ok::<
                Seq<crate::config::RelayView>,
                Seq<char>,
            >(crate::config::relay_views(relays@)),
            Err(error) => file_relays(*file, global_mode, file.relay@.len()) matches Err(message)
                && error.is_invalid(message),
        },
{
    let mut relays: Vec<RelaySpec> = Vec::new();
    let mut index: usize = 0;
    assert(crate::config::relay_views(relays@) =~= Seq::empty());
    while index < file.relay.len()
        invariant
            index <= file.relay@.len(),
            file_relays(*file, global_mode, index as nat) == Ok::<
                Seq<crate::config::RelayView>,
                Seq<char>,
            >(crate::config::relay_views(relays@)),
        decreases file.relay@.len() - index,
    {
        let ghost before = relays@;
        match read_file_relay(&file.global, global_mode, &file.relay[index], index) {
            Ok(relay) => {
                relays.push(relay);
                assert(crate::config::relay_views(relays@) =~= crate::config::relay_views(
                    before,
                ).push(relay@));
            },
            Err(error) => {
                proof {
                    lemma_file_relays_fail(
                        *file,
                        global_mode,
                        (index + 1) as nat,
                        file.relay@.len(),
                    );
                }
                return Err(error);
            },
        }
        index = index + 1;
    }
    Ok(relays)
}

/// The settings that a file gives under the options `args`.
pub fn settings_from_file(file: FileConfig, args: &ServeArgs, platform: Platform) -> (result: Result<
    Settings,
    ConfigError,
>)
    ensures
        is_settings_result(result, file_settings(file, *args, platform)),
        result matches Ok(settings) ==> crate::config::settings_error(settings@, platform) is None,
{
    if file.relay.is_empty() {
        return Err(
            ConfigError::invalid(
                "configuration must contain at least one [[relay]] entry".to_owned(),
            ),
        );
    }
    let log_level = match &args.log_level {
        Some(level) => level.clone(),
        None => match &file.global.log_level {
            Some(level) => level.clone(),
            None => "info".to_owned(),
        },
    };
    let own_listen = match read_listener_option(&args.metrics_listen) {
        Ok(endpoint) => endpoint,
        Err(error) => {
            return Err(error);
        },
    };
    let file_listen = match read_listener_option(&file.global.metrics_listen) {
        Ok(endpoint) => endpoint,
        Err(error) => {
            return Err(error);
        },
    };
    let metrics_listen = match own_listen {
        Some(endpoint) => Some(endpoint),
        None => file_listen,
    };
    let global_mode = match read_mode_option(&file.global.forward_mode, ForwardMode::Auto) {
        Ok(mode) => mode,
        Err(error) => {
            return Err(error);
        },
    };
    let relays = match read_file_relays(&file, global_mode) {
        Ok(relays) => relays,
        Err(error) => {
            return Err(error);
        },
    };
    let shutdown_timeout = first_some(args.shutdown_timeout, file.global.shutdown_timeout);
    let settings = Settings {
        log_level,
        metrics_listen,
        metrics_bearer_token: copy_optional(&file.global.metrics_bearer_token),
        metrics_tls_cert: copy_path(&file.global.metrics_tls_cert),
        metrics_tls_key: copy_path(&file.global.metrics_tls_key),
        shutdown_timeout: shutdown_timeout.unwrap_or(
            Duration::from_secs(DEFAULT_SHUTDOWN_TIMEOUT_SECS),
        ),
        global_max_connections: file.global.max_connections,
        global_max_connecting: file.global.max_connecting,
        buffer_pool_size: file.global.buffer_pool_size.unwrap_or(DEFAULT_BUFFER_POOL_SIZE),
        connection_log_sample_rate: file.global.connection_log_sample_rate.unwrap_or(
            DEFAULT_CONNECTION_LOG_SAMPLE_RATE,
        ),
        reuse_port: file.global.reuse_port,
        relays,
    };
    check_settings(settings, platform)
}

/// An option that a configuration file has to set stands on the command line.
pub open spec fn has_relay_options(args: ServeArgs) -> bool {
    ||| args.connect_timeout is Some
    ||| args.idle_timeout is Some
    ||| args.max_connections is Some
    ||| args.max_connecting is Some
    ||| args.tcp_keepalive is Some
    ||| args.dns_refresh is Some
    ||| args.socket_buffer_size is Some
    ||| args.buffer_size is Some
    ||| args.buffer_pool_size is Some
    ||| args.connection_log_sample_rate is Some
    ||| args.forward_mode is Some
    ||| args.reuse_port
    ||| args.metrics_token is Some
    ||| args.metrics_tls_cert is Some
    ||| args.metrics_tls_key is Some
}

/// The configuration file that has to be read for the settings, where there is one.
pub fn config_path(args: &ServeArgs) -> (result: Result<Option<PathBuf>, ConfigError>)
    ensures
        match result {
            Ok(path) => path == args.config && (path is Some ==> !has_relay_options(*args)),
            Err(error) => args.config is Some && has_relay_options(*args) && error.is_invalid(
                "relay runtime options must be set in TOML when --config is used"@,
            ),
        },
{
    if args.config.is_some() && (args.connect_timeout.is_some() || args.idle_timeout.is_some()
        || args.max_connections.is_some() || args.max_connecting.is_some()
        || args.tcp_keepalive.is_some() || args.dns_refresh.is_some()
        || args.socket_buffer_size.is_some() || args.buffer_size.is_some()
        || args.buffer_pool_size.is_some() || args.connection_log_sample_rate.is_some()
        || args.forward_mode.is_some() || args.reuse_port || args.metrics_token.is_some()
        || args.metrics_tls_cert.is_some() || args.metrics_tls_key.is_some()) {
        return Err(
            ConfigError::invalid(
                "relay runtime options must be set in TOML when --config is used".to_owned(),
            ),
        );
    }
    Ok(copy_path(&args.config))
}

/// What came of reading a configuration file.
#[derive(Debug)]
pub enum FileReading {
    /// The file was not read.
    Unread,
    /// The file, whose path is shown as `path_text`, cannot be read.
    Unreadable {
        path_text: String,
        reason: String,
    },
    /// The file is no TOML of the expected shape.
    Malformed(String),
    /// What the file holds.
    Parsed(FileConfig),
}

/// Whether `result` is what loading gives: without a configuration file what the command line
/// gives, and with one the error of reading it, the error of its shape, or what it gives.
pub open spec fn is_load_result(
    result: Result<Settings, ConfigError>,
    args: ServeArgs,
    reading: FileReading,
    platform: Platform,
) -> bool {
    match args.config {
        None => is_settings_result(result, cli_settings(args, platform)),
        Some(path) => if has_relay_options(args) {
            result matches Err(error) && error.is_invalid(
                "relay runtime options must be set in TOML when --config is used"@,
            )
        } else {
            match reading {
                FileReading::Unread => false,
                FileReading::Unreadable { path_text, reason } => result == Err::<
                    Settings,
                    ConfigError,
                >(ConfigError::ReadConfig { path, path_text, source: reason }),
                FileReading::Malformed(reason) => result == Err::<Settings, ConfigError>(
                    ConfigError::ParseConfig(reason),
                ),
                FileReading::Parsed(file) => is_settings_result(
                    result,
                    file_settings(file, args, platform),
                ),
            }
        },
    }
}

/// The settings that the command line gives, or the configuration file that it names.
/// `reading` is what came of reading the file at `config_path`.
pub fn load_settings(args: &ServeArgs, reading: FileReading, platform: Platform) -> (result: Result<
    Settings,
    ConfigError,
>)
    requires
        args.config is Some && !has_relay_options(*args) ==> !(reading is Unread),
    ensures
        is_load_result(result, *args, reading, platform),
        result matches Ok(settings) ==> crate::config::settings_error(settings@, platform) is None,
{
    match config_path(args) {
        Err(error) => Err(error),
        Ok(None) => settings_from_cli(args, platform),
        Ok(Some(path)) => match reading {
            FileReading::Unread => settings_from_cli(args, platform),
            FileReading::Unreadable { path_text, reason } => Err(
                ConfigError::ReadConfig { path, path_text, source: reason },
            ),
            FileReading::Malformed(reason) => Err(ConfigError::ParseConfig(reason)),
            FileReading::Parsed(file) => settings_from_file(file, args, platform),
        },
    }
}

/// The options of the command line that a configuration file leaves room for.
pub open spec fn same_overrides(args: ServeArgs, other: ServeArgs) -> bool {
    &&& crate::text::optional(args.log_level) == crate::text::optional(other.log_level)
    &&& crate::text::optional(args.metrics_listen) == crate::text::optional(other.metrics_listen)
    &&& args.shutdown_timeout == other.shutdown_timeout
}

/// A configuration file gives the same settings whatever the command line says beyond log
/// level, metrics listener and shutdown timeout.
pub proof fn files_leave_three_overrides(
    file: FileConfig,
    args: ServeArgs,
    other: ServeArgs,
    platform: Platform,
)
    requires
        same_overrides(args, other),
    ensures
        file_settings(file, args, platform) == file_settings(file, other, platform),
{
    assert(listener_option(args.metrics_listen) == listener_option(other.metrics_listen));
    assert(log_level_or_info(either(args.log_level, file.global.log_level)) == log_level_or_info(
        either(other.log_level, file.global.log_level),
    ));
}

/// An override of the command line wins over the file.
pub proof fn overrides_win(file: FileConfig, args: ServeArgs, platform: Platform)
    ensures
        file_settings(file, args, platform) matches Ok(settings) ==> {
            &&& args.log_level matches Some(level) ==> settings.log_level == level@
            &&& args.shutdown_timeout matches Some(limit) ==> settings.shutdown_timeout == limit
            &&& args.metrics_listen matches Some(listen) ==> Ok::<_, Seq<char>>(
                settings.metrics_listen->0,
            ) == crate::endpoint::parse_endpoint(listen@, true, true)
        },
{
}

proof fn lemma_file_relays(file: FileConfig, mode: ForwardMode, count: nat)
    requires
        file_relays(file, mode, count) is Ok,
        count <= file.relay@.len(),
    ensures
        file_relays(file, mode, count)->Ok_0.len() == count,
        forall|i: int|
            0 <= i < count ==> file_relay(file.global, mode, file.relay@[i], i as nat) == Ok::<
                crate::config::RelayView,
                Seq<char>,
            >(#[trigger] file_relays(file, mode, count)->Ok_0[i]),
    decreases count,
{
    if count > 0 {
        lemma_file_relays(file, mode, (count - 1) as nat);
    }
}

/// A configuration file gives one relay for each of its relay tables, in their order, and each
/// by its own table, the global table and the defaults alone.
pub proof fn files_keep_their_relays(file: FileConfig, args: ServeArgs, platform: Platform)
    ensures
        file_settings(file, args, platform) matches Ok(settings) ==> {
            &&& settings.relays.len() == file.relay@.len()
            &&& mode_option(file.global.forward_mode, ForwardMode::Auto) is Ok
            &&& forall|i: int|
                0 <= i < settings.relays.len() ==> file_relay(
                    file.global,
                    mode_option(file.global.forward_mode, ForwardMode::Auto)->Ok_0,
                    file.relay@[i],
                    i as nat,
                ) == Ok::<crate::config::RelayView, Seq<char>>(#[trigger] settings.relays[i])
        },
{
    if file_settings(file, args, platform) is Ok {
        let mode = mode_option(file.global.forward_mode, ForwardMode::Auto)->Ok_0;
        lemma_file_relays(file, mode, file.relay@.len());
    }
}

/// The options name a listener and a target and nothing else.
pub open spec fn names_relay_only(args: ServeArgs) -> bool {
    &&& args.listen is Some
    &&& args.target is Some
    &&& !has_relay_options(args)
    &&& args.shutdown_timeout is None
    &&& args.metrics_listen is None
    &&& args.log_level is None
}

/// Options that name a listener and a target alone give the settings of a single relay with
/// default values.
pub proof fn bare_options_give_single_settings(args: ServeArgs, platform: Platform)
    requires
        names_relay_only(args),
    ensures
        cli_settings(args, platform) == single_settings(args.listen->0@, args.target->0@),
{
    let listen = crate::endpoint::parse_endpoint(args.listen->0@, true, true);
    let target = crate::endpoint::parse_endpoint(args.target->0@, false, false);
    if listen is Ok && target is Ok {
        lemma_single_valid(single_view(listen->Ok_0, target->Ok_0), platform);
        assert(cli_view(args, listen->Ok_0, target->Ok_0, ForwardMode::Auto, None)
            == single_view(listen->Ok_0, target->Ok_0));
    }
}

} // verus!
