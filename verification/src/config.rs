//! Relay settings: their rules, and how they come from the command line or from a file.

use std::path::PathBuf;

use vstd::prelude::*;

pub use crate::endpoint::Endpoint;
pub use crate::load::{
    config_path, load_settings, settings_from_cli, settings_from_file, FileReading,
};

use crate::duration::Duration;
use crate::error::{plain_error, quoted_error, ConfigError};
use crate::text::{chars_of, is_blank, quote, same_text, string_of, to_ascii_lowercase, trim};

verus! {

/// Seconds that an upstream connection may take unless configured otherwise.
pub const DEFAULT_CONNECT_TIMEOUT_SECS: u64 = 10;

/// Seconds that graceful shutdown may take unless configured otherwise.
pub const DEFAULT_SHUTDOWN_TIMEOUT_SECS: u64 = 30;

/// Bytes in a forwarding buffer unless configured otherwise.
pub const DEFAULT_BUFFER_SIZE: usize = 16 * 1024;

/// Pooled buffers of a relay unless configured otherwise.
pub const DEFAULT_BUFFER_POOL_SIZE: usize = 8 * 1024;

/// One connection in this many is logged unless configured otherwise.
pub const DEFAULT_CONNECTION_LOG_SAMPLE_RATE: usize = 100;

/// How the bytes of a connection are moved.
#[derive(Clone, Copy, Debug, PartialEq, Eq, Structural)]
pub enum ForwardMode {
    /// The conservative backend of the platform.
    Auto,
    /// Copy through buffers.
    Tokio,
    /// Move through kernel pipes; Linux only.
    Splice,
}

impl Default for ForwardMode {
    fn default() -> (result: ForwardMode)
        ensures
            result == ForwardMode::Auto,
    {
        ForwardMode::Auto
    }
}

/// The forwarding mode that `value` names, or the message that says why it names none.
pub open spec fn parse_forward_mode(value: Seq<char>) -> Result<ForwardMode, Seq<char>> {
    let word = crate::text::lowered(crate::text::trimmed(value));
    if word == "auto"@ {
        Ok(ForwardMode::Auto)
    } else if word == "tokio"@ || word == "copy"@ {
        Ok(ForwardMode::Tokio)
    } else if word == "splice"@ {
        Ok(ForwardMode::Splice)
    } else {
        Err(
            "forward_mode must be one of auto, tokio, or splice, got "@ + crate::text::quoted(word),
        )
    }
}

impl ForwardMode {
    /// Reads the name of a forwarding mode, whatever its case.
    pub fn parse(value: &str) -> (result: Result<ForwardMode, ConfigError>)
        ensures
            match result {
                Ok(mode) => parse_forward_mode(value@) == Ok::<ForwardMode, Seq<char>>(mode),
                Err(error) => parse_forward_mode(value@) matches Err(message) && error.is_invalid(
                    message,
                ),
            },
    {
        let chars = chars_of(value);
        let word = to_ascii_lowercase(trim(chars.as_slice()));
        let word = word.as_slice();
        proof {
            reveal_strlit("auto");
            reveal_strlit("tokio");
            reveal_strlit("copy");
            reveal_strlit("splice");
        }
        if same_text(word, "auto") {
            Ok(ForwardMode::Auto)
        } else if same_text(word, "tokio") || same_text(word, "copy") {
            Ok(ForwardMode::Tokio)
        } else if same_text(word, "splice") {
            Ok(ForwardMode::Splice)
        } else {
            let mut message = "forward_mode must be one of auto, tokio, or splice, got ".to_owned();
            message.append(quote(string_of(word).as_str()).as_str());
            Err(ConfigError::invalid(message))
        }
    }
}

impl std::str::FromStr for ForwardMode {
    type Err = ConfigError;

    /// Reads the name of a forwarding mode, whatever its case.
    fn from_str(value: &str) -> (result: Result<ForwardMode, ConfigError>)
        ensures
            match result {
                Ok(mode) => parse_forward_mode(value@) == Ok::<ForwardMode, Seq<char>>(mode),
                Err(error) => parse_forward_mode(value@) matches Err(message) && error.is_invalid(
                    message,
                ),
            },
    {
        ForwardMode::parse(value)
    }
}

/// What the settings may ask of the operating system.
#[derive(Clone, Copy, Debug, PartialEq, Eq, Structural)]
pub struct Platform {
    /// Listeners can share a port.
    pub unix: bool,
    /// Bytes can be moved through kernel pipes.
    pub linux: bool,
}

impl Platform {
    /// Linux, which has all that settings may ask for.
    pub open spec fn spec_linux() -> Platform {
        Platform { unix: true, linux: true }
    }

    /// Linux, which has all that settings may ask for.
    #[verifier::when_used_as_spec(spec_linux)]
    pub fn linux() -> (result: Platform)
        ensures
            result == Platform::spec_linux(),
    {
        Platform { unix: true, linux: true }
    }
}

/// One relay mapping: a listener and the upstream target that it forwards to.
#[derive(Clone, Debug)]
pub struct RelaySpec {
    pub name: String,
    pub listen: Endpoint,
    pub target: Endpoint,
    pub connect_timeout: Duration,
    pub idle_timeout: Option<Duration>,
    pub max_connections: Option<usize>,
    pub max_connecting: Option<usize>,
    pub tcp_keepalive: Option<Duration>,
    pub dns_refresh: Option<Duration>,
    pub socket_buffer_size: Option<usize>,
    pub buffer_size: usize,
    pub forward_mode: ForwardMode,
}

/// The values of a relay mapping.
pub struct RelayView {
    pub name: Seq<char>,
    pub listen: crate::endpoint::EndpointView,
    pub target: crate::endpoint::EndpointView,
    pub connect_timeout: Duration,
    pub idle_timeout: Option<Duration>,
    pub max_connections: Option<usize>,
    pub max_connecting: Option<usize>,
    pub tcp_keepalive: Option<Duration>,
    pub dns_refresh: Option<Duration>,
    pub socket_buffer_size: Option<usize>,
    pub buffer_size: usize,
    pub forward_mode: ForwardMode,
}

impl View for RelaySpec {
    type V = RelayView;

    open spec fn view(&self) -> RelayView {
        RelayView {
            name: self.name@,
            listen: self.listen@,
            target: self.target@,
            connect_timeout: self.connect_timeout,
            idle_timeout: self.idle_timeout,
            max_connections: self.max_connections,
            max_connecting: self.max_connecting,
            tcp_keepalive: self.tcp_keepalive,
            dns_refresh: self.dns_refresh,
            socket_buffer_size: self.socket_buffer_size,
            buffer_size: self.buffer_size,
            forward_mode: self.forward_mode,
        }
    }
}

/// All that a relay process runs by.
#[derive(Clone, Debug)]
pub struct Settings {
    pub log_level: String,
    pub metrics_listen: Option<Endpoint>,
    pub metrics_bearer_token: Option<String>,
    pub metrics_tls_cert: Option<PathBuf>,
    pub metrics_tls_key: Option<PathBuf>,
    pub shutdown_timeout: Duration,
    pub global_max_connections: Option<usize>,
    pub global_max_connecting: Option<usize>,
    pub buffer_pool_size: usize,
    pub connection_log_sample_rate: usize,
    pub reuse_port: bool,
    pub relays: Vec<RelaySpec>,
}

/// The values of the settings.
pub struct SettingsView {
    pub log_level: Seq<char>,
    pub metrics_listen: Option<crate::endpoint::EndpointView>,
    pub metrics_bearer_token: Option<Seq<char>>,
    pub metrics_tls_cert: Option<PathBuf>,
    pub metrics_tls_key: Option<PathBuf>,
    pub shutdown_timeout: Duration,
    pub global_max_connections: Option<usize>,
    pub global_max_connecting: Option<usize>,
    pub buffer_pool_size: usize,
    pub connection_log_sample_rate: usize,
    pub reuse_port: bool,
    pub relays: Seq<RelayView>,
}

/// The parts of an optional endpoint.
pub open spec fn endpoint_option(endpoint: Option<Endpoint>) -> Option<
    crate::endpoint::EndpointView,
> {
    match endpoint {
        Some(endpoint) => Some(endpoint@),
        None => None,
    }
}

/// The values of several relay mappings.
pub open spec fn relay_views(relays: Seq<RelaySpec>) -> Seq<RelayView> {
    relays.map_values(|relay: RelaySpec| relay@)
}

impl View for Settings {
    type V = SettingsView;

    open spec fn view(&self) -> SettingsView {
        SettingsView {
            log_level: self.log_level@,
            metrics_listen: endpoint_option(self.metrics_listen),
            metrics_bearer_token: crate::text::optional(self.metrics_bearer_token),
            metrics_tls_cert: self.metrics_tls_cert,
            metrics_tls_key: self.metrics_tls_key,
            shutdown_timeout: self.shutdown_timeout,
            global_max_connections: self.global_max_connections,
            global_max_connecting: self.global_max_connecting,
            buffer_pool_size: self.buffer_pool_size,
            connection_log_sample_rate: self.connection_log_sample_rate,
            reuse_port: self.reuse_port,
            relays: relay_views(self.relays@),
        }
    }
}

/// A limit of zero breaks a rule; no limit keeps it.
pub open spec fn limit_error(value: Option<usize>, name: Seq<char>) -> Option<Seq<char>> {
    if value == Some(0usize) {
        Some(name + " must be greater than zero"@)
    } else {
        None
    }
}

/// An optional span of time that is zero.
pub open spec fn is_zero_option(value: Option<Duration>) -> bool {
    value matches Some(duration) && duration.total_nanos() == 0
}

/// The start of a message about the relay called `name`, followed by `rest`.
pub open spec fn about_relay(name: Seq<char>, rest: Seq<char>) -> Seq<char> {
    "relay "@ + crate::text::quoted(name) + rest
}

/// Another relay before `index` has the same name.
pub open spec fn name_taken(relays: Seq<RelayView>, index: int) -> bool {
    exists|other: int| 0 <= other < index && (#[trigger] relays[other]).name == relays[index].name
}

/// Another relay before `index` has the same listener address. Port zero stands for a port
/// that the system picks, and is never the same.
pub open spec fn listener_taken(relays: Seq<RelayView>, index: int) -> bool {
    relays[index].listen.port != 0 && exists|other: int|
        0 <= other < index && (#[trigger] relays[other]).listen.port != 0
            && relays[other].listen.address == relays[index].listen.address
}

/// The first rule that the relay at `index` breaks.
pub open spec fn relay_error(relays: Seq<RelayView>, index: int, platform: Platform) -> Option<
    Seq<char>,
> {
    let relay = relays[index];
    let name = relay.name;
    let connections = limit_error(
        relay.max_connections,
        about_relay(name, " max_connections"@),
    );
    let connecting = limit_error(relay.max_connecting, about_relay(name, " max_connecting"@));
    if crate::text::trimmed(name).len() == 0 {
        Some("relay name cannot be empty"@)
    } else if name_taken(relays, index) {
        Some("duplicate relay name "@ + crate::text::quoted(name))
    } else if listener_taken(relays, index) {
        Some("duplicate listener address "@ + crate::text::quoted(relay.listen.address))
    } else if relay.connect_timeout.total_nanos() == 0 {
        Some(about_relay(name, " connect_timeout must be greater than zero"@))
    } else if is_zero_option(relay.idle_timeout) {
        Some(about_relay(name, " idle_timeout must be greater than zero"@))
    } else if is_zero_option(relay.tcp_keepalive) {
        Some(about_relay(name, " tcp_keepalive must be greater than zero"@))
    } else if connections is Some {
        connections
    } else if connecting is Some {
        connecting
    } else if is_zero_option(relay.dns_refresh) {
        Some(about_relay(name, " dns_refresh must be greater than zero"@))
    } else if relay.socket_buffer_size == Some(0usize) {
        Some(about_relay(name, " socket_buffer_size must be greater than zero"@))
    } else if relay.buffer_size == 0 {
        Some(about_relay(name, " buffer_size must be greater than zero"@))
    } else if relay.forward_mode == ForwardMode::Splice && !platform.linux {
        Some("forward_mode=splice is only supported on Linux"@)
    } else {
        None
    }
}

/// The first rule that a relay from `index` on breaks.
pub open spec fn relays_error(relays: Seq<RelayView>, index: int, platform: Platform) -> Option<
    Seq<char>,
>
    decreases relays.len() - index,
{
    if index >= relays.len() {
        None
    } else {
        match relay_error(relays, index, platform) {
            Some(message) => Some(message),
            None => relays_error(relays, index + 1, platform),
        }
    }
}

/// The first rule that the settings break; none where they are valid.
pub open spec fn settings_error(settings: SettingsView, platform: Platform) -> Option<Seq<char>> {
    let connections = limit_error(settings.global_max_connections, "global max_connections"@);
    let connecting = limit_error(settings.global_max_connecting, "global max_connecting"@);
    if settings.relays.len() == 0 {
        Some("at least one relay mapping is required"@)
    } else if settings.shutdown_timeout.total_nanos() == 0 {
        Some("shutdown_timeout must be greater than zero"@)
    } else if connections is Some {
        connections
    } else if connecting is Some {
        connecting
    } else if settings.buffer_pool_size < 2 || settings.buffer_pool_size % 2 != 0 {
        Some("buffer_pool_size must be an even number of at least 2"@)
    } else if settings.connection_log_sample_rate == 0 {
        Some("connection_log_sample_rate must be greater than zero"@)
    } else if (settings.metrics_tls_cert is Some) != (settings.metrics_tls_key is Some) {
        Some("metrics_tls_cert and metrics_tls_key must be configured together"@)
    } else if settings.metrics_tls_cert is Some && settings.metrics_listen is None {
        Some("metrics TLS requires metrics_listen"@)
    } else if settings.metrics_bearer_token == Some(Seq::<char>::empty()) {
        Some("metrics_bearer_token cannot be empty"@)
    } else if settings.reuse_port && !platform.unix {
        Some("reuse_port is only supported on Unix platforms"@)
    } else {
        relays_error(settings.relays, 0, platform)
    }
}

/// Whether `result` is success for no broken rule, and the message of the broken one otherwise.
pub open spec fn is_rule_result(
    result: Result<(), ConfigError>,
    broken: Option<Seq<char>>,
) -> bool {
    match result {
        Ok(_) => broken is None,
        Err(error) => broken matches Some(message) && error.is_invalid(message),
    }
}

fn relay_message(name: &str, rest: &str) -> (result: String)
    ensures
        result@ == about_relay(name@, rest@),
{
    let mut message = "relay ".to_owned();
    message.append(quote(name).as_str());
    message.append(rest);
    message
}

/// Refuses a limit of zero.
pub fn validate_limit(value: Option<usize>, name: &str) -> (result: Result<(), ConfigError>)
    ensures
        is_rule_result(result, limit_error(value, name@)),
{
    match value {
        Some(limit) => {
            if limit == 0 {
                let mut message = name.to_owned();
                message.append(" must be greater than zero");
                return Err(ConfigError::invalid(message));
            }
            Ok(())
        },
        None => Ok(()),
    }
}

fn is_zero(value: &Option<Duration>) -> (result: bool)
    ensures
        result == is_zero_option(*value),
{
    match value {
        Some(duration) => duration.is_zero(),
        None => false,
    }
}

fn name_is_taken(relays: &Vec<RelaySpec>, index: usize) -> (result: bool)
    requires
        index < relays@.len(),
    ensures
        result == name_taken(relay_views(relays@), index as int),
{
    let ghost views = relay_views(relays@);
    let mut other: usize = 0;
    while other < index
        invariant
            other <= index < relays@.len(),
            views == relay_views(relays@),
            forall|j: int| 0 <= j < other ==> (#[trigger] views[j]).name != views[index as int].name,
        decreases index - other,
    {
        if relays[other].name == relays[index].name {
            assert(views[other as int].name == views[index as int].name);
            return true;
        }
        other = other + 1;
    }
    false
}

fn texts_equal(first: &str, second: &str) -> (result: bool)
    ensures
        result == (first@ == second@),
{
    let chars = chars_of(first);
    same_text(chars.as_slice(), second)
}

fn listener_is_taken(relays: &Vec<RelaySpec>, index: usize) -> (result: bool)
    requires
        index < relays@.len(),
    ensures
        result == listener_taken(relay_views(relays@), index as int),
{
    let ghost views = relay_views(relays@);
    if relays[index].listen.port() == 0 {
        return false;
    }
    let mut other: usize = 0;
    while other < index
        invariant
            other <= index < relays@.len(),
            views == relay_views(relays@),
            views[index as int].listen.port != 0,
            forall|j: int|
                0 <= j < other ==> !((#[trigger] views[j]).listen.port != 0
                    && views[j].listen.address == views[index as int].listen.address),
        decreases index - other,
    {
        if relays[other].listen.port() != 0 && texts_equal(
            relays[other].listen.address(),
            relays[index].listen.address(),
        ) {
            assert(views[other as int].listen.port != 0);
            return true;
        }
        other = other + 1;
    }
    false
}

fn validate_relay(relays: &Vec<RelaySpec>, index: usize, platform: Platform) -> (result: Result<
    (),
    ConfigError,
>)
    requires
        index < relays@.len(),
    ensures
        is_rule_result(result, relay_error(relay_views(relays@), index as int, platform)),
{
    let relay = &relays[index];
    let name = relay.name.as_str();
    assert(relay_views(relays@)[index as int] == relay@);
    if is_blank(name) {
        return Err(plain_error("relay name cannot be empty"));
    }
    if name_is_taken(relays, index) {
        return Err(quoted_error("duplicate relay name ", name));
    }
    if listener_is_taken(relays, index) {
        return Err(quoted_error("duplicate listener address ", relay.listen.address()));
    }
    if relay.connect_timeout.is_zero() {
        return Err(
            ConfigError::invalid(
                relay_message(name, " connect_timeout must be greater than zero"),
            ),
        );
    }
    if is_zero(&relay.idle_timeout) {
        return Err(
            ConfigError::invalid(relay_message(name, " idle_timeout must be greater than zero")),
        );
    }
    if is_zero(&relay.tcp_keepalive) {
        return Err(
            ConfigError::invalid(relay_message(name, " tcp_keepalive must be greater than zero")),
        );
    }
    match validate_limit(
        relay.max_connections,
        relay_message(name, " max_connections").as_str(),
    ) {
        Ok(_) => {},
        Err(error) => {
            return Err(error);
        },
    }
    match validate_limit(
        relay.max_connecting,
        relay_message(name, " max_connecting").as_str(),
    ) {
        Ok(_) => {},
        Err(error) => {
            return Err(error);
        },
    }
    if is_zero(&relay.dns_refresh) {
        return Err(
            ConfigError::invalid(relay_message(name, " dns_refresh must be greater than zero")),
        );
    }
    if let Some(size) = relay.socket_buffer_size {
        if size == 0 {
            return Err(
                ConfigError::invalid(
                    relay_message(name, " socket_buffer_size must be greater than zero"),
                ),
            );
        }
    }
    if relay.buffer_size == 0 {
        return Err(
            ConfigError::invalid(relay_message(name, " buffer_size must be greater than zero")),
        );
    }
    if relay.forward_mode == ForwardMode::Splice && !platform.linux {
        return Err(plain_error("forward_mode=splice is only supported on Linux"));
    }
    Ok(())
}

impl Settings {
    /// Holds the settings to the rules of `platform`.
    pub fn validate(&self, platform: Platform) -> (result: Result<(), ConfigError>)
        ensures
            is_rule_result(result, settings_error(self@, platform)),
    {
        if self.relays.is_empty() {
            return Err(plain_error("at least one relay mapping is required"));
        }
        if self.shutdown_timeout.is_zero() {
            return Err(plain_error("shutdown_timeout must be greater than zero"));
        }
        match validate_limit(self.global_max_connections, "global max_connections") {
            Ok(_) => {},
            Err(error) => {
                return Err(error);
            },
        }
        match validate_limit(self.global_max_connecting, "global max_connecting") {
            Ok(_) => {},
            Err(error) => {
                return Err(error);
            },
        }
        if self.buffer_pool_size < 2 || self.buffer_pool_size % 2 != 0 {
            return Err(plain_error("buffer_pool_size must be an even number of at least 2"));
        }
        if self.connection_log_sample_rate == 0 {
            return Err(plain_error("connection_log_sample_rate must be greater than zero"));
        }
        if self.metrics_tls_cert.is_some() != self.metrics_tls_key.is_some() {
            return Err(
                plain_error("metrics_tls_cert and metrics_tls_key must be configured together"),
            );
        }
        if self.metrics_tls_cert.is_some() && self.metrics_listen.is_none() {
            return Err(plain_error("metrics TLS requires metrics_listen"));
        }
        if let Some(token) = &self.metrics_bearer_token {
            if token.as_str().is_empty() {
                assert(token@ =~= Seq::<char>::empty());
                return Err(plain_error("metrics_bearer_token cannot be empty"));
            }
        }
        if self.reuse_port && !platform.unix {
            return Err(plain_error("reuse_port is only supported on Unix platforms"));
        }
        let mut index: usize = 0;
        while index < self.relays.len()
            invariant
                index <= self.relays@.len(),
                relays_error(self@.relays, 0, platform) == relays_error(
                    self@.relays,
                    index as int,
                    platform,
                ),
                settings_error(self@, platform) == relays_error(self@.relays, 0, platform),
            decreases self.relays@.len() - index,
        {
            match validate_relay(&self.relays, index, platform) {
                Ok(_) => {},
                Err(error) => {
                    return Err(error);
                },
            }
            index = index + 1;
        }
        Ok(())
    }
}

/// An optional limit that lets something through.
pub open spec fn is_open_limit(limit: Option<usize>) -> bool {
    limit matches Some(limit) ==> limit > 0
}

/// An optional span of time that lasts.
pub open spec fn is_lasting(value: Option<Duration>) -> bool {
    value matches Some(duration) ==> duration.seconds() > 0 || duration.nanos() > 0
}

/// What holds of a relay mapping of valid settings, taken alone.
pub open spec fn is_sound_relay(relay: RelayView, platform: Platform) -> bool {
    &&& crate::text::trimmed(relay.name).len() > 0
    &&& is_lasting(Some(relay.connect_timeout))
    &&& is_lasting(relay.idle_timeout)
    &&& is_lasting(relay.tcp_keepalive)
    &&& is_lasting(relay.dns_refresh)
    &&& is_open_limit(relay.max_connections)
    &&& is_open_limit(relay.max_connecting)
    &&& is_open_limit(relay.socket_buffer_size)
    &&& relay.buffer_size > 0
    &&& relay.forward_mode == ForwardMode::Splice ==> platform.linux
}

/// Two relay mappings that can run side by side.
pub open spec fn are_apart(first: RelayView, second: RelayView) -> bool {
    &&& first.name != second.name
    &&& first.listen.port != 0 && second.listen.port != 0 ==> first.listen.address
        != second.listen.address
}

/// What holds of the relay mappings of valid settings.
pub open spec fn are_sound_relays(relays: Seq<RelayView>, platform: Platform) -> bool {
    &&& forall|i: int| 0 <= i < relays.len() ==> is_sound_relay(#[trigger] relays[i], platform)
    &&& forall|i: int, j: int|
        0 <= i < j < relays.len() ==> are_apart(#[trigger] relays[i], #[trigger] relays[j])
}

/// What holds of valid settings.
pub open spec fn are_sound_settings(settings: SettingsView, platform: Platform) -> bool {
    &&& settings.relays.len() > 0
    &&& is_lasting(Some(settings.shutdown_timeout))
    &&& is_open_limit(settings.global_max_connections)
    &&& is_open_limit(settings.global_max_connecting)
    &&& settings.buffer_pool_size >= 2
    &&& settings.buffer_pool_size % 2 == 0
    &&& settings.connection_log_sample_rate > 0
    &&& settings.metrics_tls_cert is Some <==> settings.metrics_tls_key is Some
    &&& settings.metrics_tls_cert is Some ==> settings.metrics_listen is Some
    &&& settings.metrics_bearer_token matches Some(token) ==> token.len() > 0
    &&& settings.reuse_port ==> platform.unix
    &&& are_sound_relays(settings.relays, platform)
}

/// Relays from `index` on break no rule exactly where none of them breaks one.
proof fn lemma_relays_error(relays: Seq<RelayView>, index: int, platform: Platform)
    requires
        0 <= index,
    ensures
        relays_error(relays, index, platform) is None <==> forall|i: int|
            index <= i < relays.len() ==> (#[trigger] relay_error(relays, i, platform)) is None,
    decreases relays.len() - index,
{
    if index < relays.len() {
        lemma_relays_error(relays, index + 1, platform);
        assert(relays_error(relays, index, platform) is None ==> forall|i: int|
            index <= i < relays.len() ==> (#[trigger] relay_error(relays, i, platform)) is None) by {
            if relays_error(relays, index, platform) is None {
                assert(relay_error(relays, index, platform) is None);
            }
        }
    }
}

/// Settings break no rule exactly where every limit lets something through, every span of time
/// is positive, what belongs together is there together, and no two relays have the same name
/// or the same listener address.
pub proof fn valid_settings_are_sound(settings: SettingsView, platform: Platform)
    ensures
        settings_error(settings, platform) is None <==> are_sound_settings(settings, platform),
{
    let relays = settings.relays;
    lemma_relays_error(relays, 0, platform);
    if are_sound_relays(relays, platform) {
        assert forall|i: int| 0 <= i < relays.len() implies (#[trigger] relay_error(
            relays,
            i,
            platform,
        )) is None by {
            assert(is_sound_relay(relays[i], platform));
            assert(!name_taken(relays, i));
            assert(!listener_taken(relays, i));
        }
    }
    if relays_error(relays, 0, platform) is None {
        assert forall|i: int| 0 <= i < relays.len() implies is_sound_relay(
            #[trigger] relays[i],
            platform,
        ) by {
            assert(relay_error(relays, i, platform) is None);
        }
        assert forall|i: int, j: int| 0 <= i < j < relays.len() implies are_apart(
            #[trigger] relays[i],
            #[trigger] relays[j],
        ) by {
            assert(relay_error(relays, j, platform) is None);
            assert(!name_taken(relays, j));
            assert(!listener_taken(relays, j));
        }
    }
    if let Some(token) = settings.metrics_bearer_token {
        if token.len() == 0 {
            assert(token =~= Seq::<char>::empty());
        }
    }
}

} // verus!
