//! The command line: its options, and the rules that their values keep.

use std::path::PathBuf;

use vstd::prelude::*;

use crate::duration::{parse_duration, Duration};
use crate::text::{chars_of, parse_number, quote};

verus! {

/// A parsed command line.
#[derive(Debug)]
pub struct Cli {
    pub command: Command,
}

/// What the program is asked to do.
#[derive(Debug)]
pub enum Command {
    /// Run one or more administrator-configured TCP relays.
    Serve(ServeArgs),
}

/// The options of `serve`.
#[derive(Debug)]
pub struct ServeArgs {
    /// Listener address. `:PORT` is for all IPv4 interfaces.
    pub listen: Option<String>,
    /// Administrator-configured upstream address.
    pub target: Option<String>,
    /// TOML configuration with one or more relay mappings.
    pub config: Option<PathBuf>,
    /// Longest time to establish an upstream connection.
    pub connect_timeout: Option<Duration>,
    /// Close connections after this long without transferred data.
    pub idle_timeout: Option<Duration>,
    /// Longest time for graceful shutdown.
    pub shutdown_timeout: Option<Duration>,
    /// Most concurrent proxied connections in single-relay mode.
    pub max_connections: Option<usize>,
    /// Most concurrent upstream connection attempts.
    pub max_connecting: Option<usize>,
    /// Send TCP keepalive probes after this idle time.
    pub tcp_keepalive: Option<Duration>,
    /// Refresh administrator-configured DNS targets at this interval.
    pub dns_refresh: Option<Duration>,
    /// TCP receive and send buffer sizes.
    pub socket_buffer_size: Option<usize>,
    /// Bytes in each forwarding buffer.
    pub buffer_size: Option<usize>,
    /// Pooled forwarding buffers shared by connections.
    pub buffer_pool_size: Option<usize>,
    /// Log one connection in this many.
    pub connection_log_sample_rate: Option<usize>,
    /// Forwarding backend: auto, tokio or splice.
    pub forward_mode: Option<String>,
    /// Let several processes bind the same listener.
    pub reuse_port: bool,
    /// Prometheus HTTP endpoint.
    pub metrics_listen: Option<String>,
    /// Bearer token that metrics requests must carry.
    pub metrics_token: Option<String>,
    /// PEM certificate for HTTPS metrics.
    pub metrics_tls_cert: Option<PathBuf>,
    /// PEM private key for HTTPS metrics.
    pub metrics_tls_key: Option<PathBuf>,
    /// Tracing filter, for example info or debug.
    pub log_level: Option<String>,
}

/// The options of `serve` as they stand on the command line, durations and numbers unread.
#[derive(Debug)]
pub struct ServeOptions {
    pub listen: Option<String>,
    pub target: Option<String>,
    pub config: Option<PathBuf>,
    pub connect_timeout: Option<String>,
    pub idle_timeout: Option<String>,
    pub shutdown_timeout: Option<String>,
    pub max_connections: Option<String>,
    pub max_connecting: Option<String>,
    pub tcp_keepalive: Option<String>,
    pub dns_refresh: Option<String>,
    pub socket_buffer_size: Option<String>,
    pub buffer_size: Option<String>,
    pub buffer_pool_size: Option<String>,
    pub connection_log_sample_rate: Option<String>,
    pub forward_mode: Option<String>,
    pub reuse_port: bool,
    pub metrics_listen: Option<String>,
    pub metrics_token: Option<String>,
    pub metrics_tls_cert: Option<PathBuf>,
    pub metrics_tls_key: Option<PathBuf>,
    pub log_level: Option<String>,
}

/// The duration that an option with the text `value` has, given what was read in the text.
pub open spec fn positive_duration(value: Seq<char>, reading: Result<Duration, Seq<char>>) -> Result<
    Duration,
    Seq<char>,
> {
    match reading {
        Err(message) => Err("invalid duration "@ + crate::text::quoted(value) + ": "@ + message),
        Ok(duration) => if duration.total_nanos() == 0 {
            Err("duration must be greater than zero"@)
        } else {
            Ok(duration)
        },
    }
}

/// A result with the characters of its message.
pub open spec fn with_text<T>(result: Result<T, String>) -> Result<T, Seq<char>> {
    match result {
        Ok(value) => Ok(value),
        Err(message) => Err(message@),
    }
}

/// The duration that an option with the text `value` has, given what was read in the text.
pub fn accept_duration(value: &str, reading: Result<Duration, String>) -> (result: Result<
    Duration,
    String,
>)
    ensures
        with_text(result) == positive_duration(value@, with_text(reading)),
{
    match reading {
        Err(message) => {
            let mut text = String::new();
            text.append("invalid duration ");
            text.append(quote(value).as_str());
            text.append(": ");
            text.append(message.as_str());
            Err(text)
        },
        Ok(duration) => {
            if duration.is_zero() {
                Err("duration must be greater than zero".to_owned())
            } else {
                Ok(duration)
            }
        },
    }
}

/// Reads a duration option, which must be longer than zero.
pub fn parse_duration_arg(value: &str) -> (result: Result<Duration, String>)
    ensures
        with_text(result) == positive_duration(value@, crate::duration::duration_in(value@)),
        result matches Ok(duration) ==> duration.wf() && duration.total_nanos() > 0,
{
    let reading = parse_duration(value);
    accept_duration(value, reading)
}

/// The number that a limit option with the text `value` has.
pub open spec fn positive_number(value: Seq<char>) -> Result<usize, Seq<char>> {
    match crate::text::number(value, usize::MAX as nat) {
        Err(error) => Err(
            "invalid positive integer "@ + crate::text::quoted(value) + ": "@ + error.text(),
        ),
        Ok(number) => if number == 0 {
            Err("value must be greater than zero"@)
        } else {
            Ok(number as usize)
        },
    }
}

/// Reads a limit option, which must be above zero.
pub fn parse_positive_usize(value: &str) -> (result: Result<usize, String>)
    ensures
        with_text(result) == positive_number(value@),
        result matches Ok(number) ==> number > 0,
{
    let chars = chars_of(value);
    proof {
        crate::text::lemma_number_bound(value@, usize::MAX as nat);
    }
    match parse_number(chars.as_slice(), usize::MAX as u64) {
        Err(error) => {
            let mut text = String::new();
            text.append("invalid positive integer ");
            text.append(quote(value).as_str());
            text.append(": ");
            text.append(error.message());
            Err(text)
        },
        Ok(number) => {
            if number == 0 {
                Err("value must be greater than zero".to_owned())
            } else {
                Ok(number as usize)
            }
        },
    }
}

/// What a duration option gives: nothing where it is absent.
pub open spec fn duration_option(value: Option<String>) -> Result<Option<Duration>, Seq<char>> {
    match value {
        None => Ok(None),
        Some(value) => match positive_duration(value@, crate::duration::duration_in(value@)) {
            Ok(duration) => Ok(Some(duration)),
            Err(reason) => Err(reason),
        },
    }
}

/// What a limit option gives: nothing where it is absent.
pub open spec fn number_option(value: Option<String>) -> Result<Option<usize>, Seq<char>> {
    match value {
        None => Ok(None),
        Some(value) => match positive_number(value@) {
            Ok(number) => Ok(Some(number)),
            Err(reason) => Err(reason),
        },
    }
}

/// An option of `serve` that can be refused.
#[derive(Clone, Copy, Debug, PartialEq, Eq, Structural)]
pub enum ServeOption {
    Listen,
    Target,
    ConnectTimeout,
    IdleTimeout,
    ShutdownTimeout,
    MaxConnections,
    MaxConnecting,
    TcpKeepalive,
    DnsRefresh,
    SocketBufferSize,
    BufferSize,
    BufferPoolSize,
    ConnectionLogSampleRate,
}

/// Why an option is refused.
#[derive(Debug, PartialEq, Eq)]
pub enum Refusal {
    /// Its value has none of the texts it may have, for this reason.
    Value(String),
    /// It cannot stand together with a configuration file.
    ConflictsWithConfig,
}

/// The reason of a refusal.
pub enum RefusalView {
    Value(Seq<char>),
    ConflictsWithConfig,
}

impl View for Refusal {
    type V = RefusalView;

    open spec fn view(&self) -> RefusalView {
        match self {
            Refusal::Value(reason) => RefusalView::Value(reason@),
            Refusal::ConflictsWithConfig => RefusalView::ConflictsWithConfig,
        }
    }
}

/// An option that is refused, and why.
#[derive(Debug, PartialEq, Eq)]
pub struct RefusedOption {
    pub option: ServeOption,
    pub refusal: Refusal,
}

/// The options that are refused, and why.
pub open spec fn refusal_views(refused: Seq<RefusedOption>) -> Seq<(ServeOption, RefusalView)> {
    refused.map_values(|entry: RefusedOption| (entry.option, entry.refusal@))
}

/// The refusal of an option whose value could not be read.
pub open spec fn refused_value<T>(option: ServeOption, value: Result<T, Seq<char>>) -> Seq<
    (ServeOption, RefusalView),
> {
    match value {
        Ok(_) => Seq::empty(),
        Err(reason) => seq![(option, RefusalView::Value(reason))],
    }
}

/// The refusal of an option of single-relay mode that stands beside a configuration file.
pub open spec fn refused_beside_config(
    option: ServeOption,
    value: Option<String>,
    config: Option<PathBuf>,
) -> Seq<(ServeOption, RefusalView)> {
    if value is Some && config is Some {
        seq![(option, RefusalView::ConflictsWithConfig)]
    } else {
        Seq::empty()
    }
}

fn refuse(refused: &mut Vec<RefusedOption>, option: ServeOption, refusal: Refusal)
    ensures
        refusal_views(final(refused)@) == refusal_views(old(refused)@).push((option, refusal@)),
{
    let ghost before = refused@;
    refused.push(RefusedOption { option, refusal });
    assert(refusal_views(refused@) =~= refusal_views(before).push((option, refusal@)));
}

fn read_duration_option(
    refused: &mut Vec<RefusedOption>,
    option: ServeOption,
    value: &Option<String>,
) -> (result: Option<Duration>)
    ensures
        refusal_views(final(refused)@) == refusal_views(old(refused)@) + refused_value(
            option,
            duration_option(*value),
        ),
        duration_option(*value) matches Ok(duration) ==> result == duration,
{
    match value {
        None => None,
        Some(value) => match parse_duration_arg(value.as_str()) {
            Ok(duration) => Some(duration),
            Err(reason) => {
                refuse(refused, option, Refusal::Value(reason));
                None
            },
        },
    }
}

fn read_number_option(
    refused: &mut Vec<RefusedOption>,
    option: ServeOption,
    value: &Option<String>,
) -> (result: Option<usize>)
    ensures
        refusal_views(final(refused)@) == refusal_views(old(refused)@) + refused_value(
            option,
            number_option(*value),
        ),
        number_option(*value) matches Ok(number) ==> result == number,
{
    match value {
        None => None,
        Some(value) => match parse_positive_usize(value.as_str()) {
            Ok(number) => Some(number),
            Err(reason) => {
                refuse(refused, option, Refusal::Value(reason));
                None
            },
        },
    }
}

fn check_beside_config(
    refused: &mut Vec<RefusedOption>,
    option: ServeOption,
    value: &Option<String>,
    config: &Option<PathBuf>,
)
    ensures
        refusal_views(final(refused)@) == refusal_views(old(refused)@) + refused_beside_config(
            option,
            *value,
            *config,
        ),
{
    if value.is_some() && config.is_some() {
        refuse(refused, option, Refusal::ConflictsWithConfig);
    }
}

impl ServeOptions {
    /// All that is wrong with the options.
    pub open spec fn refusals(self) -> Seq<(ServeOption, RefusalView)> {
        refused_beside_config(ServeOption::Listen, self.listen, self.config)
            + refused_beside_config(ServeOption::Target, self.target, self.config)
            + refused_value(ServeOption::ConnectTimeout, duration_option(self.connect_timeout))
            + refused_value(ServeOption::IdleTimeout, duration_option(self.idle_timeout))
            + refused_value(ServeOption::ShutdownTimeout, duration_option(self.shutdown_timeout))
            + refused_value(ServeOption::MaxConnections, number_option(self.max_connections))
            + refused_value(ServeOption::MaxConnecting, number_option(self.max_connecting))
            + refused_value(ServeOption::TcpKeepalive, duration_option(self.tcp_keepalive))
            + refused_value(ServeOption::DnsRefresh, duration_option(self.dns_refresh))
            + refused_value(ServeOption::SocketBufferSize, number_option(self.socket_buffer_size))
            + refused_value(ServeOption::BufferSize, number_option(self.buffer_size))
            + refused_value(ServeOption::BufferPoolSize, number_option(self.buffer_pool_size))
            + refused_value(ServeOption::ConnectionLogSampleRate, number_option(self.connection_log_sample_rate))
    }

    /// `args` are these options with durations and numbers read.
    pub open spec fn gives(self, args: ServeArgs) -> bool {
        &&& args.listen == self.listen
        &&& args.target == self.target
        &&& args.config == self.config
        &&& duration_option(self.connect_timeout) == Ok::<Option<Duration>, Seq<char>>(args.connect_timeout)
        &&& duration_option(self.idle_timeout) == Ok::<Option<Duration>, Seq<char>>(args.idle_timeout)
        &&& duration_option(self.shutdown_timeout) == Ok::<Option<Duration>, Seq<char>>(args.shutdown_timeout)
        &&& number_option(self.max_connections) == Ok::<Option<usize>, Seq<char>>(args.max_connections)
        &&& number_option(self.max_connecting) == Ok::<Option<usize>, Seq<char>>(args.max_connecting)
        &&& duration_option(self.tcp_keepalive) == Ok::<Option<Duration>, Seq<char>>(args.tcp_keepalive)
        &&& duration_option(self.dns_refresh) == Ok::<Option<Duration>, Seq<char>>(args.dns_refresh)
        &&& number_option(self.socket_buffer_size) == Ok::<Option<usize>, Seq<char>>(args.socket_buffer_size)
        &&& number_option(self.buffer_size) == Ok::<Option<usize>, Seq<char>>(args.buffer_size)
        &&& number_option(self.buffer_pool_size) == Ok::<Option<usize>, Seq<char>>(args.buffer_pool_size)
        &&& number_option(self.connection_log_sample_rate) == Ok::<Option<usize>, Seq<char>>(args.connection_log_sample_rate)
        &&& args.forward_mode == self.forward_mode
        &&& args.reuse_port == self.reuse_port
        &&& args.metrics_listen == self.metrics_listen
        &&& args.metrics_token == self.metrics_token
        &&& args.metrics_tls_cert == self.metrics_tls_cert
        &&& args.metrics_tls_key == self.metrics_tls_key
        &&& args.log_level == self.log_level
    }
}

impl ServeArgs {
    /// Reads the values of the options and holds them to the rules of the command line. Every
    /// option that breaks one is reported; which of them to show is left to the caller.
    pub fn from_options(options: ServeOptions) -> (result: Result<ServeArgs, Vec<RefusedOption>>)
        ensures
            match result {
                Ok(args) => options.refusals().len() == 0 && options.gives(args),
                Err(refused) => options.refusals().len() > 0 && refusal_views(refused@)
                    == options.refusals(),
            },
    {
        let mut refused: Vec<RefusedOption> = Vec::new();
        assert(refusal_views(refused@) =~= Seq::empty());
        check_beside_config(&mut refused, ServeOption::Listen, &options.listen, &options.config);
        check_beside_config(&mut refused, ServeOption::Target, &options.target, &options.config);
        let connect_timeout = read_duration_option(
            &mut refused,
            ServeOption::ConnectTimeout,
            &options.connect_timeout,
        );
        let idle_timeout = read_duration_option(
            &mut refused,
            ServeOption::IdleTimeout,
            &options.idle_timeout,
        );
        let shutdown_timeout = read_duration_option(
            &mut refused,
            ServeOption::ShutdownTimeout,
            &options.shutdown_timeout,
        );
        let max_connections = read_number_option(
            &mut refused,
            ServeOption::MaxConnections,
            &options.max_connections,
        );
        let max_connecting = read_number_option(
            &mut refused,
            ServeOption::MaxConnecting,
            &options.max_connecting,
        );
        let tcp_keepalive = read_duration_option(
            &mut refused,
            ServeOption::TcpKeepalive,
            &options.tcp_keepalive,
        );
        let dns_refresh = read_duration_option(
            &mut refused,
            ServeOption::DnsRefresh,
            &options.dns_refresh,
        );
        let socket_buffer_size = read_number_option(
            &mut refused,
            ServeOption::SocketBufferSize,
            &options.socket_buffer_size,
        );
        let buffer_size = read_number_option(
            &mut refused,
            ServeOption::BufferSize,
            &options.buffer_size,
        );
        let buffer_pool_size = read_number_option(
            &mut refused,
            ServeOption::BufferPoolSize,
            &options.buffer_pool_size,
        );
        let connection_log_sample_rate = read_number_option(
            &mut refused,
            ServeOption::ConnectionLogSampleRate,
            &options.connection_log_sample_rate,
        );
        assert(refusal_views(refused@) =~= options.refusals());
        if refused.len() > 0 {
            return Err(refused);
        }
        Ok(
            ServeArgs {
                listen: options.listen,
                target: options.target,
                config: options.config,
                connect_timeout,
                idle_timeout,
                shutdown_timeout,
                max_connections,
                max_connecting,
                tcp_keepalive,
                dns_refresh,
                socket_buffer_size,
                buffer_size,
                buffer_pool_size,
                connection_log_sample_rate,
                forward_mode: options.forward_mode,
                reuse_port: options.reuse_port,
                metrics_listen: options.metrics_listen,
                metrics_token: options.metrics_token,
                metrics_tls_cert: options.metrics_tls_cert,
                metrics_tls_key: options.metrics_tls_key,
                log_level: options.log_level,
            },
        )
    }
}

/// A duration that is longer than zero, where there is one.
pub open spec fn is_positive_duration(value: Option<Duration>) -> bool {
    value matches Some(duration) ==> duration.total_nanos() > 0
}

/// A number above zero, where there is one.
pub open spec fn is_positive_number(value: Option<usize>) -> bool {
    value matches Some(number) ==> number > 0
}

/// Options that are accepted give no duration and no limit of zero.
pub proof fn accepted_options_are_positive(options: ServeOptions, args: ServeArgs)
    requires
        options.gives(args),
    ensures
        is_positive_duration(args.connect_timeout),
        is_positive_duration(args.idle_timeout),
        is_positive_duration(args.shutdown_timeout),
        is_positive_duration(args.tcp_keepalive),
        is_positive_duration(args.dns_refresh),
        is_positive_number(args.max_connections),
        is_positive_number(args.max_connecting),
        is_positive_number(args.socket_buffer_size),
        is_positive_number(args.buffer_size),
        is_positive_number(args.buffer_pool_size),
        is_positive_number(args.connection_log_sample_rate),
{
    crate::text::lemma_number_bound(options.max_connections->0@, usize::MAX as nat);
    crate::text::lemma_number_bound(options.max_connecting->0@, usize::MAX as nat);
    crate::text::lemma_number_bound(options.socket_buffer_size->0@, usize::MAX as nat);
    crate::text::lemma_number_bound(options.buffer_size->0@, usize::MAX as nat);
    crate::text::lemma_number_bound(options.buffer_pool_size->0@, usize::MAX as nat);
    crate::text::lemma_number_bound(options.connection_log_sample_rate->0@, usize::MAX as nat);
}

/// Options that are accepted name a configuration file, or a listener and a target, but not
/// both.
pub proof fn accepted_options_do_not_conflict(options: ServeOptions)
    requires
        options.refusals().len() == 0,
    ensures
        options.config is Some ==> options.listen is None && options.target is None,
{
}

} // verus!
