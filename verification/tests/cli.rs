use std::path::PathBuf;

use portrelay::cli::{
    accept_duration, parse_duration_arg, parse_positive_usize, Cli, Command, Refusal,
    RefusedOption, ServeArgs, ServeOption, ServeOptions,
};
use portrelay::duration::{duration_is_bounded, parse_duration, Duration};

fn option(name: &'static str, value: &'static str) -> clap::Arg {
    clap::Arg::new(name).long(name).value_name(value)
}

fn command() -> clap::Command {
    clap::Command::new("portrelay")
        .subcommand_required(true)
        .subcommand(
            clap::Command::new("serve")
                .arg(option("listen", "HOST:PORT"))
                .arg(option("target", "HOST:PORT"))
                .arg(option("config", "PATH"))
                .arg(option("connect-timeout", "DURATION"))
                .arg(option("max-connections", "NUMBER")),
        )
}

fn no_options() -> ServeOptions {
    ServeOptions {
        listen: None,
        target: None,
        config: None,
        connect_timeout: None,
        idle_timeout: None,
        shutdown_timeout: None,
        max_connections: None,
        max_connecting: None,
        tcp_keepalive: None,
        dns_refresh: None,
        socket_buffer_size: None,
        buffer_size: None,
        buffer_pool_size: None,
        connection_log_sample_rate: None,
        forward_mode: None,
        reuse_port: false,
        metrics_listen: None,
        metrics_token: None,
        metrics_tls_cert: None,
        metrics_tls_key: None,
        log_level: None,
    }
}

fn try_parse_from(arguments: &[&str]) -> Result<Cli, String> {
    let matches = command()
        .try_get_matches_from(arguments)
        .map_err(|error| error.to_string())?;
    let (_, serve) = matches.subcommand().unwrap();
    let text = |name: &str| serve.get_one::<String>(name).cloned();
    let mut options = no_options();
    options.listen = text("listen");
    options.target = text("target");
    options.config = text("config").map(PathBuf::from);
    options.connect_timeout = text("connect-timeout");
    options.max_connections = text("max-connections");
    let args = ServeArgs::from_options(options).map_err(|refused| format!("{refused:?}"))?;
    Ok(Cli {
        command: Command::Serve(args),
    })
}

#[test]
fn parses_single_relay_options() {
    let cli = try_parse_from(&[
        "portrelay",
        "serve",
        "--listen",
        ":13306",
        "--target",
        "db.internal:3306",
        "--connect-timeout",
        "2s",
        "--max-connections",
        "10",
    ])
    .unwrap();
    let Command::Serve(args) = cli.command;
    assert_eq!(args.listen.as_deref(), Some(":13306"));
    assert_eq!(args.target.as_deref(), Some("db.internal:3306"));
    assert_eq!(args.connect_timeout, Some(Duration::from_secs(2)));
    assert_eq!(args.max_connections, Some(10));
}

#[test]
fn rejects_conflicting_config_and_single_mode() {
    assert!(try_parse_from(&[
        "portrelay",
        "serve",
        "--config",
        "portrelay.toml",
        "--listen",
        ":13306",
    ])
    .is_err());
}

#[test]
fn rejects_zero_duration_and_limit() {
    assert!(parse_duration_arg("0s").is_err());
    assert!(parse_positive_usize("0").is_err());
    assert_eq!(
        parse_duration_arg("1500ms").unwrap(),
        Duration::from_millis(1500)
    );
}

#[test]
fn explains_refused_durations_and_numbers() {
    assert_eq!(
        parse_duration_arg("0s").unwrap_err(),
        "duration must be greater than zero"
    );
    let expected = humantime::parse_duration("soon \"now\"").unwrap_err();
    assert_eq!(
        parse_duration_arg("soon \"now\"").unwrap_err(),
        format!("invalid duration \"soon \\\"now\\\"\": {expected}")
    );
    assert_eq!(
        parse_positive_usize("0").unwrap_err(),
        "value must be greater than zero"
    );
    for text in ["", "x", "-1", "+", "1 ", "99999999999999999999999", "1x99999999999999999999"] {
        let expected = text.parse::<usize>().unwrap_err();
        assert_eq!(
            parse_positive_usize(text).unwrap_err(),
            format!("invalid positive integer {text:?}: {expected}")
        );
    }
    assert_eq!(parse_positive_usize("+10"), Ok(10));
    assert_eq!(parse_positive_usize("007"), Ok(7));
    assert_eq!(
        parse_positive_usize("18446744073709551615"),
        Ok(18446744073709551615)
    );
}

#[test]
fn reads_durations_as_humantime_does() {
    for text in ["2h 37min", "32ms", "1d", "1month", "15days 2min 2s", "1.5s", "1us", "", "5", "1 x"] {
        let expected = humantime::parse_duration(text);
        let read = parse_duration(text);
        match expected {
            Ok(duration) => assert_eq!(
                read,
                Ok(Duration::new(duration.as_secs(), duration.subsec_nanos()))
            ),
            Err(error) => assert_eq!(read, Err(error.to_string())),
        }
    }
}

#[test]
fn reads_durations_up_to_the_last_second() {
    for text in [
        "18446744073709551615s",
        "18446744073709551615s 1ns",
        "18446744073709551615s 999ms 999us 999ns",
        "18446744073709551615s 1s",
        "18446744073709551614s 500ms 500ms",
        "18446744073709551614s 999ms 1ms 1ns",
        "18446744073709551614s 1ms 1999ms",
        "18446744073709551615s 500ms 501ms",
        "18446744073709551615.5s",
        "584542046090years 1ms",
        "18446744073709551615s 500ms 500m",
        "18446744073709551615s 500ms 500 m s",
        "18446744073709551615s 500ms 500.5ns",
        "1.5min 0.25h 1.1M 1.5y 2w",
        "1.1min",
        "1.0000000001s",
        "1.s",
        "1..5s",
        "1 000 ms",
        "5 \u{b5}s",
        "99999999999999999999s",
        "1.99999999999999999999s",
    ] {
        assert!(duration_is_bounded(text), "{text}");
        match humantime::parse_duration(text) {
            Ok(duration) => assert_eq!(
                parse_duration(text),
                Ok(Duration::new(duration.as_secs(), duration.subsec_nanos()))
            ),
            Err(error) => assert_eq!(parse_duration(text), Err(error.to_string())),
        }
    }
}

#[test]
fn refuses_durations_one_second_beyond() {
    for text in [
        "18446744073709551615s 500ms 500ms",
        "18446744073709551615s 999ms1ms",
        "18446744073709551615s 1000ms",
        "18446744073709551615s 1000.5ms",
        "18446744073709551614s 1999ms 1ms",
        "18446744073709551615s 1000000000ns later",
        "18446744073709551615.5s 500ms",
        "1000ms 18446744073709551614s 0.5s 0.5s",
    ] {
        assert!(!duration_is_bounded(text), "{text}");
        assert_eq!(
            parse_duration(text),
            Err("duration is out of range".to_owned())
        );
    }
    let mut options = no_options();
    options.idle_timeout = Some("18446744073709551615s 500ms 500ms".to_owned());
    assert_eq!(
        ServeArgs::from_options(options).unwrap_err(),
        vec![RefusedOption {
            option: ServeOption::IdleTimeout,
            refusal: Refusal::Value(
                "invalid duration \"18446744073709551615s 500ms 500ms\": \
                 duration is out of range"
                    .to_owned()
            ),
        }]
    );
}

#[test]
fn accepts_what_was_read() {
    assert_eq!(
        accept_duration("2s", Ok(Duration::from_secs(2))),
        Ok(Duration::from_secs(2))
    );
    assert_eq!(
        accept_duration("0s", Ok(Duration::from_secs(0))),
        Err("duration must be greater than zero".to_owned())
    );
    assert_eq!(
        accept_duration("2 s", Err("no".to_owned())),
        Err("invalid duration \"2 s\": no".to_owned())
    );
}

#[test]
fn options_report_every_broken_rule() {
    let mut options = no_options();
    options.config = Some(PathBuf::from("relay.toml"));
    options.listen = Some(":1".to_owned());
    options.target = Some("a:1".to_owned());
    options.connect_timeout = Some("0s".to_owned());
    options.buffer_size = Some("0".to_owned());
    options.log_level = Some("debug".to_owned());
    let refused = |option, refusal| RefusedOption { option, refusal };
    assert_eq!(
        ServeArgs::from_options(options).unwrap_err(),
        vec![
            refused(ServeOption::Listen, Refusal::ConflictsWithConfig),
            refused(ServeOption::Target, Refusal::ConflictsWithConfig),
            refused(
                ServeOption::ConnectTimeout,
                Refusal::Value("duration must be greater than zero".to_owned())
            ),
            refused(
                ServeOption::BufferSize,
                Refusal::Value("value must be greater than zero".to_owned())
            ),
        ]
    );
}

#[test]
fn options_keep_every_value() {
    let mut options = no_options();
    options.idle_timeout = Some("30m".to_owned());
    options.shutdown_timeout = Some("5s".to_owned());
    options.max_connecting = Some("3".to_owned());
    options.tcp_keepalive = Some("1min".to_owned());
    options.dns_refresh = Some("10s".to_owned());
    options.socket_buffer_size = Some("4096".to_owned());
    options.buffer_size = Some("8192".to_owned());
    options.buffer_pool_size = Some("16".to_owned());
    options.connection_log_sample_rate = Some("7".to_owned());
    options.forward_mode = Some("splice".to_owned());
    options.reuse_port = true;
    options.metrics_listen = Some(":9090".to_owned());
    options.metrics_token = Some("token".to_owned());
    options.metrics_tls_cert = Some(PathBuf::from("cert.pem"));
    options.metrics_tls_key = Some(PathBuf::from("key.pem"));
    options.log_level = Some("debug".to_owned());
    let args = ServeArgs::from_options(options).unwrap();
    assert_eq!(args.idle_timeout, Some(Duration::from_secs(1_800)));
    assert_eq!(args.shutdown_timeout, Some(Duration::from_secs(5)));
    assert_eq!(args.max_connecting, Some(3));
    assert_eq!(args.tcp_keepalive, Some(Duration::from_secs(60)));
    assert_eq!(args.dns_refresh, Some(Duration::from_secs(10)));
    assert_eq!(args.socket_buffer_size, Some(4_096));
    assert_eq!(args.buffer_size, Some(8_192));
    assert_eq!(args.buffer_pool_size, Some(16));
    assert_eq!(args.connection_log_sample_rate, Some(7));
    assert_eq!(args.forward_mode.as_deref(), Some("splice"));
    assert!(args.reuse_port);
    assert_eq!(args.metrics_listen.as_deref(), Some(":9090"));
    assert_eq!(args.metrics_token.as_deref(), Some("token"));
    assert_eq!(args.metrics_tls_cert, Some(PathBuf::from("cert.pem")));
    assert_eq!(args.metrics_tls_key, Some(PathBuf::from("key.pem")));
    assert_eq!(args.log_level.as_deref(), Some("debug"));
}

#[test]
fn durations_convert_between_units() {
    let duration = Duration::new(3, 7_654_321);
    assert_eq!(duration.as_secs(), 3);
    assert_eq!(duration.subsec_nanos(), 7_654_321);
    assert_eq!(duration.as_millis(), 3_007);
    assert_eq!(duration.as_micros(), 3_007_654);
    assert!(!duration.is_zero());
    assert!(Duration::from_millis(0).is_zero());
    assert_eq!(Duration::from_millis(2_500), Duration::new(2, 500_000_000));
}
