use std::path::PathBuf;

use portrelay::cli::ServeArgs;
use portrelay::config::{
    config_path, load_settings, settings_from_cli, settings_from_file, Endpoint, FileReading,
    ForwardMode, Platform, Settings, DEFAULT_BUFFER_POOL_SIZE, DEFAULT_BUFFER_SIZE,
    DEFAULT_CONNECTION_LOG_SAMPLE_RATE,
};
use portrelay::duration::Duration;
use portrelay::error::ConfigError;
use portrelay::load::{
    deserialize_duration_opt, FileConfig, GlobalFileConfig, RelayFileConfig,
};

fn no_args() -> ServeArgs {
    ServeArgs {
        listen: None,
        target: None,
        config: None,
        connect_timeout: None,
        idle_timeout: None,
        shutdown_timeout: None,
        max_connections: None,
        max_connecting: None,
        tcp_keepalive: None,
        dns_refresh: None,
        socket_buffer_size: None,
        buffer_size: None,
        buffer_pool_size: None,
        connection_log_sample_rate: None,
        forward_mode: None,
        reuse_port: false,
        metrics_listen: None,
        metrics_token: None,
        metrics_tls_cert: None,
        metrics_tls_key: None,
        log_level: None,
    }
}

fn relay_table(name: Option<&str>, listen: &str, target: &str) -> RelayFileConfig {
    RelayFileConfig {
        name: name.map(str::to_owned),
        listen: listen.to_owned(),
        target: target.to_owned(),
        connect_timeout: None,
        idle_timeout: None,
        max_connections: None,
        max_connecting: None,
        tcp_keepalive: None,
        dns_refresh: None,
        socket_buffer_size: None,
        buffer_size: None,
        forward_mode: None,
    }
}

fn text_entry(table: &toml::Table, key: &str) -> Option<String> {
    table
        .get(key)
        .map(|value| value.as_str().unwrap().to_owned())
}

fn read_file(text: &str) -> FileConfig {
    let table: toml::Table = toml::from_str(text).unwrap();
    let relay = table["relay"]
        .as_array()
        .unwrap()
        .iter()
        .map(|entry| {
            let entry = entry.as_table().unwrap();
            let mut relay = relay_table(
                text_entry(entry, "name").as_deref(),
                &text_entry(entry, "listen").unwrap(),
                &text_entry(entry, "target").unwrap(),
            );
            relay.connect_timeout =
                deserialize_duration_opt(text_entry(entry, "connect_timeout")).unwrap();
            relay
        })
        .collect();
    FileConfig {
        global: GlobalFileConfig::default(),
        relay,
    }
}

fn message(error: ConfigError) -> String {
    match error {
        ConfigError::Invalid(message) => message,
        other => panic!("{other:?}"),
    }
}

fn single() -> Settings {
    Settings::single("127.0.0.1:0", "127.0.0.1:1").unwrap()
}

#[test]
fn parses_ipv4_hostname_and_listener_shorthand() {
    assert_eq!(
        Endpoint::parse(":13306", true, true).unwrap().address(),
        "0.0.0.0:13306"
    );
    assert_eq!(
        Endpoint::parse("db.internal:3306", false, false)
            .unwrap()
            .host(),
        "db.internal"
    );
}

#[test]
fn parses_bracketed_ipv6() {
    assert_eq!(
        Endpoint::parse("[::1]:5432", false, false)
            .unwrap()
            .address(),
        "[::1]:5432"
    );
}

#[test]
fn rejects_invalid_target_and_port() {
    assert!(Endpoint::parse(":3306", false, false).is_err());
    assert!(Endpoint::parse("127.0.0.1", false, false).is_err());
    assert!(Endpoint::parse("127.0.0.1:0", false, false).is_err());
    assert!(Endpoint::parse("::1:5432", false, false).is_err());
}

#[test]
fn parses_toml_durations_and_rejects_duplicates() {
    let parsed = read_file(
        r#"
                [[relay]]
                name = "one"
                listen = "127.0.0.1:10001"
                target = "127.0.0.1:20001"
                connect_timeout = "2s"

                [[relay]]
                name = "two"
                listen = "127.0.0.1:10001"
                target = "127.0.0.1:20002"
            "#,
    );
    let args = no_args();
    assert_eq!(
        parsed.relay[0].connect_timeout,
        Some(Duration::from_secs(2))
    );
    assert!(settings_from_file(parsed, &args, Platform::linux()).is_err());
}

#[test]
fn single_settings_validate() {
    let settings = Settings::single("127.0.0.1:0", "127.0.0.1:1").unwrap();
    assert_eq!(settings.relays[0].name, "default");
}

#[test]
fn rejects_metrics_tls_without_listener() {
    let mut settings = Settings::single("127.0.0.1:0", "127.0.0.1:1").unwrap();
    settings.metrics_tls_cert = Some("cert.pem".into());
    settings.metrics_tls_key = Some("key.pem".into());
    let error = settings.validate(Platform::linux()).unwrap_err().to_string();
    assert!(error.contains("metrics TLS requires metrics_listen"));
}

#[test]
fn endpoints_explain_what_is_wrong() {
    let refused = |value: &str| message(Endpoint::parse(value, false, false).unwrap_err());
    for value in ["", "   ", "a b:1", "[::1]", "[::1]x", "[]:1", "host:", "host:70000", "host:-1", ":80"] {
        assert!(!refused(value).is_empty());
    }
    let endpoint = Endpoint::parse("  example.org:443  ", false, false).unwrap();
    assert_eq!(endpoint.host(), "example.org");
    assert_eq!(endpoint.port(), 443);
    assert_eq!(endpoint.to_string(), "example.org:443");
    let endpoint = Endpoint::parse("[2001:db8::1]:80", true, true).unwrap();
    assert_eq!(endpoint.host(), "2001:db8::1");
    assert_eq!(endpoint.port(), 80);
    let endpoint: Endpoint = "127.0.0.1:80".parse().unwrap();
    assert_eq!(endpoint.address(), "127.0.0.1:80");
}

#[test]
fn addresses_read_back() {
    for value in [":0", "0.0.0.0:65535", "[::1]:22", "db.internal:3306", " a:1 "] {
        let endpoint = Endpoint::parse(value, true, true).unwrap();
        let again = Endpoint::parse(endpoint.address(), true, true).unwrap();
        assert_eq!(again, endpoint);
    }
}

#[test]
fn forward_modes_are_named() {
    assert_eq!(ForwardMode::parse("auto").unwrap(), ForwardMode::Auto);
    assert_eq!(ForwardMode::parse(" Splice ").unwrap(), ForwardMode::Splice);
    assert_eq!("TOKIO".parse::<ForwardMode>().unwrap(), ForwardMode::parse("tokio").unwrap());
    assert_eq!(ForwardMode::default(), ForwardMode::Auto);
    assert!(message(ForwardMode::parse("fast").unwrap_err()).contains("\"fast\""));
}

#[test]
fn single_settings_have_the_defaults() {
    let settings = single();
    assert_eq!(settings.log_level, "info");
    assert_eq!(settings.shutdown_timeout, Duration::from_secs(30));
    assert_eq!(settings.buffer_pool_size, DEFAULT_BUFFER_POOL_SIZE);
    assert_eq!(
        settings.connection_log_sample_rate,
        DEFAULT_CONNECTION_LOG_SAMPLE_RATE
    );
    assert_eq!(settings.relays.len(), 1);
    assert_eq!(settings.relays[0].connect_timeout, Duration::from_secs(10));
    assert_eq!(settings.relays[0].buffer_size, DEFAULT_BUFFER_SIZE);
    assert_eq!(settings.relays[0].forward_mode, ForwardMode::Auto);
    assert!(settings.validate(Platform::linux()).is_ok());
    assert!(settings
        .validate(Platform {
            unix: false,
            linux: false
        })
        .is_ok());
}

#[test]
fn every_rule_of_the_settings_is_reported() {
    let refused = |change: &dyn Fn(&mut Settings)| {
        let mut settings = single();
        change(&mut settings);
        message(settings.validate(Platform::linux()).unwrap_err())
    };
    assert_eq!(
        refused(&|s| s.relays.clear()),
        "at least one relay mapping is required"
    );
    assert_eq!(
        refused(&|s| s.shutdown_timeout = Duration::from_secs(0)),
        "shutdown_timeout must be greater than zero"
    );
    assert_eq!(
        refused(&|s| s.global_max_connections = Some(0)),
        "global max_connections must be greater than zero"
    );
    assert_eq!(
        refused(&|s| s.global_max_connecting = Some(0)),
        "global max_connecting must be greater than zero"
    );
    assert_eq!(
        refused(&|s| s.buffer_pool_size = 3),
        "buffer_pool_size must be an even number of at least 2"
    );
    assert_eq!(
        refused(&|s| s.buffer_pool_size = 0),
        "buffer_pool_size must be an even number of at least 2"
    );
    assert_eq!(
        refused(&|s| s.connection_log_sample_rate = 0),
        "connection_log_sample_rate must be greater than zero"
    );
    assert_eq!(
        refused(&|s| s.metrics_tls_key = Some("key.pem".into())),
        "metrics_tls_cert and metrics_tls_key must be configured together"
    );
    assert_eq!(
        refused(&|s| s.metrics_bearer_token = Some(String::new())),
        "metrics_bearer_token cannot be empty"
    );
    assert_eq!(
        refused(&|s| s.relays[0].name = " \t".to_owned()),
        "relay name cannot be empty"
    );
    assert_eq!(
        refused(&|s| {
            s.relays[0].name = "a\"b".to_owned();
            s.relays.push(s.relays[0].clone());
        }),
        "duplicate relay name \"a\\\"b\""
    );
    assert_eq!(
        refused(&|s| {
            s.relays[0].listen = Endpoint::parse(":80", true, true).unwrap();
            s.relays.push(s.relays[0].clone());
            s.relays[1].name = "other".to_owned();
        }),
        "duplicate listener address \"0.0.0.0:80\""
    );
    assert_eq!(
        refused(&|s| s.relays[0].connect_timeout = Duration::from_secs(0)),
        "relay \"default\" connect_timeout must be greater than zero"
    );
    assert_eq!(
        refused(&|s| s.relays[0].idle_timeout = Some(Duration::from_secs(0))),
        "relay \"default\" idle_timeout must be greater than zero"
    );
    assert_eq!(
        refused(&|s| s.relays[0].tcp_keepalive = Some(Duration::from_secs(0))),
        "relay \"default\" tcp_keepalive must be greater than zero"
    );
    assert_eq!(
        refused(&|s| s.relays[0].max_connections = Some(0)),
        "relay \"default\" max_connections must be greater than zero"
    );
    assert_eq!(
        refused(&|s| s.relays[0].max_connecting = Some(0)),
        "relay \"default\" max_connecting must be greater than zero"
    );
    assert_eq!(
        refused(&|s| s.relays[0].dns_refresh = Some(Duration::from_secs(0))),
        "relay \"default\" dns_refresh must be greater than zero"
    );
    assert_eq!(
        refused(&|s| s.relays[0].socket_buffer_size = Some(0)),
        "relay \"default\" socket_buffer_size must be greater than zero"
    );
    assert_eq!(
        refused(&|s| s.relays[0].buffer_size = 0),
        "relay \"default\" buffer_size must be greater than zero"
    );
}

#[test]
fn platforms_without_a_feature_refuse_it() {
    let mut settings = single();
    settings.reuse_port = true;
    settings.relays[0].forward_mode = ForwardMode::Splice;
    assert!(settings.validate(Platform::linux()).is_ok());
    let unix = Platform {
        unix: true,
        linux: false,
    };
    assert_eq!(
        message(settings.validate(unix).unwrap_err()),
        "forward_mode=splice is only supported on Linux"
    );
    let other = Platform {
        unix: false,
        linux: false,
    };
    assert_eq!(
        message(settings.validate(other).unwrap_err()),
        "reuse_port is only supported on Unix platforms"
    );
}

#[test]
fn listeners_on_a_picked_port_may_repeat() {
    let mut settings = single();
    settings.relays.push(settings.relays[0].clone());
    settings.relays[1].name = "other".to_owned();
    assert!(settings.validate(Platform::linux()).is_ok());
}

#[test]
fn command_line_gives_one_relay() {
    let mut args = no_args();
    args.listen = Some(":80".to_owned());
    args.target = Some("db:3306".to_owned());
    args.max_connections = Some(5);
    args.max_connecting = Some(2);
    args.connect_timeout = Some(Duration::from_secs(3));
    args.metrics_listen = Some(":9090".to_owned());
    args.metrics_tls_cert = Some(PathBuf::from("cert.pem"));
    args.metrics_tls_key = Some(PathBuf::from("key.pem"));
    args.metrics_token = Some("token".to_owned());
    args.forward_mode = Some("splice".to_owned());
    let settings = settings_from_cli(&args, Platform::linux()).unwrap();
    assert_eq!(settings.global_max_connections, Some(5));
    assert_eq!(settings.global_max_connecting, Some(2));
    assert_eq!(settings.metrics_tls_cert, Some(PathBuf::from("cert.pem")));
    assert_eq!(settings.metrics_tls_key, Some(PathBuf::from("key.pem")));
    assert_eq!(settings.metrics_bearer_token.as_deref(), Some("token"));
    assert_eq!(
        settings.metrics_listen.as_ref().unwrap().address(),
        "0.0.0.0:9090"
    );
    let relay = &settings.relays[0];
    assert_eq!(relay.name, "default");
    assert_eq!(relay.listen.address(), "0.0.0.0:80");
    assert_eq!(relay.target.address(), "db:3306");
    assert_eq!(relay.max_connections, None);
    assert_eq!(relay.connect_timeout, Duration::from_secs(3));
    assert_eq!(relay.forward_mode, ForwardMode::Splice);
}

#[test]
fn command_line_needs_listener_and_target() {
    let mut args = no_args();
    let expected = "--listen and --target are required without --config";
    assert_eq!(
        message(settings_from_cli(&args, Platform::linux()).unwrap_err()),
        expected
    );
    args.listen = Some(":80".to_owned());
    assert_eq!(
        message(settings_from_cli(&args, Platform::linux()).unwrap_err()),
        expected
    );
}

#[test]
fn bare_command_line_is_single_mode() {
    let mut args = no_args();
    args.listen = Some("127.0.0.1:0".to_owned());
    args.target = Some("127.0.0.1:1".to_owned());
    let settings = settings_from_cli(&args, Platform::linux()).unwrap();
    assert_eq!(format!("{settings:?}"), format!("{:?}", single()));
}

#[test]
fn file_relays_inherit_from_global_and_defaults() {
    let mut global = GlobalFileConfig::default();
    global.connect_timeout = Some(Duration::from_secs(4));
    global.idle_timeout = Some(Duration::from_secs(5));
    global.max_connections = Some(100);
    global.forward_mode = Some("splice".to_owned());
    let mut first = relay_table(None, ":1", "a:1");
    first.connect_timeout = Some(Duration::from_secs(1));
    first.forward_mode = Some("auto".to_owned());
    first.max_connections = Some(7);
    let second = relay_table(Some("  "), ":2", "b:2");
    let third = relay_table(Some("named"), ":3", "c:3");
    let file = FileConfig {
        global,
        relay: vec![first, second, third],
    };
    let settings = settings_from_file(file, &no_args(), Platform::linux()).unwrap();
    assert_eq!(settings.global_max_connections, Some(100));
    assert_eq!(settings.relays.len(), 3);
    assert_eq!(settings.relays[0].name, "relay-1");
    assert_eq!(settings.relays[0].connect_timeout, Duration::from_secs(1));
    assert_eq!(settings.relays[0].idle_timeout, Some(Duration::from_secs(5)));
    assert_eq!(settings.relays[0].forward_mode, ForwardMode::Auto);
    assert_eq!(settings.relays[0].max_connections, Some(7));
    assert_eq!(settings.relays[1].name, "relay-2");
    assert_eq!(settings.relays[1].connect_timeout, Duration::from_secs(4));
    assert_eq!(settings.relays[1].forward_mode, ForwardMode::Splice);
    assert_eq!(settings.relays[1].max_connections, None);
    assert_eq!(settings.relays[1].buffer_size, DEFAULT_BUFFER_SIZE);
    assert_eq!(settings.relays[2].name, "named");
}

#[test]
fn overrides_of_the_command_line_win_over_files() {
    let mut global = GlobalFileConfig::default();
    global.log_level = Some("warn".to_owned());
    global.metrics_listen = Some("127.0.0.1:1".to_owned());
    global.shutdown_timeout = Some(Duration::from_secs(9));
    let file = FileConfig {
        global,
        relay: vec![relay_table(None, ":1", "a:1")],
    };
    let mut args = no_args();
    args.log_level = Some("debug".to_owned());
    args.metrics_listen = Some(":2".to_owned());
    args.shutdown_timeout = Some(Duration::from_secs(3));
    args.max_connections = Some(1);
    let settings = settings_from_file(file, &args, Platform::linux()).unwrap();
    assert_eq!(settings.log_level, "debug");
    assert_eq!(settings.metrics_listen.unwrap().address(), "0.0.0.0:2");
    assert_eq!(settings.shutdown_timeout, Duration::from_secs(3));
    assert_eq!(settings.global_max_connections, None);
}

#[test]
fn files_without_relays_or_with_bad_entries_are_refused() {
    let file = FileConfig {
        global: GlobalFileConfig::default(),
        relay: Vec::new(),
    };
    assert_eq!(
        message(settings_from_file(file, &no_args(), Platform::linux()).unwrap_err()),
        "configuration must contain at least one [[relay]] entry"
    );
    let mut global = GlobalFileConfig::default();
    global.metrics_listen = Some("nowhere".to_owned());
    let file = FileConfig {
        global,
        relay: vec![relay_table(None, ":1", "a:1")],
    };
    let mut args = no_args();
    args.metrics_listen = Some(":2".to_owned());
    assert!(settings_from_file(file, &args, Platform::linux()).is_err());
}

#[test]
fn configuration_files_leave_few_options() {
    let mut args = no_args();
    args.config = Some(PathBuf::from("relay.toml"));
    args.log_level = Some("debug".to_owned());
    assert_eq!(
        config_path(&args).unwrap(),
        Some(PathBuf::from("relay.toml"))
    );
    args.reuse_port = true;
    let expected = "relay runtime options must be set in TOML when --config is used";
    assert_eq!(message(config_path(&args).unwrap_err()), expected);
    assert_eq!(
        message(load_settings(&args, FileReading::Unread, Platform::linux()).unwrap_err()),
        expected
    );
    args.config = None;
    assert_eq!(config_path(&args).unwrap(), None);
}

#[test]
fn loading_follows_what_came_of_the_file() {
    let mut args = no_args();
    args.listen = Some(":80".to_owned());
    args.target = Some("db:3306".to_owned());
    let settings = load_settings(&args, FileReading::Unread, Platform::linux()).unwrap();
    assert_eq!(settings.relays[0].target.address(), "db:3306");

    let mut args = no_args();
    args.config = Some(PathBuf::from("relay.toml"));
    let unreadable = FileReading::Unreadable {
        path_text: "relay.toml".to_owned(),
        reason: "gone".to_owned(),
    };
    match load_settings(&args, unreadable, Platform::linux()) {
        Err(ConfigError::ReadConfig { path, source, .. }) => {
            assert_eq!(path, PathBuf::from("relay.toml"));
            assert_eq!(source, "gone");
        }
        other => panic!("{other:?}"),
    }
    match load_settings(
        &args,
        FileReading::Malformed("no table".to_owned()),
        Platform::linux(),
    ) {
        Err(ConfigError::ParseConfig(reason)) => assert_eq!(reason, "no table"),
        other => panic!("{other:?}"),
    }
    let file = FileConfig {
        global: GlobalFileConfig::default(),
        relay: vec![relay_table(Some("one"), ":1", "a:1")],
    };
    let settings = load_settings(&args, FileReading::Parsed(file), Platform::linux()).unwrap();
    assert_eq!(settings.relays[0].name, "one");
}

#[test]
fn duration_entries_are_read_without_white_space() {
    assert_eq!(deserialize_duration_opt(None), Ok(None));
    assert_eq!(
        deserialize_duration_opt(Some("\t 2s\n".to_owned())),
        Ok(Some(Duration::from_secs(2)))
    );
    assert_eq!(
        deserialize_duration_opt(Some(" 0s ".to_owned())),
        Ok(Some(Duration::from_secs(0)))
    );
    let expected = humantime::parse_duration("later").unwrap_err().to_string();
    assert_eq!(
        deserialize_duration_opt(Some(" later ".to_owned())),
        Err(expected)
    );
    assert_eq!(
        deserialize_duration_opt(Some(" 18446744073709551615s 1ns ".to_owned())),
        Ok(Some(Duration::new(u64::MAX, 1)))
    );
    assert_eq!(
        deserialize_duration_opt(Some(" 18446744073709551615s 999ms 1ms ".to_owned())),
        Err("duration is out of range".to_owned())
    );
}

#[test]
fn errors_have_texts() {
    let read = ConfigError::ReadConfig {
        path: PathBuf::from("relay.toml"),
        path_text: "relay.toml".to_owned(),
        source: "gone".to_owned(),
    };
    assert_eq!(
        read.to_string(),
        "cannot read configuration file relay.toml: gone"
    );
    assert_eq!(
        ConfigError::ParseConfig("no table".to_owned()).to_string(),
        "invalid TOML configuration: no table"
    );
    assert_eq!(
        ConfigError::invalid("no rule".to_owned()).to_string(),
        "invalid configuration: no rule"
    );
}
