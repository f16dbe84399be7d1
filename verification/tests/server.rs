use std::path::PathBuf;

use portrelay::config::{Platform, Settings};
use portrelay::duration::Duration;
use portrelay::metrics::RelayMetrics;
use portrelay::relay::{ConnectionEvent, ConnectionState, MAX_PERMITS};
use portrelay::server::{
    abandon_connection, acquire_permit, advance_connection, bind_address, check_certificates, let_in, listener_options,
    metrics_tls_files, permits_fit, run_relay_listener, BindError, ConnectionIds, Gate, Limits,
    ListenerEvent, ListenerOption, ListenerStep, Server, ShutdownEvent, ShutdownPhase,
};

const ACCEPTED: ListenerEvent = ListenerEvent::Accepted {
    shutting_down: false,
};

fn settings() -> Settings {
    let mut settings = Settings::single("127.0.0.1:0", "127.0.0.1:1").unwrap();
    settings.global_max_connections = Some(2);
    settings.relays[0].max_connections = Some(1);
    settings.relays.push(settings.relays[0].clone());
    settings.relays[1].name = "second".to_owned();
    settings
}

#[test]
fn permits_run_out() {
    let mut none = None;
    assert_eq!(acquire_permit(&mut none), Ok(()));
    assert_eq!(none, None);
    let mut gate = Some(Gate { limit: 1, used: 0 });
    assert_eq!(acquire_permit(&mut gate), Ok(()));
    assert_eq!(acquire_permit(&mut gate), Err(()));
    assert_eq!(gate, Some(Gate { limit: 1, used: 1 }));
}

#[test]
fn any_full_limit_turns_a_connection_away() {
    let open = Limits::new(Some(1), Some(1));
    let closed = Limits::new(Some(0), None);
    let busy = Limits::new(None, Some(0));
    for (global, relay) in [(closed, open), (open, closed), (busy, open), (open, busy)] {
        let (mut after_global, mut after_relay) = (global, relay);
        assert!(!let_in(&mut after_global, &mut after_relay));
        assert_eq!(after_global, global);
        assert_eq!(after_relay, relay);
    }
    let (mut global, mut relay) = (open, open);
    assert!(let_in(&mut global, &mut relay));
    assert_eq!(global.connections, Some(Gate { limit: 1, used: 1 }));
    assert_eq!(relay.connecting, Some(Gate { limit: 1, used: 1 }));
}

#[test]
fn limits_hold_without_stopping_the_listener() {
    let mut global = Limits::new(Some(2), None);
    let mut relay = Limits::new(Some(1), Some(1));
    let mut metrics = RelayMetrics::new("r");
    let mut ids = ConnectionIds::new();
    let start = (global, relay);
    let mut accept = |global: &mut Limits, relay: &mut Limits, metrics: &mut RelayMetrics| {
        run_relay_listener(ACCEPTED, global, relay, metrics, &mut ids, 2)
    };
    assert_eq!(
        accept(&mut global, &mut relay, &mut metrics),
        ListenerStep::Serve {
            connection_id: 1,
            log_connection: false
        }
    );
    assert_eq!(
        accept(&mut global, &mut relay, &mut metrics),
        ListenerStep::Reject
    );
    let mut state = ConnectionState::Connecting;
    for event in [
        ConnectionEvent::Connected,
        ConnectionEvent::Transferred {
            client_to_upstream: 1,
            upstream_to_client: 1,
        },
    ] {
        state = advance_connection(
            state,
            event,
            Duration::from_millis(1),
            &mut metrics,
            &mut global,
            &mut relay,
        );
    }
    assert_eq!(state, ConnectionState::Closed);
    assert_eq!((global, relay), start);
    assert_eq!(
        accept(&mut global, &mut relay, &mut metrics),
        ListenerStep::Serve {
            connection_id: 2,
            log_connection: true
        }
    );
    let mut text = String::new();
    metrics.render(&mut text);
    assert!(text.contains("portrelay_connections_accepted_total{relay=\"r\"} 2\n"));
    assert!(text.contains("portrelay_connections_rejected_total{relay=\"r\"} 1\n"));
}

#[test]
fn connected_upstreams_make_room_for_others() {
    let mut global = Limits::new(None, Some(1));
    let mut relay = Limits::new(Some(5), None);
    let mut metrics = RelayMetrics::new("r");
    assert!(let_in(&mut global, &mut relay));
    assert!(!let_in(&mut global, &mut relay));
    let state = advance_connection(
        ConnectionState::Connecting,
        ConnectionEvent::Connected,
        Duration::from_millis(1),
        &mut metrics,
        &mut global,
        &mut relay,
    );
    assert_eq!(state, ConnectionState::Forwarding);
    assert!(let_in(&mut global, &mut relay));
    advance_connection(
        ConnectionState::Connecting,
        ConnectionEvent::ConnectFailed,
        Duration::from_millis(1),
        &mut metrics,
        &mut global,
        &mut relay,
    );
    assert_eq!(relay.connections, Some(Gate { limit: 5, used: 1 }));
    assert_eq!(global.connecting, Some(Gate { limit: 1, used: 0 }));
}

#[test]
fn listeners_stop_and_wait() {
    let mut global = Limits::new(None, None);
    let mut relay = Limits::new(None, None);
    let mut metrics = RelayMetrics::new("r");
    let mut ids = ConnectionIds::new();
    let mut step = |event: ListenerEvent| {
        run_relay_listener(event, &mut global, &mut relay, &mut metrics, &mut ids, 1)
    };
    assert_eq!(
        step(ListenerEvent::AcceptFailed),
        ListenerStep::Wait(Duration::from_millis(100))
    );
    assert_eq!(
        step(ListenerEvent::Accepted {
            shutting_down: true
        }),
        ListenerStep::Stop
    );
    assert_eq!(
        step(ACCEPTED),
        ListenerStep::Serve {
            connection_id: 1,
            log_connection: true
        }
    );
    assert_eq!(step(ListenerEvent::Shutdown), ListenerStep::Stop);
}

#[test]
fn connection_numbers_count_from_one() {
    let mut ids = ConnectionIds::new();
    assert_eq!(ids.next_id(), 1);
    assert_eq!(ids.next_id(), 2);
    assert_eq!(ids.next_id(), 3);
}

#[test]
fn servers_run_with_the_listeners_they_get() {
    let settings = settings();
    let server = Server::bind(&settings, Platform::linux(), &vec![None, Some(7_u16)], Some(9))
        .unwrap_or_else(|error| panic!("{}", error.to_string()));
    assert_eq!(server.listener_addrs(), vec![("second".to_owned(), 7)]);
    assert_eq!(server.metrics_addr(), Some(9));
    assert_eq!(server.limits, Limits::new(Some(2), None));
    assert_eq!(server.relays[0].limits, Limits::new(Some(1), None));
    assert_eq!(server.relays[0].metrics.name(), "second");
    assert_eq!(server.relays[0].target.address(), "127.0.0.1:1");
    assert_eq!(server.shutdown_timeout, Duration::from_secs(30));
}

#[test]
fn servers_need_a_listener_and_valid_settings() {
    let mut settings = settings();
    let unbound: Vec<Option<u16>> = vec![None, None];
    match Server::bind(&settings, Platform::linux(), &unbound, None) {
        Err(error @ BindError::NoListeners) => {
            assert_eq!(error.to_string(), "no relay listeners could be started");
        }
        _ => panic!(),
    }
    settings.buffer_pool_size = 1;
    match Server::bind(&settings, Platform::linux(), &vec![Some(1), Some(2)], None) {
        Err(error @ BindError::Settings(_)) => assert_eq!(
            error.to_string(),
            "invalid configuration: buffer_pool_size must be an even number of at least 2"
        ),
        _ => panic!(),
    }
}

#[test]
fn limits_have_a_largest_value() {
    let mut settings = settings();
    let bound = vec![Some(1_u16), Some(2)];
    let fit = |settings: &Settings, listeners: &Vec<Option<u16>>| {
        permits_fit(settings, Platform::linux(), listeners)
    };
    assert!(fit(&settings, &bound));
    settings.relays[1].max_connecting = Some(MAX_PERMITS);
    assert!(fit(&settings, &bound));
    settings.relays[1].max_connecting = Some(MAX_PERMITS + 1);
    assert!(!fit(&settings, &bound));
    let first_only = vec![Some(1), None];
    assert!(fit(&settings, &first_only));
    assert!(Server::bind(&settings, Platform::linux(), &first_only, None).is_ok());
    settings.global_max_connections = Some(MAX_PERMITS + 1);
    assert!(!fit(&settings, &vec![None, None]));
    settings.connection_log_sample_rate = 0;
    assert!(fit(&settings, &bound));
    assert!(matches!(
        Server::bind(&settings, Platform::linux(), &bound, None),
        Err(BindError::Settings(_))
    ));
    assert_eq!(MAX_PERMITS, tokio::sync::Semaphore::MAX_PERMITS);
}

#[test]
fn shared_limits_count_live_connections() {
    let mut global = Limits::new(Some(3), Some(2));
    let mut relay = Limits::new(None, None);
    let mut metrics = RelayMetrics::new("r");
    let start = global;
    let used = |limits: &Limits| {
        (
            limits.connections.unwrap().used,
            limits.connecting.unwrap().used,
        )
    };
    assert!(let_in(&mut global, &mut relay));
    assert!(let_in(&mut global, &mut relay));
    assert!(!let_in(&mut global, &mut relay));
    assert_eq!(used(&global), (2, 2));
    let mut go = |state, event, global: &mut Limits| {
        advance_connection(
            state,
            event,
            Duration::from_millis(1),
            &mut metrics,
            global,
            &mut Limits::new(None, None),
        )
    };
    let first = go(
        ConnectionState::Connecting,
        ConnectionEvent::Connected,
        &mut global,
    );
    assert_eq!(used(&global), (2, 1));
    assert!(let_in(&mut global, &mut relay));
    assert_eq!(used(&global), (3, 2));
    go(first, ConnectionEvent::IdleTimedOut, &mut global);
    assert_eq!(used(&global), (2, 2));
    go(
        ConnectionState::Connecting,
        ConnectionEvent::ConnectTimedOut,
        &mut global,
    );
    assert_eq!(used(&global), (1, 1));
    abandon_connection(ConnectionState::Connecting, &mut global, &mut relay);
    assert_eq!(global, start);
}

#[test]
fn listener_sockets_share_ports_on_unix() {
    let unix = Platform::linux();
    let other = Platform {
        unix: false,
        linux: false,
    };
    let shared = vec![ListenerOption::ReuseAddress, ListenerOption::ReusePort];
    assert_eq!(listener_options(true, unix), shared);
    assert_eq!(listener_options(false, unix), vec![ListenerOption::ReuseAddress]);
    assert_eq!(listener_options(true, other), vec![ListenerOption::ReuseAddress]);
}

#[test]
fn listeners_bind_the_first_address() {
    assert_eq!(bind_address(&vec![3, 4], "x:1"), Ok(3));
    assert_eq!(
        bind_address::<u8>(&Vec::new(), "x:1"),
        Err("no socket address resolved for x:1".to_owned())
    );
}

#[test]
fn tls_needs_both_files_and_a_certificate() {
    let cert = Some(PathBuf::from("cert.pem"));
    let key = Some(PathBuf::from("key.pem"));
    assert_eq!(
        metrics_tls_files(&cert, &key),
        Some((cert.as_ref().unwrap(), key.as_ref().unwrap()))
    );
    assert_eq!(metrics_tls_files(&cert, &None), None);
    assert_eq!(metrics_tls_files(&None, &key), None);
    assert_eq!(check_certificates(1), Ok(()));
    assert_eq!(
        check_certificates(0),
        Err("metrics TLS certificate file contains no certificates".to_owned())
    );
}

#[test]
fn shutdown_takes_its_timeout_and_a_second() {
    let timeout = Duration::from_millis(100);
    let phase = ShutdownPhase::Running;
    assert_eq!(phase.limit(timeout), None);
    let phase = phase.after(ShutdownEvent::Requested);
    assert_eq!(phase, ShutdownPhase::Draining);
    assert_eq!(phase.limit(timeout), Some(timeout));
    assert_eq!(phase.after(ShutdownEvent::Drained), ShutdownPhase::Done);
    let phase = phase.after(ShutdownEvent::TimedOut);
    assert_eq!(phase, ShutdownPhase::Forced);
    assert_eq!(phase.limit(timeout), Some(Duration::from_secs(1)));
    assert_eq!(phase.after(ShutdownEvent::TimedOut), ShutdownPhase::Done);
    assert_eq!(phase.after(ShutdownEvent::Drained), ShutdownPhase::Done);
}

#[test]
fn one_connection_in_seven_is_logged() {
    let mut global = Limits::new(None, None);
    let mut relay = Limits::new(None, None);
    let mut metrics = RelayMetrics::new("r");
    let mut ids = ConnectionIds::new();
    let mut logged = Vec::new();
    for _ in 0..21 {
        let step =
            run_relay_listener(ACCEPTED, &mut global, &mut relay, &mut metrics, &mut ids, 7);
        if let ListenerStep::Serve {
            connection_id,
            log_connection: true,
        } = step
        {
            logged.push(connection_id);
        }
    }
    assert_eq!(logged, vec![7, 14, 21]);
}
