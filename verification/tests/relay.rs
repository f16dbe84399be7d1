use portrelay::config::{ForwardMode, Platform};
use portrelay::duration::Duration;
use portrelay::metrics::RelayMetrics;
use portrelay::relay::{
    after_addresses, after_name, forward_event, forward_with_mode, handle_connection,
    idle_watchdog, socket_options, splice_setup_error, AfterAddresses, Attempt, Backend,
    BufferPool, ConnectionEvent, ConnectionState, CopyDirection, Direction, DirectionStep,
    IdleEvent, IdleStep, PipeError, SocketOption, TargetResolver,
};

fn addresses(attempt: &Attempt<'_, u8>) -> Option<Vec<u8>> {
    match attempt {
        Attempt::ByName(_) => None,
        Attempt::ByAddresses(addresses) => Some(addresses.to_vec()),
    }
}

#[test]
fn resolvers_keep_addresses_where_they_are_refreshed() {
    let mut kept = TargetResolver::new("db:3306", true);
    assert_eq!(kept.address(), "db:3306");
    assert!(matches!(kept.connect(), Attempt::ByName("db:3306")));
    assert_eq!(kept.refresh(vec![1, 2]), 2);
    assert_eq!(addresses(&kept.connect()), Some(vec![1, 2]));
    assert_eq!(kept.refresh(vec![3]), 1);
    assert_eq!(addresses(&kept.connect()), Some(vec![3]));
    assert_eq!(kept.refresh(Vec::new()), 0);
    assert_eq!(addresses(&kept.connect()), None);

    let mut unkept = TargetResolver::new("db:3306", false);
    assert_eq!(unkept.refresh(vec![1_u8, 2]), 2);
    assert_eq!(addresses(&unkept.connect()), None);
}

#[test]
fn failed_addresses_are_tried_by_name() {
    assert!(matches!(
        after_addresses::<u8, &str>(Ok(1)),
        AfterAddresses::Connected(1)
    ));
    assert!(matches!(
        after_addresses::<u8, &str>(Err("refused")),
        AfterAddresses::TryName("refused")
    ));
    assert_eq!(after_name(Some("refused"), Ok(1)), Ok(1));
    assert_eq!(
        after_name::<u8, &str>(Some("refused"), Err("unknown")),
        Err("refused")
    );
    assert_eq!(after_name::<u8, &str>(None, Err("unknown")), Err("unknown"));
}

#[test]
fn pools_hand_out_pairs_within_their_bound() {
    let mut pool = BufferPool::new(3, 4);
    let (mut first, second) = pool.acquire_pair().unwrap();
    let (third, fourth) = pool.acquire_pair().unwrap();
    assert!(pool.acquire_pair().is_none());
    assert_eq!(first.as_mut_slice(), &[0, 0, 0]);
    first.as_mut_slice().copy_from_slice(&[1, 2, 3]);
    assert_eq!(first.filled(2), &[1, 2]);
    assert_eq!(first.filled(0), &[] as &[u8]);
    pool.release(second);
    assert!(pool.acquire_pair().is_none());
    pool.release(first);
    let (mut fifth, sixth) = pool.acquire_pair().unwrap();
    assert_eq!(fifth.as_mut_slice(), &[1, 2, 3]);
    assert_eq!(sixth.filled(3), &[0, 0, 0]);
    pool.release(third);
    pool.release(fourth);
    assert!(pool.acquire_pair().is_some());
}

#[test]
fn sockets_get_their_options_in_order() {
    let keepalive = Duration::from_secs(60);
    assert_eq!(socket_options(None, None), vec![SocketOption::NoDelay]);
    assert_eq!(
        socket_options(Some(keepalive), Some(4_096)),
        vec![
            SocketOption::ReceiveBuffer(4_096),
            SocketOption::SendBuffer(4_096),
            SocketOption::NoDelay,
            SocketOption::KeepAlive(keepalive),
        ]
    );
}

fn run(events: &[ConnectionEvent]) -> String {
    let mut metrics = RelayMetrics::new("r");
    metrics.accepted();
    let mut state = ConnectionState::Connecting;
    for event in events {
        state = handle_connection(state, *event, Duration::from_millis(20), &mut metrics);
    }
    assert_eq!(state, ConnectionState::Closed);
    let mut text = String::new();
    metrics.render(&mut text);
    assert!(text.contains("portrelay_active_connections{relay=\"r\"} 0\n"));
    assert!(text.contains("portrelay_connections_closed_total{relay=\"r\"} 1\n"));
    assert!(text.contains("portrelay_connection_duration_seconds_sum{relay=\"r\"} 0.020000\n"));
    text
}

#[test]
fn connections_close_once_however_they_go() {
    let has = |text: &str, name: &str, value: u64| {
        text.contains(&format!("portrelay_{name}_total{{relay=\"r\"}} {value}\n"))
    };
    let text = run(&[ConnectionEvent::ConnectFailed]);
    assert!(has(&text, "upstream_connect_failures", 1));
    assert!(has(&text, "upstream_connect_timeouts", 0));
    let text = run(&[ConnectionEvent::ConnectTimedOut]);
    assert!(has(&text, "upstream_connect_failures", 0));
    assert!(has(&text, "upstream_connect_timeouts", 1));
    let text = run(&[ConnectionEvent::Forced]);
    assert!(has(&text, "upstream_connect_failures", 0));
    let text = run(&[
        ConnectionEvent::Connected,
        ConnectionEvent::Transferred {
            client_to_upstream: 14,
            upstream_to_client: 9,
        },
    ]);
    assert!(has(&text, "bytes_client_to_upstream", 14));
    assert!(has(&text, "bytes_upstream_to_client", 9));
    let text = run(&[ConnectionEvent::Connected, ConnectionEvent::IdleTimedOut]);
    assert!(has(&text, "idle_timeouts", 1));
    assert!(has(&text, "bytes_client_to_upstream", 0));
    let text = run(&[ConnectionEvent::Connected, ConnectionEvent::ForwardFailed]);
    assert!(has(&text, "idle_timeouts", 0));
    let text = run(&[ConnectionEvent::Connected, ConnectionEvent::Forced]);
    assert!(has(&text, "bytes_upstream_to_client", 0));
}

#[test]
fn transfers_end_in_events() {
    assert_eq!(
        forward_event(Ok((1, 2))),
        ConnectionEvent::Transferred {
            client_to_upstream: 1,
            upstream_to_client: 2
        }
    );
    assert_eq!(forward_event(Err(true)), ConnectionEvent::IdleTimedOut);
    assert_eq!(forward_event(Err(false)), ConnectionEvent::ForwardFailed);
}

#[test]
fn pipes_are_used_where_they_are_asked_for() {
    let linux = Platform::linux();
    let other = Platform {
        unix: true,
        linux: false,
    };
    assert_eq!(forward_with_mode(ForwardMode::Splice, linux), Backend::Splice);
    assert_eq!(forward_with_mode(ForwardMode::Splice, other), Backend::Buffers);
    assert_eq!(forward_with_mode(ForwardMode::Auto, linux), Backend::Buffers);
    assert_eq!(
        forward_with_mode(ForwardMode::parse("tokio").unwrap(), linux),
        Backend::Buffers
    );
}

#[test]
fn directions_count_what_they_give() {
    let mut direction = Direction::start();
    assert_eq!(direction.step, DirectionStep::Take);
    direction.taken(10);
    assert_eq!(direction.step, DirectionStep::Give(10));
    direction.given(4);
    assert_eq!(direction.step, DirectionStep::Give(6));
    assert_eq!(direction.copied, 4);
    direction.given(6);
    assert_eq!(direction.step, DirectionStep::Take);
    assert_eq!(direction.copied, 10);
    direction.taken(0);
    assert_eq!(direction.step, DirectionStep::Finish);
    assert_eq!(direction.copied, 10);

    let mut broken = Direction::start();
    broken.taken(1);
    broken.given(0);
    assert_eq!(broken.step, DirectionStep::Broken);
}

#[test]
fn only_transfers_keep_connections_alive() {
    assert_eq!(idle_watchdog(IdleEvent::Activity), IdleStep::Restart);
    assert_eq!(idle_watchdog(IdleEvent::TimedOut), IdleStep::Expire);
    assert_eq!(idle_watchdog(IdleEvent::Ended), IdleStep::Expire);
}

#[test]
fn pipe_errors_tell_whether_pipes_exist() {
    assert!(splice_setup_error(PipeError::NotImplemented));
    assert!(splice_setup_error(PipeError::InvalidArgument));
    assert!(splice_setup_error(PipeError::NotSupported));
    assert!(!splice_setup_error(PipeError::Other));
}

#[test]
fn copies_deliver_what_they_read() {
    let stream: Vec<u8> = (0_u8..=u8::MAX).cycle().take(1_000).collect();
    for size in [1, 7, 256, 4_096] {
        let mut pool = BufferPool::new(size, 2);
        let (buffer, other) = pool.acquire_pair().unwrap();
        let mut copy = CopyDirection::new(buffer);
        let mut source = stream.as_slice();
        let mut delivered = Vec::new();
        loop {
            match copy.step() {
                DirectionStep::Take => {
                    let count = source.len().min(size);
                    copy.room()[..count].copy_from_slice(&source[..count]);
                    source = &source[count..];
                    copy.taken(count);
                }
                DirectionStep::Give(pending) => {
                    assert_eq!(copy.waiting().len(), pending);
                    delivered.extend_from_slice(copy.waiting());
                    copy.given();
                }
                DirectionStep::Finish => break,
                DirectionStep::Broken => panic!(),
            }
        }
        assert_eq!(delivered, stream);
        assert_eq!(copy.copied(), 1_000);
        assert!(copy.waiting().is_empty());
        pool.release(copy.into_buffer());
        pool.release(other);
        assert!(pool.acquire_pair().is_some());
    }
}
