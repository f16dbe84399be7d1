//! What a relay process does with its listeners, limits and connections, and how it ends.

use vstd::prelude::*;

use crate::config::{Platform, RelayView, SettingsView};
use crate::duration::Duration;
use crate::error::ConfigError;
use crate::metrics::RelayMetricsView;
use crate::relay::{ConnectionEvent, ConnectionState};
use crate::server::{
    BindError, BoundRelay, Gate, Limits, LimitsEvent, ListenerEvent, ListenerOption, ListenerStep, ShutdownEvent,
    ShutdownPhase,
};

verus! {

/// How many of the first `count` listeners could be bound.
pub open spec fn number_bound<A>(listeners: Seq<Option<A>>, count: nat) -> nat
    decreases count,
{
    if count == 0 {
        0
    } else if listeners[count - 1] is Some {
        number_bound(listeners, (count - 1) as nat) + 1
    } else {
        number_bound(listeners, (count - 1) as nat)
    }
}

proof fn lemma_number_bound_all<A>(listeners: Seq<Option<A>>, count: nat)
    requires
        count <= listeners.len(),
        forall|i: int| 0 <= i < count ==> (#[trigger] listeners[i]) is Some,
    ensures
        number_bound(listeners, count) == count,
    decreases count,
{
    if count > 0 {
        lemma_number_bound_all(listeners, (count - 1) as nat);
    }
}

/// The relay with the index `index` has a listener, and `entry` is this relay with its address.
pub open spec fn is_entry_of<A>(
    relays: Seq<RelayView>,
    listeners: Seq<Option<A>>,
    entry: (RelayView, A),
    index: int,
) -> bool {
    listeners[index] is Some && entry == (relays[index], listeners[index]->0)
}

/// The entry at `place` is one of the first `count` relays, with as many that start before it.
pub open spec fn has_source<A>(
    relays: Seq<RelayView>,
    listeners: Seq<Option<A>>,
    count: nat,
    place: int,
) -> bool {
    exists|index: int|
        0 <= index < count && number_bound(listeners, index as nat) == place
            && #[trigger] is_entry_of(
            relays,
            listeners,
            crate::server::bound_relays(relays, listeners, count)[place],
            index,
        )
}

/// Every relay whose listener could be bound starts, once, at its listener's address, and in the
/// order of the settings: its place is the number of relays before it that start. No other relay
/// does.
pub proof fn every_bound_relay_starts<A>(
    relays: Seq<RelayView>,
    listeners: Seq<Option<A>>,
    count: nat,
)
    requires
        relays.len() == listeners.len(),
        count <= relays.len(),
    ensures
        crate::server::bound_relays(relays, listeners, count).len() == number_bound(
            listeners,
            count,
        ),
        forall|i: int|
            0 <= i < count && (#[trigger] listeners[i]) is Some ==> number_bound(
                listeners,
                i as nat,
            ) < number_bound(listeners, count) && crate::server::bound_relays(
                relays,
                listeners,
                count,
            )[number_bound(listeners, i as nat) as int] == (relays[i], listeners[i]->0),
        forall|place: int|
            0 <= place < number_bound(listeners, count) ==> #[trigger] has_source(
                relays,
                listeners,
                count,
                place,
            ),
    decreases count,
{
    let bound = crate::server::bound_relays(relays, listeners, count);
    if count > 0 {
        let last = count - 1;
        let before = crate::server::bound_relays(relays, listeners, last as nat);
        every_bound_relay_starts(relays, listeners, last as nat);
        assert forall|i: int| 0 <= i < count && (#[trigger] listeners[i]) is Some implies {
            let place = number_bound(listeners, i as nat);
            place < bound.len() && bound[place as int] == (relays[i], listeners[i]->0)
        } by {
            if i < last {
                let place = number_bound(listeners, i as nat);
                assert(bound[place as int] == before[place as int]);
            }
        }
        assert forall|place: int| 0 <= place < bound.len() implies #[trigger] has_source(
            relays,
            listeners,
            count,
            place,
        ) by {
            if place < before.len() {
                assert(has_source(relays, listeners, last as nat, place));
                assert(bound[place] == before[place]);
                let i = choose|i: int|
                    0 <= i < last && number_bound(listeners, i as nat) == place
                        && #[trigger] is_entry_of(relays, listeners, before[place], i);
                assert(is_entry_of(relays, listeners, bound[place], i));
            } else {
                assert(is_entry_of(relays, listeners, bound[place], last));
            }
        }
    }
}

/// Where every listener could be bound, every relay starts, at its own place.
pub proof fn all_relays_start_where_all_are_bound<A>(
    relays: Seq<RelayView>,
    listeners: Seq<Option<A>>,
    count: nat,
)
    requires
        relays.len() == listeners.len(),
        count <= relays.len(),
        forall|i: int| 0 <= i < count ==> (#[trigger] listeners[i]) is Some,
    ensures
        crate::server::bound_relays(relays, listeners, count).len() == count,
        forall|i: int|
            0 <= i < count ==> #[trigger] crate::server::bound_relays(
                relays,
                listeners,
                count,
            )[i] == (relays[i], listeners[i]->0),
{
    every_bound_relay_starts(relays, listeners, count);
    lemma_number_bound_all(listeners, count);
    assert forall|i: int| 0 <= i < count implies #[trigger] crate::server::bound_relays(
        relays,
        listeners,
        count,
    )[i] == (relays[i], listeners[i]->0) by {
        assert(listeners[i] is Some);
        lemma_number_bound_all(listeners, i as nat);
    }
}

/// A gate with this limit, of which nothing is in use; none where there is no limit.
pub open spec fn is_open_gate(gate: Option<Gate>, limit: Option<usize>) -> bool {
    match limit {
        None => gate is None,
        Some(limit) => gate == Some(Gate { limit, used: 0 }),
    }
}

/// A relay that starts has the name, target, buffer size and limits of its settings, at the
/// address of its listener. All its counters are zero, nothing of its limits is in use, no
/// buffer of its pool is out, and it resolves its target only where it refreshes it.
pub proof fn relays_start_with_their_settings<A>(
    bound: BoundRelay<A>,
    relay: RelayView,
    local_addr: A,
    buffer_pool_size: usize,
)
    requires
        crate::server::is_relay_start(bound, relay, local_addr, buffer_pool_size),
    ensures
        bound.name@ == relay.name,
        bound.local_addr == local_addr,
        bound.target@.address == relay.target.address,
        relay.dns_refresh is Some ==> (bound.target@.resolved matches Some(known) && known.len()
            == 0),
        relay.dns_refresh is None ==> bound.target@.resolved is None,
        bound.metrics@.name == relay.name,
        bound.metrics@.active_connections == 0,
        bound.metrics@.connections_accepted == 0,
        bound.metrics@.connections_rejected == 0,
        bound.metrics@.connections_closed == 0,
        bound.metrics@.upstream_connect_failures == 0,
        bound.metrics@.upstream_connect_timeouts == 0,
        bound.metrics@.idle_timeouts == 0,
        bound.metrics@.bytes_client_to_upstream == 0,
        bound.metrics@.bytes_upstream_to_client == 0,
        bound.metrics@.connection_duration.count == 0,
        bound.metrics@.upstream_connect_duration.count == 0,
        bound.buffer_pool@.buffer_size == relay.buffer_size,
        bound.buffer_pool@.free.len() == 0,
        bound.buffer_pool@.permits == buffer_pool_size,
        bound.buffer_pool@.capacity == buffer_pool_size,
        is_open_gate(bound.limits.connections, relay.max_connections),
        is_open_gate(bound.limits.connecting, relay.max_connecting),
{
}

/// The relays of a process are those whose listeners could be bound, in the order of the
/// settings, each with its own settings and its own listener.
pub proof fn processes_start_all_bound_relays<A>(
    started: Seq<BoundRelay<A>>,
    relays: Seq<RelayView>,
    listeners: Seq<Option<A>>,
    buffer_pool_size: usize,
    index: int,
)
    requires
        relays.len() == listeners.len(),
        0 <= index < relays.len(),
        listeners[index] is Some,
        crate::server::are_relay_starts(
            started,
            crate::server::bound_relays(relays, listeners, listeners.len()),
            buffer_pool_size,
        ),
    ensures
        ({
            let place = number_bound(listeners, index as nat) as int;
            &&& started.len() == number_bound(listeners, listeners.len())
            &&& place < started.len()
            &&& started[place].name@ == relays[index].name
            &&& started[place].local_addr == listeners[index]->0
            &&& crate::server::is_relay_start(
                started[place],
                relays[index],
                listeners[index]->0,
                buffer_pool_size,
            )
        }),
{
    every_bound_relay_starts(relays, listeners, listeners.len());
}

/// The addresses that a process tells are those of its relays, under their names and in their
/// order.
pub proof fn relays_are_told_by_name<A>(
    relays: Seq<BoundRelay<A>>,
    addresses: Seq<(String, A)>,
    index: int,
)
    requires
        crate::server::address_views(addresses) == crate::server::relay_addresses(relays),
    ensures
        addresses.len() == relays.len(),
        0 <= index < relays.len() ==> addresses[index].0@ == relays[index].name@
            && addresses[index].1 == relays[index].local_addr,
{
    assert(crate::server::address_views(addresses).len() == addresses.len());
    if 0 <= index < relays.len() {
        assert(crate::server::address_views(addresses)[index] == (
            addresses[index].0@,
            addresses[index].1,
        ));
        assert(crate::server::relay_addresses(relays)[index] == (
            relays[index].name@,
            relays[index].local_addr,
        ));
    }
}

/// A limit has room exactly as long as less is in use than it allows; without a limit there is
/// always room. What enters and leaves changes what is in use by one, and never the limit.
pub proof fn gates_count_by_one(gate: Gate)
    ensures
        crate::server::has_room(None),
        crate::server::has_room(Some(gate)) <==> gate.used < gate.limit,
        crate::server::is_within(Some(gate)) <==> gate.used <= gate.limit,
        crate::server::is_held(Some(gate)) <==> gate.used > 0,
        crate::server::entered(None) is None,
        crate::server::left(None) is None,
        gate.used < gate.limit ==> crate::server::entered(Some(gate)) == Some(
            Gate { limit: gate.limit, used: (gate.used + 1) as usize },
        ),
        gate.used > 0 ==> crate::server::left(Some(gate)) == Some(
            Gate { limit: gate.limit, used: (gate.used - 1) as usize },
        ),
        is_open_gate(crate::server::unused(None), None),
        is_open_gate(crate::server::unused(Some(gate.limit)), Some(gate.limit)),
{
}

/// A connection takes one of both limits when it is let in, gives back the one on connecting
/// once its upstream is connected or it ends, and the other when it ends.
pub proof fn connections_hold_their_permits(
    limits: Limits,
    state: ConnectionState,
    event: ConnectionEvent,
)
    requires
        crate::relay::can_happen(state, event),
    ensures
        limits.allow() <==> crate::server::has_room(limits.connections)
            && crate::server::has_room(limits.connecting),
        limits.after_admission().connections == crate::server::entered(limits.connections),
        limits.after_admission().connecting == crate::server::entered(limits.connecting),
        limits.after_event(state, event).connecting == if state == ConnectionState::Connecting {
            crate::server::left(limits.connecting)
        } else {
            limits.connecting
        },
        limits.after_event(state, event).connections == if event == ConnectionEvent::Connected {
            limits.connections
        } else {
            crate::server::left(limits.connections)
        },
{
}

/// Less than the limit, where there is one.
pub open spec fn is_below(number: nat, limit: Option<usize>) -> bool {
    limit matches Some(limit) ==> number < limit
}

/// However many connections share limits, one more is let in exactly where fewer are live, and
/// fewer connecting to their upstream, than the limits say.
pub proof fn connections_are_let_in_below_limits(
    max_connections: Option<usize>,
    max_connecting: Option<usize>,
    events: Seq<LimitsEvent>,
    count: nat,
)
    requires
        crate::server::is_shared_run(
            (Limits {
                connections: crate::server::unused(max_connections),
                connecting: crate::server::unused(max_connecting),
            }),
            events,
            count,
        ),
    ensures
        ({
            let limits = Limits {
                connections: crate::server::unused(max_connections),
                connecting: crate::server::unused(max_connecting),
            };
            let (after, states) = crate::server::shared_after(limits, events, count);
            after.allow() <==> is_below(crate::server::live_count(states), max_connections)
                && is_below(crate::server::connecting_count(states), max_connecting)
        }),
{
    let limits = Limits {
        connections: crate::server::unused(max_connections),
        connecting: crate::server::unused(max_connecting),
    };
    crate::server::lemma_shared_limits(limits, events, count);
}

/// What a listener does on each event: it stops when the process is to end, waits a tenth of a
/// second after a failure, and serves a connection exactly where the limits of the process and of
/// the relay allow one more, under the next number. One of every `sample_rate` numbers is logged.
pub proof fn listeners_serve_what_limits_allow(
    event: ListenerEvent,
    global: Limits,
    relay: Limits,
    next_id: u64,
    sample_rate: usize,
)
    requires
        sample_rate > 0,
    ensures
        ({
            let step = crate::server::listener_step(event, global, relay, next_id, sample_rate);
            let is_new = event == ListenerEvent::Accepted { shutting_down: false };
            let is_allowed = global.allow() && relay.allow();
            &&& step is Stop <==> event == ListenerEvent::Shutdown || event
                == ListenerEvent::Accepted { shutting_down: true }
            &&& step is Wait <==> event == ListenerEvent::AcceptFailed
            &&& step matches ListenerStep::Wait(duration) ==> duration.total_nanos() == 100_000_000
            &&& step is Serve <==> is_new && is_allowed
            &&& step is Reject <==> is_new && !is_allowed
            &&& step matches ListenerStep::Serve { connection_id, log_connection } ==> {
                &&& connection_id == next_id
                &&& log_connection <==> next_id as int % sample_rate as int == 0
            }
        }),
{
    crate::duration::lemma_new_parts(0, 100_000_000);
}

/// A served connection takes one of each limit, is counted as accepted and active, and uses up
/// its number; one that is turned away is counted as rejected; and nothing else changes.
pub proof fn listeners_count_what_they_do(
    metrics: RelayMetricsView,
    limits: Limits,
    next_id: u64,
    step: ListenerStep,
)
    ensures
        ({
            let after = crate::server::metrics_after_step(metrics, step);
            let served = crate::relay_laws::once(step is Serve);
            &&& crate::relay_laws::went_up(
                metrics.active_connections,
                after.active_connections,
                served,
            )
            &&& crate::relay_laws::went_up(
                metrics.connections_accepted,
                after.connections_accepted,
                served,
            )
            &&& crate::relay_laws::went_up(
                metrics.connections_rejected,
                after.connections_rejected,
                crate::relay_laws::once(step is Reject),
            )
            &&& after == (RelayMetricsView {
                active_connections: after.active_connections,
                connections_accepted: after.connections_accepted,
                connections_rejected: after.connections_rejected,
                ..metrics
            })
            &&& crate::relay_laws::went_up(
                next_id,
                crate::server::next_id_after_step(next_id, step),
                served,
            )
            &&& crate::server::limits_after_step(limits, step) == if step is Serve {
                limits.after_admission()
            } else {
                limits
            }
        }),
{
}

/// A connection is logged exactly where its number is a multiple of the sample rate.
pub proof fn sampled_numbers_are_multiples(connection_id: u64, sample_rate: usize)
    requires
        sample_rate > 0,
    ensures
        crate::server::is_sampled(connection_id, sample_rate) <==> exists|times: int|
            connection_id == #[trigger] (times * sample_rate),
{
    let rate = sample_rate as int;
    vstd::arithmetic::div_mod::lemma_fundamental_div_mod(connection_id as int, rate);
    if crate::server::is_sampled(connection_id, sample_rate) {
        let times = connection_id as int / rate;
        assert(connection_id == times * rate) by (nonlinear_arith)
            requires
                connection_id as int == rate * times,
        ;
    }
    if exists|times: int| connection_id == #[trigger] (times * sample_rate) {
        let times = choose|times: int| connection_id == #[trigger] (times * sample_rate);
        vstd::arithmetic::div_mod::lemma_mod_multiples_basic(times, rate);
    }
}

/// A process whose settings break no rule needs permits for each of its limits, and for each
/// relay with a listener also for that relay's limits and its buffers. One whose settings break a
/// rule does not start, and needs none.
pub proof fn permits_are_needed_for_limits<A>(
    settings: SettingsView,
    platform: Platform,
    listeners: Seq<Option<A>>,
)
    ensures
        ({
            let most = usize::MAX / 8;
            let suffice = crate::server::permits_suffice(settings, platform, listeners);
            &&& !crate::config::are_sound_settings(settings, platform) ==> suffice
            &&& crate::config::are_sound_settings(settings, platform) ==> (suffice <==> {
                &&& settings.global_max_connections matches Some(limit) ==> limit <= most
                &&& settings.global_max_connecting matches Some(limit) ==> limit <= most
                &&& forall|i: int|
                    0 <= i < listeners.len() && (#[trigger] listeners[i]) is Some ==> {
                        &&& settings.buffer_pool_size <= most
                        &&& settings.relays[i].max_connections matches Some(limit) ==> limit <= most
                        &&& settings.relays[i].max_connecting matches Some(limit) ==> limit <= most
                    }
            })
        }),
{
    crate::config::valid_settings_are_sound(settings, platform);
}

/// Every listener may take over an address of ended connections; the port is shared exactly
/// where that is asked for and the system can.
pub proof fn listeners_get_their_options(reuse_port: bool, platform: Platform)
    ensures
        ({
            let options = crate::server::listener_option_list(reuse_port, platform);
            &&& options[0] == ListenerOption::ReuseAddress
            &&& options.len() == 1 || options.len() == 2
            &&& options.len() == 2 <==> reuse_port && platform.unix
            &&& options.len() == 2 ==> options[1] == ListenerOption::ReusePort
        }),
{
}

/// A process starts to end only when it is told to, forces connections to end only after the
/// shutdown timeout, and ends when all have ended or a second later. No event leads back.
pub proof fn shutdown_goes_one_way(
    phase: ShutdownPhase,
    event: ShutdownEvent,
    shutdown_timeout: Duration,
)
    ensures
        ({
            let next = crate::server::next_phase(phase, event);
            let is_request = event == ShutdownEvent::Requested;
            &&& phase == ShutdownPhase::Running ==> next == if is_request {
                ShutdownPhase::Draining
            } else {
                ShutdownPhase::Running
            }
            &&& phase == ShutdownPhase::Draining ==> (next == ShutdownPhase::Draining
                <==> is_request) && (next == ShutdownPhase::Forced <==> event
                == ShutdownEvent::TimedOut) && (next == ShutdownPhase::Done <==> event
                == ShutdownEvent::Drained)
            &&& phase == ShutdownPhase::Forced ==> next == if is_request {
                ShutdownPhase::Forced
            } else {
                ShutdownPhase::Done
            }
            &&& phase == ShutdownPhase::Done ==> next == ShutdownPhase::Done
        }),
        crate::server::phase_limit(ShutdownPhase::Running, shutdown_timeout) is None,
        crate::server::phase_limit(ShutdownPhase::Done, shutdown_timeout) is None,
        crate::server::phase_limit(ShutdownPhase::Draining, shutdown_timeout) == Some(
            shutdown_timeout,
        ),
        crate::server::phase_limit(ShutdownPhase::Forced, shutdown_timeout) matches Some(limit)
            && limit.seconds() == 1 && limit.nanos() == 0,
{
    crate::duration::lemma_new_parts(1, 0);
}

/// The texts that say why a process cannot start.
pub proof fn start_errors_have_these_texts(error: ConfigError)
    ensures
        BindError::Settings(error).text() == error.text(),
        BindError::NoListeners.text() == "no relay listeners could be started"@,
{
}

/// The numbers that a process goes by.
pub proof fn numbers_of_a_process()
    ensures
        crate::server::LISTEN_BACKLOG == 65_535,
        crate::server::ACCEPT_ERROR_BACKOFF_MILLIS == 100,
        crate::server::METRICS_REQUEST_TIMEOUT_SECS == 5,
        crate::server::FORCED_SHUTDOWN_SECS == 1,
        crate::relay::MAX_PERMITS == usize::MAX / 8,
        crate::relay::SPLICE_CHUNK_SIZE == 64 * 1_024,
        crate::http::MAX_REQUEST_BYTES == 4 * 1_024,
        crate::config::DEFAULT_CONNECT_TIMEOUT_SECS == 10,
        crate::config::DEFAULT_SHUTDOWN_TIMEOUT_SECS == 30,
        crate::config::DEFAULT_BUFFER_SIZE == 16 * 1_024,
        crate::config::DEFAULT_BUFFER_POOL_SIZE == 8 * 1_024,
        crate::config::DEFAULT_CONNECTION_LOG_SAMPLE_RATE == 100,
{
}

} // verus!
