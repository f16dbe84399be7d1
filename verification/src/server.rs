//! The decisions of a relay process: which connections are let in, how they are numbered, what
//! is set up for each relay, and how the process ends.

use std::path::PathBuf;

use vstd::prelude::*;

use crate::config::{Platform, RelaySpec, Settings};
use crate::duration::Duration;
use crate::error::ConfigError;
use crate::metrics::RelayMetrics;
use crate::relay::{
    handle_connection, BufferPool, ConnectionEvent, ConnectionState, TargetResolver, MAX_PERMITS,
};

verus! {

/// How many connections may wait to be accepted.
pub const LISTEN_BACKLOG: i32 = 65_535;

/// Milliseconds to wait after a connection could not be accepted.
pub const ACCEPT_ERROR_BACKOFF_MILLIS: u64 = 100;

/// Seconds that a metrics request may take to arrive, and a TLS handshake to complete.
pub const METRICS_REQUEST_TIMEOUT_SECS: u64 = 5;

/// Seconds that connections get to end once they are told to.
pub const FORCED_SHUTDOWN_SECS: u64 = 1;

/// A limit, and how much of it is in use.
#[derive(Clone, Copy, Debug, PartialEq, Eq, Structural)]
pub struct Gate {
    pub limit: usize,
    pub used: usize,
}

/// No more is in use than the limit allows.
pub open spec fn is_within(gate: Option<Gate>) -> bool {
    gate matches Some(gate) ==> gate.used <= gate.limit
}

/// One more is allowed.
pub open spec fn has_room(gate: Option<Gate>) -> bool {
    gate matches Some(gate) ==> gate.used < gate.limit
}

/// Something is in use.
pub open spec fn is_held(gate: Option<Gate>) -> bool {
    gate matches Some(gate) ==> gate.used > 0
}

/// One more is in use.
pub open spec fn entered(gate: Option<Gate>) -> Option<Gate> {
    match gate {
        Some(gate) => Some(Gate { limit: gate.limit, used: (gate.used + 1) as usize }),
        None => None,
    }
}

/// One less is in use.
pub open spec fn left(gate: Option<Gate>) -> Option<Gate> {
    match gate {
        Some(gate) => Some(Gate { limit: gate.limit, used: (gate.used - 1) as usize }),
        None => None,
    }
}

/// Takes one of what the limit allows. Without a limit there is always one.
pub fn acquire_permit(gate: &mut Option<Gate>) -> (result: Result<(), ()>)
    ensures
        result is Ok <==> has_room(*old(gate)),
        result is Ok ==> *final(gate) == entered(*old(gate)),
        result is Err ==> *final(gate) == *old(gate),
{
    match *gate {
        None => Ok(()),
        Some(open) => {
            if open.used < open.limit {
                *gate = Some(Gate { limit: open.limit, used: open.used + 1 });
                Ok(())
            } else {
                Err(())
            }
        },
    }
}

fn release_permit(gate: &mut Option<Gate>)
    requires
        is_held(*old(gate)),
    ensures
        *final(gate) == left(*old(gate)),
{
    if let Some(open) = *gate {
        *gate = Some(Gate { limit: open.limit, used: open.used - 1 });
    }
}

/// The limits of a relay, or of the whole process: on connections, and on those whose upstream
/// is still being connected to.
#[derive(Clone, Copy, Debug, PartialEq, Eq, Structural)]
pub struct Limits {
    pub connections: Option<Gate>,
    pub connecting: Option<Gate>,
}

/// An optional limit of which nothing is in use.
pub open spec fn unused(limit: Option<usize>) -> Option<Gate> {
    match limit {
        Some(limit) => Some(Gate { limit, used: 0 }),
        None => None,
    }
}

fn unused_gate(limit: Option<usize>) -> (result: Option<Gate>)
    ensures
        result == unused(limit),
{
    match limit {
        Some(limit) => Some(Gate { limit, used: 0 }),
        None => None,
    }
}

impl Limits {
    /// No more is in use than the limits allow.
    pub open spec fn wf(self) -> bool {
        is_within(self.connections) && is_within(self.connecting)
    }

    /// One more connection is allowed.
    pub open spec fn allow(self) -> bool {
        has_room(self.connections) && has_room(self.connecting)
    }

    /// The limits with one more connection, whose upstream is being connected to.
    pub open spec fn after_admission(self) -> Limits {
        Limits { connections: entered(self.connections), connecting: entered(self.connecting) }
    }

    /// The limits after an upstream was connected to, or not.
    pub open spec fn after_connecting(self) -> Limits {
        Limits { connections: self.connections, connecting: left(self.connecting) }
    }

    /// The limits after a connection ended.
    pub open spec fn after_end(self) -> Limits {
        Limits { connections: left(self.connections), connecting: self.connecting }
    }

    /// The limits after an event in the state `state` of one of the connections.
    pub open spec fn after_event(self, state: ConnectionState, event: ConnectionEvent) -> Limits {
        if event == ConnectionEvent::Connected {
            self.after_connecting()
        } else if state == ConnectionState::Connecting {
            self.after_connecting().after_end()
        } else {
            self.after_end()
        }
    }

    /// The limits know of a connection in the state `state`.
    pub open spec fn hold(self, state: ConnectionState) -> bool {
        &&& state != ConnectionState::Closed ==> is_held(self.connections)
        &&& state == ConnectionState::Connecting ==> is_held(self.connecting)
    }

    /// The given limits, of which nothing is in use.
    pub fn new(max_connections: Option<usize>, max_connecting: Option<usize>) -> (result: Limits)
        ensures
            result == (Limits {
                connections: unused(max_connections),
                connecting: unused(max_connecting),
            }),
            result.wf(),
    {
        Limits {
            connections: unused_gate(max_connections),
            connecting: unused_gate(max_connecting),
        }
    }
}

/// Lets a connection in where the limits of the process and of the relay all allow one more,
/// and leaves them as they are otherwise.
pub fn let_in(global: &mut Limits, relay: &mut Limits) -> (result: bool)
    ensures
        result == (old(global).allow() && old(relay).allow()),
        *final(global) == if result {
            old(global).after_admission()
        } else {
            *old(global)
        },
        *final(relay) == if result {
            old(relay).after_admission()
        } else {
            *old(relay)
        },
{
    if acquire_permit(&mut global.connections).is_err() {
        return false;
    }
    if acquire_permit(&mut relay.connections).is_err() {
        release_permit(&mut global.connections);
        return false;
    }
    if acquire_permit(&mut global.connecting).is_err() {
        release_permit(&mut relay.connections);
        release_permit(&mut global.connections);
        return false;
    }
    if acquire_permit(&mut relay.connecting).is_err() {
        release_permit(&mut global.connecting);
        release_permit(&mut relay.connections);
        release_permit(&mut global.connections);
        return false;
    }
    true
}

fn release_after(limits: &mut Limits, state: ConnectionState, event: ConnectionEvent)
    requires
        old(limits).hold(state),
        crate::relay::can_happen(state, event),
    ensures
        *final(limits) == old(limits).after_event(state, event),
{
    if state == ConnectionState::Connecting {
        release_permit(&mut limits.connecting);
    }
    if event != ConnectionEvent::Connected {
        release_permit(&mut limits.connections);
    }
}

/// Goes on with a connection that was let in: counts what happened, and gives back what it no
/// longer needs of the limits.
pub fn advance_connection(
    state: ConnectionState,
    event: ConnectionEvent,
    elapsed: Duration,
    metrics: &mut RelayMetrics,
    global: &mut Limits,
    relay: &mut Limits,
) -> (result: ConnectionState)
    requires
        crate::relay::can_happen(state, event),
        old(global).hold(state),
        old(relay).hold(state),
    ensures
        result == crate::relay::next_state(event),
        final(metrics)@ == crate::relay::metrics_after(old(metrics)@, event, elapsed),
        *final(global) == old(global).after_event(state, event),
        *final(relay) == old(relay).after_event(state, event),
{
    release_after(global, state, event);
    release_after(relay, state, event);
    handle_connection(state, event, elapsed, metrics)
}

/// The limits after the first `count` events of a connection.
pub open spec fn limits_after(limits: Limits, events: Seq<ConnectionEvent>, count: nat) -> Limits
    decreases count,
{
    if count == 0 {
        limits
    } else {
        limits_after(limits, events, (count - 1) as nat).after_event(
            crate::relay::state_after(events, (count - 1) as nat),
            events[count - 1],
        )
    }
}

/// However a connection goes that was let in, at its end the limits are what they were before
/// it, and on the way never more is in use than they allow.
pub proof fn connections_give_back_permits(limits: Limits, events: Seq<ConnectionEvent>)
    requires
        limits.wf(),
        limits.allow(),
        crate::relay::is_whole_run(events),
    ensures
        limits.after_admission().wf(),
        limits.after_admission().hold(ConnectionState::Connecting),
        forall|count: nat|
            count <= events.len() ==> #[trigger] limits_after(
                limits.after_admission(),
                events,
                count,
            ).wf(),
        limits_after(limits.after_admission(), events, events.len()) == limits,
{
    let start = limits.after_admission();
    assert(events.len() > 0);
    assert(crate::relay::can_happen(crate::relay::state_after(events, 0), events[0]));
    assert(limits_after(start, events, 0) == start);
    assert(limits_after(start, events, 1) == start.after_event(
        ConnectionState::Connecting,
        events[0],
    ));
    if events.len() > 1 {
        assert(crate::relay::can_happen(crate::relay::state_after(events, 1), events[1]));
        assert(limits_after(start, events, 2) == limits_after(start, events, 1).after_event(
            ConnectionState::Forwarding,
            events[1],
        ));
        if events.len() > 2 {
            assert(crate::relay::can_happen(crate::relay::state_after(events, 2), events[2]));
        }
    }
    assert forall|count: nat| count <= events.len() implies #[trigger] limits_after(
        start,
        events,
        count,
    ).wf() by {
        assert(count == 0 || count == 1 || count == 2);
    }
}

/// What happens to the connections that a limit counts.
pub enum LimitsEvent {
    /// One more was let in.
    LetIn,
    /// Something happened to one of those that were let in, by its place among them.
    Happened(int, ConnectionEvent),
}

/// Limits of which nothing is in use, after the first `count` of `events`, and how far each of
/// the connections is then.
pub open spec fn shared_after(limits: Limits, events: Seq<LimitsEvent>, count: nat) -> (
    Limits,
    Seq<ConnectionState>,
)
    decreases count,
{
    if count == 0 {
        (limits, Seq::empty())
    } else {
        let (before, states) = shared_after(limits, events, (count - 1) as nat);
        match events[count - 1] {
            LimitsEvent::LetIn => (
                before.after_admission(),
                states.push(ConnectionState::Connecting),
            ),
            LimitsEvent::Happened(place, event) => (
                before.after_event(states[place], event),
                states.update(place, crate::relay::next_state(event)),
            ),
        }
    }
}

/// The first `count` of `events` can happen: a connection is let in only where the limits allow
/// one more, and to each happens what can happen to it.
pub open spec fn is_shared_run(limits: Limits, events: Seq<LimitsEvent>, count: nat) -> bool
    decreases count,
{
    count > 0 ==> {
        let (before, states) = shared_after(limits, events, (count - 1) as nat);
        &&& is_shared_run(limits, events, (count - 1) as nat)
        &&& match events[count - 1] {
            LimitsEvent::LetIn => before.allow(),
            LimitsEvent::Happened(place, event) => 0 <= place < states.len()
                && crate::relay::can_happen(states[place], event),
        }
    }
}

/// How many connections have not ended.
pub open spec fn live_count(states: Seq<ConnectionState>) -> nat
    decreases states.len(),
{
    if states.len() == 0 {
        0
    } else {
        live_count(states.drop_last()) + if states.last() != ConnectionState::Closed {
            1nat
        } else {
            0nat
        }
    }
}

/// How many connections are connecting to their upstream.
pub open spec fn connecting_count(states: Seq<ConnectionState>) -> nat
    decreases states.len(),
{
    if states.len() == 0 {
        0
    } else {
        connecting_count(states.drop_last()) + if states.last() == ConnectionState::Connecting {
            1nat
        } else {
            0nat
        }
    }
}

proof fn lemma_counts_push(states: Seq<ConnectionState>, state: ConnectionState)
    ensures
        live_count(states.push(state)) == live_count(states) + if state
            != ConnectionState::Closed {
            1int
        } else {
            0int
        },
        connecting_count(states.push(state)) == connecting_count(states) + if state
            == ConnectionState::Connecting {
            1int
        } else {
            0int
        },
{
    assert(states.push(state).drop_last() =~= states);
}

proof fn lemma_counts_update(states: Seq<ConnectionState>, place: int, state: ConnectionState)
    requires
        0 <= place < states.len(),
    ensures
        live_count(states.update(place, state)) == live_count(states) - (if states[place]
            != ConnectionState::Closed {
            1int
        } else {
            0int
        }) + (if state != ConnectionState::Closed {
            1int
        } else {
            0int
        }),
        connecting_count(states.update(place, state)) == connecting_count(states) - (if states[place]
            == ConnectionState::Connecting {
            1int
        } else {
            0int
        }) + (if state == ConnectionState::Connecting {
            1int
        } else {
            0int
        }),
    decreases states.len(),
{
    if place < states.len() - 1 {
        lemma_counts_update(states.drop_last(), place, state);
        assert(states.update(place, state).drop_last() =~= states.drop_last().update(place, state));
    } else {
        assert(states.update(place, state).drop_last() =~= states.drop_last());
    }
}

proof fn lemma_counts_member(states: Seq<ConnectionState>, place: int)
    requires
        0 <= place < states.len(),
    ensures
        states[place] != ConnectionState::Closed ==> live_count(states) > 0,
        states[place] == ConnectionState::Connecting ==> connecting_count(states) > 0,
    decreases states.len(),
{
    if place < states.len() - 1 {
        lemma_counts_member(states.drop_last(), place);
    }
}

proof fn lemma_counts_closed(states: Seq<ConnectionState>)
    requires
        forall|i: int| 0 <= i < states.len() ==> states[i] == ConnectionState::Closed,
    ensures
        live_count(states) == 0,
        connecting_count(states) == 0,
    decreases states.len(),
{
    if states.len() > 0 {
        lemma_counts_closed(states.drop_last());
    }
}

/// This many are in use, where there is a limit.
pub open spec fn counts(gate: Option<Gate>, number: nat) -> bool {
    gate matches Some(gate) ==> gate.used == number
}

pub(crate) proof fn lemma_shared_limits(limits: Limits, events: Seq<LimitsEvent>, count: nat)
    requires
        counts(limits.connections, 0),
        counts(limits.connecting, 0),
        is_shared_run(limits, events, count),
    ensures
        ({
            let (after, states) = shared_after(limits, events, count);
            &&& after.wf()
            &&& counts(after.connections, live_count(states))
            &&& counts(after.connecting, connecting_count(states))
            &&& (after.connections is Some <==> limits.connections is Some)
            &&& (after.connecting is Some <==> limits.connecting is Some)
            &&& after.connections is Some ==> after.connections->0.limit
                == limits.connections->0.limit
            &&& after.connecting is Some ==> after.connecting->0.limit
                == limits.connecting->0.limit
        }),
    decreases count,
{
    if count > 0 {
        lemma_shared_limits(limits, events, (count - 1) as nat);
        let (before, states) = shared_after(limits, events, (count - 1) as nat);
        match events[count - 1] {
            LimitsEvent::LetIn => {
                lemma_counts_push(states, ConnectionState::Connecting);
            },
            LimitsEvent::Happened(place, event) => {
                lemma_counts_update(states, place, crate::relay::next_state(event));
                lemma_counts_member(states, place);
            },
        }
    }
}

/// However many connections share limits, and in whatever order things happen to them: as much
/// is in use as connections are live, or connecting to their upstream, and never more than the
/// limits allow. So the limits hold for every connection until it ends, whatever the others do,
/// and when all have ended, nothing is in use.
pub proof fn shared_limits_count_connections(
    limits: Limits,
    events: Seq<LimitsEvent>,
    count: nat,
)
    requires
        counts(limits.connections, 0),
        counts(limits.connecting, 0),
        is_shared_run(limits, events, count),
    ensures
        ({
            let (after, states) = shared_after(limits, events, count);
            &&& after.wf()
            &&& counts(after.connections, live_count(states))
            &&& counts(after.connecting, connecting_count(states))
            &&& forall|place: int|
                0 <= place < states.len() ==> after.hold(#[trigger] states[place])
            &&& (forall|place: int|
                0 <= place < states.len() ==> #[trigger] states[place] == ConnectionState::Closed)
                ==> after == limits
        }),
{
    lemma_shared_limits(limits, events, count);
    let (after, states) = shared_after(limits, events, count);
    assert forall|place: int| 0 <= place < states.len() implies after.hold(
        #[trigger] states[place],
    ) by {
        lemma_counts_member(states, place);
    }
    if forall|place: int|
        0 <= place < states.len() ==> #[trigger] states[place] == ConnectionState::Closed {
        lemma_counts_closed(states);
    }
}

/// Gives back what a connection that was let in holds of the limits, where it ends without
/// being counted.
pub fn abandon_connection(state: ConnectionState, global: &mut Limits, relay: &mut Limits)
    requires
        state != ConnectionState::Closed,
        old(global).hold(state),
        old(relay).hold(state),
    ensures
        *final(global) == old(global).after_event(state, ConnectionEvent::Forced),
        *final(relay) == old(relay).after_event(state, ConnectionEvent::Forced),
{
    release_after(global, state, ConnectionEvent::Forced);
    release_after(relay, state, ConnectionEvent::Forced);
}

/// Numbers connections.
#[derive(Debug)]
pub struct ConnectionIds {
    next: u64,
}

impl View for ConnectionIds {
    type V = u64;

    closed spec fn view(&self) -> u64 {
        self.next
    }
}

impl ConnectionIds {
    /// The numbers from one on.
    pub fn new() -> (result: ConnectionIds)
        ensures
            result@ == 1,
    {
        ConnectionIds { next: 1 }
    }

    /// The next number. They start over beyond the last one of 64 bits.
    pub fn next_id(&mut self) -> (result: u64)
        ensures
            result == old(self)@,
            final(self)@ == crate::metrics::counted(old(self)@, 1),
    {
        let id: u64 = self.next;
        self.next = id.wrapping_add(1);
        id
    }
}

/// Whether a connection is logged where one of every `sample_rate` is.
pub open spec fn is_sampled(connection_id: u64, sample_rate: usize) -> bool {
    connection_id as int % sample_rate as int == 0
}

/// Of `sample_rate` connections in a row, one is logged, and only one.
pub proof fn one_connection_in_a_row_is_sampled(first: u64, sample_rate: usize)
    requires
        sample_rate > 0,
        first + sample_rate - 1 <= u64::MAX,
    ensures
        exists|id: u64| first <= id < first + sample_rate && is_sampled(id, sample_rate),
        forall|id: u64, other: u64|
            first <= id < first + sample_rate && first <= other < first + sample_rate
                && #[trigger] is_sampled(id, sample_rate) && #[trigger] is_sampled(
                other,
                sample_rate,
            ) ==> id == other,
{
    let rate = sample_rate as int;
    let past = first as int % rate;
    let id = if past == 0 {
        first as int
    } else {
        first - past + rate
    };
    vstd::arithmetic::div_mod::lemma_fundamental_div_mod(first as int, rate);
    assert(id % rate == 0) by (nonlinear_arith)
        requires
            rate > 0,
            first == rate * (first as int / rate) + past,
            id == first - past || id == first - past + rate,
    ;
    assert(is_sampled(id as u64, sample_rate));
    assert forall|id: u64, other: u64|
        first <= id < first + sample_rate && first <= other < first + sample_rate
            && #[trigger] is_sampled(id, sample_rate) && #[trigger] is_sampled(
            other,
            sample_rate,
        ) implies id == other by {
        vstd::arithmetic::div_mod::lemma_fundamental_div_mod(id as int, rate);
        vstd::arithmetic::div_mod::lemma_fundamental_div_mod(other as int, rate);
        let distance = id as int / rate - other as int / rate;
        assert(distance == 0) by (nonlinear_arith)
            requires
                rate > 0,
                id == rate * (id as int / rate),
                other == rate * (other as int / rate),
                distance == id as int / rate - other as int / rate,
                -rate < id - other < rate,
        ;
    }
}

fn logs_connection(connection_id: u64, sample_rate: usize) -> (result: bool)
    requires
        sample_rate > 0,
    ensures
        result == is_sampled(connection_id, sample_rate),
{
    sample_rate == 1 || connection_id % sample_rate as u64 == 0
}

/// What happens at a relay's listener.
#[derive(Clone, Copy, Debug, PartialEq, Eq, Structural)]
pub enum ListenerEvent {
    /// The process is to end.
    Shutdown,
    /// No connection could be accepted.
    AcceptFailed,
    /// A connection was accepted, maybe while the process was told to end.
    Accepted {
        shutting_down: bool,
    },
}

/// What a relay's listener does next.
#[derive(Clone, Copy, Debug, PartialEq, Eq, Structural)]
pub enum ListenerStep {
    /// Stops, and drops the connection, if any.
    Stop,
    /// Waits before it accepts again.
    Wait(Duration),
    /// Drops the connection, and accepts again.
    Reject,
    /// Serves the connection, and accepts again.
    Serve {
        connection_id: u64,
        log_connection: bool,
    },
}

/// What a relay's listener does after an event.
pub open spec fn listener_step(
    event: ListenerEvent,
    global: Limits,
    relay: Limits,
    next_id: u64,
    sample_rate: usize,
) -> ListenerStep {
    match event {
        ListenerEvent::Shutdown => ListenerStep::Stop,
        ListenerEvent::AcceptFailed => ListenerStep::Wait(
            Duration::spec_new(0, (ACCEPT_ERROR_BACKOFF_MILLIS * 1_000_000) as u32),
        ),
        ListenerEvent::Accepted { shutting_down } => if shutting_down {
            ListenerStep::Stop
        } else if global.allow() && relay.allow() {
            ListenerStep::Serve {
                connection_id: next_id,
                log_connection: is_sampled(next_id, sample_rate),
            }
        } else {
            ListenerStep::Reject
        },
    }
}

/// Limits after a step of a listener.
pub open spec fn limits_after_step(limits: Limits, step: ListenerStep) -> Limits {
    if step is Serve {
        limits.after_admission()
    } else {
        limits
    }
}

/// The counters of a relay after a step of its listener.
pub open spec fn metrics_after_step(
    metrics: crate::metrics::RelayMetricsView,
    step: ListenerStep,
) -> crate::metrics::RelayMetricsView {
    if step is Serve {
        metrics.after_accepted()
    } else if step is Reject {
        metrics.after_rejected()
    } else {
        metrics
    }
}

/// The number of the next connection after a step of a listener.
pub open spec fn next_id_after_step(next_id: u64, step: ListenerStep) -> u64 {
    if step is Serve {
        crate::metrics::counted(next_id, 1)
    } else {
        next_id
    }
}

/// Goes on with a relay's listener: lets a connection in or turns it away, counts which of the
/// two it was, and numbers the connections that are let in.
pub fn run_relay_listener(
    event: ListenerEvent,
    global: &mut Limits,
    relay: &mut Limits,
    metrics: &mut RelayMetrics,
    ids: &mut ConnectionIds,
    sample_rate: usize,
) -> (result: ListenerStep)
    requires
        sample_rate > 0,
    ensures
        result == listener_step(event, *old(global), *old(relay), old(ids)@, sample_rate),
        *final(global) == limits_after_step(*old(global), result),
        *final(relay) == limits_after_step(*old(relay), result),
        final(metrics)@ == metrics_after_step(old(metrics)@, result),
        final(ids)@ == next_id_after_step(old(ids)@, result),
{
    match event {
        ListenerEvent::Shutdown => ListenerStep::Stop,
        ListenerEvent::AcceptFailed => ListenerStep::Wait(
            Duration::from_millis(ACCEPT_ERROR_BACKOFF_MILLIS),
        ),
        ListenerEvent::Accepted { shutting_down } => {
            if shutting_down {
                return ListenerStep::Stop;
            }
            if !let_in(global, relay) {
                metrics.rejected();
                return ListenerStep::Reject;
            }
            let connection_id = ids.next_id();
            metrics.accepted();
            ListenerStep::Serve {
                connection_id,
                log_connection: logs_connection(connection_id, sample_rate),
            }
        },
    }
}

/// A limit that permits can be made for.
pub open spec fn is_permit_limit(limit: Option<usize>) -> bool {
    limit matches Some(limit) ==> limit <= MAX_PERMITS
}

/// Permits can be made for all limits of a relay.
pub open spec fn relay_fits(relay: crate::config::RelayView) -> bool {
    is_permit_limit(relay.max_connections) && is_permit_limit(relay.max_connecting)
}

/// Permits can be made for all limits that a process with these settings and listeners has. A
/// process that does not start has none, and a relay without a listener has none.
pub open spec fn permits_suffice<A>(
    settings: crate::config::SettingsView,
    platform: Platform,
    listeners: Seq<Option<A>>,
) -> bool {
    crate::config::settings_error(settings, platform) is None ==> {
        &&& is_permit_limit(settings.global_max_connections)
        &&& is_permit_limit(settings.global_max_connecting)
        &&& forall|i: int|
            0 <= i < listeners.len() && (#[trigger] listeners[i]) is Some ==> relay_fits(
                settings.relays[i],
            ) && settings.buffer_pool_size <= MAX_PERMITS
    }
}

fn limit_fits(limit: Option<usize>) -> (result: bool)
    ensures
        result == is_permit_limit(limit),
{
    match limit {
        Some(limit) => limit <= MAX_PERMITS,
        None => true,
    }
}

/// Whether permits can be made for all limits that a process with these settings and listeners
/// has.
pub fn permits_fit<A>(
    settings: &Settings,
    platform: Platform,
    listeners: &Vec<Option<A>>,
) -> (result: bool)
    requires
        listeners@.len() == settings@.relays.len(),
    ensures
        result == permits_suffice(settings@, platform, listeners@),
{
    if settings.validate(platform).is_err() {
        return true;
    }
    if !limit_fits(settings.global_max_connections) || !limit_fits(settings.global_max_connecting) {
        return false;
    }
    let mut index: usize = 0;
    while index < listeners.len()
        invariant
            index <= listeners@.len(),
            listeners@.len() == settings@.relays.len(),
            settings@.relays.len() == settings.relays@.len(),
            crate::config::settings_error(settings@, platform) is None,
            forall|i: int|
                0 <= i < index && (#[trigger] listeners@[i]) is Some ==> relay_fits(
                    settings@.relays[i],
                ) && settings.buffer_pool_size <= MAX_PERMITS,
        decreases listeners@.len() - index,
    {
        let relay = &settings.relays[index];
        assert(settings@.relays[index as int] == relay@);
        if listeners[index].is_some() && (!limit_fits(relay.max_connections) || !limit_fits(
            relay.max_connecting,
        ) || settings.buffer_pool_size > MAX_PERMITS) {
            assert(listeners@[index as int] is Some);
            return false;
        }
        index = index + 1;
    }
    true
}

/// What a relay with a bound listener works with.
pub struct BoundRelay<A> {
    pub name: String,
    pub local_addr: A,
    pub target: TargetResolver<A>,
    pub metrics: RelayMetrics,
    pub buffer_pool: BufferPool,
    pub limits: Limits,
}

/// The relay of `relay` before its first connection, with a listener at `local_addr` and copy
/// buffers for `buffer_pool_size` directions.
pub open spec fn is_relay_start<A>(
    bound: BoundRelay<A>,
    relay: crate::config::RelayView,
    local_addr: A,
    buffer_pool_size: usize,
) -> bool {
    &&& bound.name@ == relay.name
    &&& bound.local_addr == local_addr
    &&& bound.target@.address == relay.target.address
    &&& bound.target@.resolved == if relay.dns_refresh is Some {
        Some(Seq::<A>::empty())
    } else {
        None
    }
    &&& bound.metrics@ == crate::metrics::fresh_metrics(relay.name)
    &&& bound.buffer_pool@ == (crate::relay::BufferPoolView {
        buffer_size: relay.buffer_size as nat,
        free: Seq::empty(),
        permits: buffer_pool_size as nat,
        capacity: buffer_pool_size as nat,
    })
    &&& bound.limits == (Limits {
        connections: unused(relay.max_connections),
        connecting: unused(relay.max_connecting),
    })
}

impl<A> BoundRelay<A> {
    /// What the relay of `spec` works with before its first connection.
    pub fn new(spec: &RelaySpec, local_addr: A, buffer_pool_size: usize) -> (result: BoundRelay<A>)
        requires
            spec@.buffer_size > 0,
            2 <= buffer_pool_size <= MAX_PERMITS,
            relay_fits(spec@),
        ensures
            is_relay_start(result, spec@, local_addr, buffer_pool_size),
            result.buffer_pool@.wf(),
            result.limits.wf(),
    {
        BoundRelay {
            name: spec.name.clone(),
            local_addr,
            target: TargetResolver::new(spec.target.address(), spec.dns_refresh.is_some()),
            metrics: RelayMetrics::new(spec.name.as_str()),
            buffer_pool: BufferPool::new(spec.buffer_size, buffer_pool_size),
            limits: Limits::new(spec.max_connections, spec.max_connecting),
        }
    }
}

/// Why a process cannot start.
#[derive(Debug)]
pub enum BindError {
    /// The settings break a rule.
    Settings(ConfigError),
    /// No listener of a relay could be bound.
    NoListeners,
}

impl BindError {
    /// The explanation of the error.
    pub open spec fn text(self) -> Seq<char> {
        match self {
            BindError::Settings(error) => error.text(),
            BindError::NoListeners => "no relay listeners could be started"@,
        }
    }

    /// The explanation of the error.
    pub fn to_string(&self) -> (result: String)
        ensures
            result@ == self.text(),
    {
        match self {
            BindError::Settings(error) => error.to_string(),
            BindError::NoListeners => "no relay listeners could be started".to_owned(),
        }
    }
}

/// A process with its relays, before its first connection.
pub struct Server<A> {
    pub shutdown_timeout: Duration,
    pub limits: Limits,
    pub ids: ConnectionIds,
    pub relays: Vec<BoundRelay<A>>,
    pub metrics_addr: Option<A>,
}

/// Those of the first `count` relays whose listener could be bound, in their order, each with
/// the address of its listener.
pub open spec fn bound_relays<A>(
    relays: Seq<crate::config::RelayView>,
    listeners: Seq<Option<A>>,
    count: nat,
) -> Seq<(crate::config::RelayView, A)>
    decreases count,
{
    if count == 0 {
        Seq::empty()
    } else {
        let before = bound_relays(relays, listeners, (count - 1) as nat);
        match listeners[count - 1] {
            Some(local_addr) => before.push((relays[count - 1], local_addr)),
            None => before,
        }
    }
}

/// The relays of `bound` before their first connections.
pub open spec fn are_relay_starts<A>(
    relays: Seq<BoundRelay<A>>,
    bound: Seq<(crate::config::RelayView, A)>,
    buffer_pool_size: usize,
) -> bool {
    &&& relays.len() == bound.len()
    &&& forall|i: int|
        0 <= i < bound.len() ==> is_relay_start(
            #[trigger] relays[i],
            bound[i].0,
            bound[i].1,
            buffer_pool_size,
        )
}

/// The names and listener addresses of relays.
pub open spec fn relay_addresses<A>(relays: Seq<BoundRelay<A>>) -> Seq<(Seq<char>, A)> {
    relays.map_values(|relay: BoundRelay<A>| (relay.name@, relay.local_addr))
}

/// The names and listener addresses of relays.
pub open spec fn address_views<A>(addresses: Seq<(String, A)>) -> Seq<(Seq<char>, A)> {
    addresses.map_values(|entry: (String, A)| (entry.0@, entry.1))
}

impl<A: Copy> Server<A> {
    /// Checks the settings, and sets up what a process with them works with. `listeners` are
    /// the addresses that the listeners of the relays were bound to, and `metrics_addr` that of
    /// the metrics listener. A relay without a listener is left out; the process needs one relay.
    pub fn bind(
        settings: &Settings,
        platform: Platform,
        listeners: &Vec<Option<A>>,
        metrics_addr: Option<A>,
    ) -> (result: Result<Server<A>, BindError>)
        requires
            permits_suffice(settings@, platform, listeners@),
            listeners@.len() == settings@.relays.len(),
        ensures
            match crate::config::settings_error(settings@, platform) {
                Some(message) => result matches Err(BindError::Settings(error))
                    && error.is_invalid(message),
                None => {
                    let bound = bound_relays(settings@.relays, listeners@, listeners@.len());
                    match result {
                        Ok(server) => {
                            &&& bound.len() > 0
                            &&& are_relay_starts(
                                server.relays@,
                                bound,
                                settings.buffer_pool_size,
                            )
                            &&& server.limits == (Limits {
                                connections: unused(settings.global_max_connections),
                                connecting: unused(settings.global_max_connecting),
                            })
                            &&& server.ids@ == 1
                            &&& server.shutdown_timeout == settings.shutdown_timeout
                            &&& server.metrics_addr == metrics_addr
                        },
                        Err(error) => bound.len() == 0 && error is NoListeners,
                    }
                },
            },
    {
        match settings.validate(platform) {
            Ok(_) => {},
            Err(error) => {
                return Err(BindError::Settings(error));
            },
        }
        proof {
            crate::config::valid_settings_are_sound(settings@, platform);
        }
        let mut relays: Vec<BoundRelay<A>> = Vec::new();
        let mut index: usize = 0;
        while index < settings.relays.len()
            invariant
                index <= settings.relays@.len(),
                settings@.relays.len() == settings.relays@.len(),
                listeners@.len() == settings@.relays.len(),
                crate::config::are_sound_settings(settings@, platform),
                crate::config::settings_error(settings@, platform) is None,
                permits_suffice(settings@, platform, listeners@),
                are_relay_starts(
                    relays@,
                    bound_relays(settings@.relays, listeners@, index as nat),
                    settings.buffer_pool_size,
                ),
            decreases settings.relays@.len() - index,
        {
            let spec = &settings.relays[index];
            assert(settings@.relays[index as int] == spec@);
            if let Some(local_addr) = listeners[index] {
                relays.push(BoundRelay::new(spec, local_addr, settings.buffer_pool_size));
            }
            index = index + 1;
        }
        if relays.is_empty() {
            return Err(BindError::NoListeners);
        }
        Ok(
            Server {
                shutdown_timeout: settings.shutdown_timeout,
                limits: Limits::new(
                    settings.global_max_connections,
                    settings.global_max_connecting,
                ),
                ids: ConnectionIds::new(),
                relays,
                metrics_addr,
            },
        )
    }

    /// The names and listener addresses of the relays, in their order.
    pub fn listener_addrs(&self) -> (result: Vec<(String, A)>)
        ensures
            address_views(result@) == relay_addresses(self.relays@),
    {
        let mut addresses: Vec<(String, A)> = Vec::new();
        let mut index: usize = 0;
        assert(address_views(addresses@) =~= relay_addresses(self.relays@).take(0));
        while index < self.relays.len()
            invariant
                index <= self.relays@.len(),
                address_views(addresses@) == relay_addresses(self.relays@).take(index as int),
            decreases self.relays@.len() - index,
        {
            let ghost before = addresses@;
            let relay = &self.relays[index];
            addresses.push((relay.name.clone(), relay.local_addr));
            assert(address_views(addresses@) =~= address_views(before).push(
                (relay.name@, relay.local_addr),
            ));
            assert(relay_addresses(self.relays@).take(index + 1) =~= relay_addresses(
                self.relays@,
            ).take(index as int).push((relay.name@, relay.local_addr)));
            index = index + 1;
        }
        assert(relay_addresses(self.relays@).take(index as int) =~= relay_addresses(self.relays@));
        addresses
    }

    /// The address of the metrics listener.
    pub fn metrics_addr(&self) -> (result: Option<A>)
        ensures
            result == self.metrics_addr,
    {
        self.metrics_addr
    }
}

/// A relay whose listener cannot be bound changes nothing for the others: they start as they
/// would without it.
pub proof fn unbound_relays_do_not_matter<A>(
    relays: Seq<crate::config::RelayView>,
    listeners: Seq<Option<A>>,
    index: int,
)
    requires
        relays.len() == listeners.len(),
        0 <= index < relays.len(),
        listeners[index] is None,
    ensures
        bound_relays(relays, listeners, listeners.len()) == bound_relays(
            relays.remove(index),
            listeners.remove(index),
            (listeners.len() - 1) as nat,
        ),
{
    lemma_bound_after(relays, listeners, index, listeners.len());
}

proof fn lemma_bound_before<A>(
    relays: Seq<crate::config::RelayView>,
    listeners: Seq<Option<A>>,
    index: int,
    count: nat,
)
    requires
        relays.len() == listeners.len(),
        0 <= index < relays.len(),
        count <= index,
    ensures
        bound_relays(relays, listeners, count) == bound_relays(
            relays.remove(index),
            listeners.remove(index),
            count,
        ),
    decreases count,
{
    if count > 0 {
        lemma_bound_before(relays, listeners, index, (count - 1) as nat);
    }
}

proof fn lemma_bound_after<A>(
    relays: Seq<crate::config::RelayView>,
    listeners: Seq<Option<A>>,
    index: int,
    count: nat,
)
    requires
        relays.len() == listeners.len(),
        0 <= index < relays.len(),
        listeners[index] is None,
        index < count <= listeners.len(),
    ensures
        bound_relays(relays, listeners, count) == bound_relays(
            relays.remove(index),
            listeners.remove(index),
            (count - 1) as nat,
        ),
    decreases count,
{
    if count - 1 == index {
        lemma_bound_before(relays, listeners, index, index as nat);
    } else {
        lemma_bound_after(relays, listeners, index, (count - 1) as nat);
    }
}

/// An option of a listener's socket.
#[derive(Clone, Copy, Debug, PartialEq, Eq, Structural)]
pub enum ListenerOption {
    /// The address may still be held by connections that have ended.
    ReuseAddress,
    /// Other processes may listen on the same port.
    ReusePort,
}

/// The options of a listener's socket, in the order in which they are set.
pub open spec fn listener_option_list(reuse_port: bool, platform: Platform) -> Seq<ListenerOption> {
    if reuse_port && platform.unix {
        seq![ListenerOption::ReuseAddress, ListenerOption::ReusePort]
    } else {
        seq![ListenerOption::ReuseAddress]
    }
}

/// The options of a listener's socket, in the order in which they are set.
pub fn listener_options(reuse_port: bool, platform: Platform) -> (result: Vec<ListenerOption>)
    ensures
        result@ == listener_option_list(reuse_port, platform),
{
    let mut options: Vec<ListenerOption> = Vec::new();
    options.push(ListenerOption::ReuseAddress);
    if reuse_port && platform.unix {
        options.push(ListenerOption::ReusePort);
    }
    options
}

/// The socket address that a listener binds: the first that its address resolves to.
pub fn bind_address<A: Copy>(addresses: &Vec<A>, address: &str) -> (result: Result<A, String>)
    ensures
        match result {
            Ok(first) => addresses@.len() > 0 && first == addresses@[0],
            Err(message) => addresses@.len() == 0 && message@
                == "no socket address resolved for "@ + address@,
        },
{
    if addresses.len() > 0 {
        Ok(addresses[0])
    } else {
        let mut message = "no socket address resolved for ".to_owned();
        message.append(address);
        Err(message)
    }
}

/// The files of the certificate and its key, where metrics are served over TLS.
pub fn metrics_tls_files<'a>(
    cert_path: &'a Option<PathBuf>,
    key_path: &'a Option<PathBuf>,
) -> (result: Option<(&'a PathBuf, &'a PathBuf)>)
    ensures
        match result {
            Some(files) => *cert_path == Some(*files.0) && *key_path == Some(*files.1),
            None => *cert_path is None || *key_path is None,
        },
{
    match (cert_path, key_path) {
        (Some(cert_path), Some(key_path)) => Some((cert_path, key_path)),
        _ => None,
    }
}

/// Refuses a certificate file that holds no certificate.
pub fn check_certificates(count: usize) -> (result: Result<(), String>)
    ensures
        match result {
            Ok(_) => count > 0,
            Err(message) => count == 0 && message@
                == "metrics TLS certificate file contains no certificates"@,
        },
{
    if count == 0 {
        Err("metrics TLS certificate file contains no certificates".to_owned())
    } else {
        Ok(())
    }
}

/// How far a process is that was told to end.
#[derive(Clone, Copy, Debug, PartialEq, Eq, Structural)]
pub enum ShutdownPhase {
    /// It was not told yet.
    Running,
    /// Listeners stop, and connections may go on until they end.
    Draining,
    /// Connections are told to end.
    Forced,
    /// The process ends.
    Done,
}

/// What happens to a process that ends.
#[derive(Clone, Copy, Debug, PartialEq, Eq, Structural)]
pub enum ShutdownEvent {
    /// It is told to end.
    Requested,
    /// All listeners and connections have ended.
    Drained,
    /// The time of the phase has passed.
    TimedOut,
}

/// The phase after an event. One that says nothing new changes nothing.
pub open spec fn next_phase(phase: ShutdownPhase, event: ShutdownEvent) -> ShutdownPhase {
    match (phase, event) {
        (ShutdownPhase::Running, ShutdownEvent::Requested) => ShutdownPhase::Draining,
        (ShutdownPhase::Draining, ShutdownEvent::Drained) => ShutdownPhase::Done,
        (ShutdownPhase::Draining, ShutdownEvent::TimedOut) => ShutdownPhase::Forced,
        (ShutdownPhase::Forced, ShutdownEvent::Drained) => ShutdownPhase::Done,
        (ShutdownPhase::Forced, ShutdownEvent::TimedOut) => ShutdownPhase::Done,
        _ => phase,
    }
}

/// How long a phase may last.
pub open spec fn phase_limit(phase: ShutdownPhase, shutdown_timeout: Duration) -> Option<Duration> {
    match phase {
        ShutdownPhase::Draining => Some(shutdown_timeout),
        ShutdownPhase::Forced => Some(Duration::spec_new(FORCED_SHUTDOWN_SECS, 0)),
        _ => None,
    }
}

impl ShutdownPhase {
    /// The phase after an event.
    pub fn after(self, event: ShutdownEvent) -> (result: ShutdownPhase)
        ensures
            result == next_phase(self, event),
    {
        match (self, event) {
            (ShutdownPhase::Running, ShutdownEvent::Requested) => ShutdownPhase::Draining,
            (ShutdownPhase::Draining, ShutdownEvent::Drained) => ShutdownPhase::Done,
            (ShutdownPhase::Draining, ShutdownEvent::TimedOut) => ShutdownPhase::Forced,
            (ShutdownPhase::Forced, ShutdownEvent::Drained) => ShutdownPhase::Done,
            (ShutdownPhase::Forced, ShutdownEvent::TimedOut) => ShutdownPhase::Done,
            _ => self,
        }
    }

    /// How long the phase may last.
    pub fn limit(self, shutdown_timeout: Duration) -> (result: Option<Duration>)
        ensures
            result == phase_limit(self, shutdown_timeout),
    {
        match self {
            ShutdownPhase::Draining => Some(shutdown_timeout),
            ShutdownPhase::Forced => Some(Duration::from_secs(FORCED_SHUTDOWN_SECS)),
            _ => None,
        }
    }
}

/// The longest time, in nanoseconds, from a phase to the end of the process, where every phase
/// lasts as long as it may.
pub open spec fn longest_end(phase: ShutdownPhase, shutdown_timeout: Duration) -> nat {
    match phase {
        ShutdownPhase::Draining => shutdown_timeout.total_nanos() + FORCED_SHUTDOWN_SECS as nat
            * 1_000_000_000,
        ShutdownPhase::Forced => FORCED_SHUTDOWN_SECS as nat * 1_000_000_000,
        _ => 0,
    }
}

/// A process that was told to end does so within the shutdown timeout and one second more: each
/// phase takes its own time at most off what is left, and the last leads to the end.
pub proof fn shutdown_is_bounded(phase: ShutdownPhase, shutdown_timeout: Duration)
    requires
        phase == ShutdownPhase::Draining || phase == ShutdownPhase::Forced,
    ensures
        phase_limit(phase, shutdown_timeout) is Some,
        longest_end(phase, shutdown_timeout) == phase_limit(
            phase,
            shutdown_timeout,
        )->0.total_nanos() + longest_end(
            next_phase(phase, ShutdownEvent::TimedOut),
            shutdown_timeout,
        ),
        next_phase(phase, ShutdownEvent::Drained) == ShutdownPhase::Done,
        next_phase(next_phase(phase, ShutdownEvent::TimedOut), ShutdownEvent::TimedOut)
            == ShutdownPhase::Done,
        longest_end(next_phase(ShutdownPhase::Running, ShutdownEvent::Requested), shutdown_timeout)
            == shutdown_timeout.total_nanos() + 1_000_000_000,
{
    crate::duration::lemma_new_parts(FORCED_SHUTDOWN_SECS, 0);
}

} // verus!
