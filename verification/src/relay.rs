//! The decisions of a proxied connection: where to connect, which buffers to copy through, what
//! to do with the bytes that arrive, and what to count.

use vstd::prelude::*;

use crate::config::{ForwardMode, Platform};
use crate::duration::Duration;
use crate::metrics::RelayMetrics;

verus! {

/// The most permits that a pool or a limit can have.
pub const MAX_PERMITS: usize = usize::MAX / 8;

/// How many bytes are moved through a kernel pipe at once.
pub const SPLICE_CHUNK_SIZE: usize = 65_536;

/// What a resolver knows of its target: the configured address, and the socket addresses that
/// it last resolved to, where they are kept.
pub struct ResolverView<A> {
    pub address: Seq<char>,
    pub resolved: Option<Seq<A>>,
}

/// How a connection to the target is tried.
pub enum Attempt<'a, A> {
    /// By the configured address, which is resolved for it.
    ByName(&'a str),
    /// By the socket addresses that are kept.
    ByAddresses(&'a Vec<A>),
}

/// Finds the socket addresses of a configured target.
#[derive(Clone, Debug)]
pub struct TargetResolver<A> {
    address: String,
    resolved: Option<Vec<A>>,
}

impl<A> View for TargetResolver<A> {
    type V = ResolverView<A>;

    closed spec fn view(&self) -> ResolverView<A> {
        ResolverView {
            address: self.address@,
            resolved: match self.resolved {
                Some(addresses) => Some(addresses@),
                None => None,
            },
        }
    }
}

impl<A> ResolverView<A> {
    /// Some socket addresses are kept.
    pub open spec fn has_addresses(self) -> bool {
        self.resolved matches Some(addresses) && addresses.len() > 0
    }

    /// What a resolver of the address knows at first.
    pub open spec fn unresolved(address: Seq<char>, refresh_enabled: bool) -> ResolverView<A> {
        ResolverView {
            address,
            resolved: if refresh_enabled {
                Some(Seq::empty())
            } else {
                None
            },
        }
    }

    /// What the resolver knows once the address was resolved to `addresses`.
    pub open spec fn after_refresh(self, addresses: Seq<A>) -> ResolverView<A> {
        ResolverView {
            address: self.address,
            resolved: match self.resolved {
                Some(_) => Some(addresses),
                None => None,
            },
        }
    }
}

/// What is made of a try to connect by name, after an earlier error or none.
pub open spec fn connect_outcome<S, E>(
    cached_error: Option<E>,
    result: Result<S, E>,
) -> Result<S, E> {
    match (result, cached_error) {
        (Ok(stream), _) => Ok::<S, E>(stream),
        (Err(_), Some(cached_error)) => Err::<S, E>(cached_error),
        (Err(error), None) => Err::<S, E>(error),
    }
}

impl<A> TargetResolver<A> {
    /// A resolver that knows no socket address yet, and keeps them where it is refreshed.
    pub fn new(address: &str, refresh_enabled: bool) -> (result: TargetResolver<A>)
        ensures
            result@ == ResolverView::<A>::unresolved(address@, refresh_enabled),
    {
        TargetResolver {
            address: address.to_owned(),
            resolved: if refresh_enabled {
                Some(Vec::new())
            } else {
                None
            },
        }
    }

    /// The configured address.
    pub fn address(&self) -> (result: &str)
        ensures
            result@ == self@.address,
    {
        self.address.as_str()
    }

    /// Takes in what the address resolves to, and says how many socket addresses these are.
    pub fn refresh(&mut self, addresses: Vec<A>) -> (result: usize)
        ensures
            result == addresses@.len(),
            final(self)@ == old(self)@.after_refresh(addresses@),
    {
        let count = addresses.len();
        if self.resolved.is_some() {
            self.resolved = Some(addresses);
        }
        count
    }

    /// How a connection is tried first.
    pub fn connect(&self) -> (result: Attempt<'_, A>)
        ensures
            match result {
                Attempt::ByName(name) => !self@.has_addresses() && name@ == self@.address,
                Attempt::ByAddresses(addresses) => self@.has_addresses() && self@.resolved == Some(
                    addresses@,
                ),
            },
    {
        match &self.resolved {
            Some(addresses) => {
                if addresses.len() > 0 {
                    Attempt::ByAddresses(addresses)
                } else {
                    Attempt::ByName(self.address.as_str())
                }
            },
            None => Attempt::ByName(self.address.as_str()),
        }
    }
}

/// What follows a try to connect by the kept socket addresses.
pub enum AfterAddresses<S, E> {
    /// The connection stands.
    Connected(S),
    /// The target is tried by name. The error is the one to report if that fails too.
    TryName(E),
}

/// What follows a try to connect by the kept socket addresses.
pub fn after_addresses<S, E>(result: Result<S, E>) -> (next: AfterAddresses<S, E>)
    ensures
        next == match result {
            Ok(stream) => AfterAddresses::Connected(stream),
            Err(error) => AfterAddresses::TryName(error),
        },
{
    match result {
        Ok(stream) => AfterAddresses::Connected(stream),
        Err(error) => AfterAddresses::TryName(error),
    }
}

/// What is made of a try to connect by name: an earlier error is reported in place of its own.
pub fn after_name<S, E>(cached_error: Option<E>, result: Result<S, E>) -> (outcome: Result<S, E>)
    ensures
        outcome == connect_outcome(cached_error, result),
{
    match result {
        Ok(stream) => Ok(stream),
        Err(error) => match cached_error {
            Some(cached_error) => Err(cached_error),
            None => Err(error),
        },
    }
}

/// A copy buffer that is out of its pool.
#[derive(Debug)]
pub struct PooledBuffer {
    buffer: Vec<u8>,
}

impl View for PooledBuffer {
    type V = Seq<u8>;

    closed spec fn view(&self) -> Seq<u8> {
        self.buffer@
    }
}

impl PooledBuffer {
    /// The bytes of the buffer, to be overwritten.
    pub fn as_mut_slice(&mut self) -> (result: &mut [u8])
        ensures
            result@ == old(self)@,
            final(self)@ == final(result)@,
    {
        self.buffer.as_mut_slice()
    }

    /// The first `count` bytes of the buffer, which were overwritten last.
    pub fn filled(&self, count: usize) -> (result: &[u8])
        requires
            count <= self@.len(),
        ensures
            result@ == self@.take(count as int),
    {
        let head = vstd::slice::slice_subrange(self.buffer.as_slice(), 0, count);
        assert(head@ =~= self@.take(count as int));
        head
    }
}

/// What a pool holds: buffers of `buffer_size` bytes that wait for use, how many buffers may
/// still be handed out, and how many may be out at once.
pub struct BufferPoolView {
    pub buffer_size: nat,
    pub free: Seq<Seq<u8>>,
    pub permits: nat,
    pub capacity: nat,
}

/// A buffer that was never used.
pub open spec fn zeroed(size: nat) -> Seq<u8> {
    Seq::new(size, |i: int| 0u8)
}

impl BufferPoolView {
    /// What holds of every pool: all buffers have its size, and never more buffers exist than
    /// it has room for.
    pub open spec fn wf(self) -> bool {
        &&& self.permits <= self.capacity
        &&& self.free.len() <= self.permits
        &&& forall|i: int|
            0 <= i < self.free.len() ==> (#[trigger] self.free[i]).len() == self.buffer_size
    }

    /// The buffer that is handed out next: the one that came back last, or a new one.
    pub open spec fn next(self) -> Seq<u8> {
        if self.free.len() > 0 {
            self.free.last()
        } else {
            zeroed(self.buffer_size)
        }
    }

    /// The pool after a buffer was handed out.
    pub open spec fn after_take(self) -> BufferPoolView {
        BufferPoolView {
            free: if self.free.len() > 0 {
                self.free.drop_last()
            } else {
                self.free
            },
            permits: (self.permits - 1) as nat,
            ..self
        }
    }

    /// The pool after a buffer came back.
    pub open spec fn after_release(self, buffer: Seq<u8>) -> BufferPoolView {
        BufferPoolView { free: self.free.push(buffer), permits: self.permits + 1, ..self }
    }
}

/// A bounded pool of copy buffers.
#[derive(Debug)]
pub struct BufferPool {
    buffer_size: usize,
    buffers: Vec<Vec<u8>>,
    permits: usize,
    capacity: usize,
}

/// The contents of several buffers.
pub open spec fn buffer_views(buffers: Seq<Vec<u8>>) -> Seq<Seq<u8>> {
    buffers.map_values(|buffer: Vec<u8>| buffer@)
}

impl View for BufferPool {
    type V = BufferPoolView;

    closed spec fn view(&self) -> BufferPoolView {
        BufferPoolView {
            buffer_size: self.buffer_size as nat,
            free: buffer_views(self.buffers@),
            permits: self.permits as nat,
            capacity: self.capacity as nat,
        }
    }
}

impl BufferPool {
    #[verifier::type_invariant]
    spec fn inv(self) -> bool {
        self@.wf()
    }

    /// A pool of at most `buffer_count` buffers of `buffer_size` bytes. None of them exists yet.
    pub fn new(buffer_size: usize, buffer_count: usize) -> (result: BufferPool)
        requires
            buffer_size > 0,
            2 <= buffer_count <= MAX_PERMITS,
        ensures
            result@ == (BufferPoolView {
                buffer_size: buffer_size as nat,
                free: Seq::empty(),
                permits: buffer_count as nat,
                capacity: buffer_count as nat,
            }),
            result@.wf(),
    {
        let buffers: Vec<Vec<u8>> = Vec::new();
        assert(buffer_views(buffers@) =~= Seq::empty());
        BufferPool { buffer_size, buffers, permits: buffer_count, capacity: buffer_count }
    }

    fn take(&mut self) -> (result: PooledBuffer)
        requires
            old(self)@.permits > 0,
        ensures
            result@ == old(self)@.next(),
            result@.len() == old(self)@.buffer_size,
            final(self)@ == old(self)@.after_take(),
            final(self)@.wf(),
    {
        proof {
            use_type_invariant(&*self);
        }
        let ghost before = self@;
        let mut buffers: Vec<Vec<u8>> = Vec::new();
        std::mem::swap(&mut buffers, &mut self.buffers);
        let taken = buffers.pop();
        self.permits = self.permits - 1;
        match taken {
            Some(buffer) => {
                assert(before.free.last() == buffer@);
                assert(buffer_views(buffers@) =~= before.free.drop_last());
                self.buffers = buffers;
                PooledBuffer { buffer }
            },
            None => {
                let buffer: Vec<u8> = vec![0; self.buffer_size];
                assert(buffer@ =~= zeroed(self.buffer_size as nat));
                assert(buffer_views(self.buffers@) =~= before.free);
                PooledBuffer { buffer }
            },
        }
    }

    /// Hands out a buffer for each direction of a connection, unless fewer than two are left.
    pub fn acquire_pair(&mut self) -> (result: Option<(PooledBuffer, PooledBuffer)>)
        ensures
            old(self)@.wf(),
            final(self)@.wf(),
            match result {
                Some(pair) => {
                    &&& old(self)@.permits >= 2
                    &&& pair.0@ == old(self)@.next()
                    &&& pair.1@ == old(self)@.after_take().next()
                    &&& pair.0@.len() == old(self)@.buffer_size
                    &&& pair.1@.len() == old(self)@.buffer_size
                    &&& final(self)@ == old(self)@.after_take().after_take()
                },
                None => old(self)@.permits < 2 && final(self)@ == old(self)@,
            },
    {
        proof {
            use_type_invariant(&*self);
        }
        if self.permits < 2 {
            return None;
        }
        let first = self.take();
        let second = self.take();
        Some((first, second))
    }

    /// Takes a buffer back.
    pub fn release(&mut self, buffer: PooledBuffer)
        requires
            buffer@.len() == old(self)@.buffer_size,
            old(self)@.permits < old(self)@.capacity,
        ensures
            final(self)@ == old(self)@.after_release(buffer@),
            final(self)@.wf(),
    {
        proof {
            use_type_invariant(&*self);
        }
        let ghost before = self@;
        let mut buffers: Vec<Vec<u8>> = Vec::new();
        std::mem::swap(&mut buffers, &mut self.buffers);
        buffers.push(buffer.buffer);
        assert(buffer_views(buffers@) =~= before.free.push(buffer@));
        self.permits = self.permits + 1;
        self.buffers = buffers;
    }
}

/// What happens to a pool.
pub enum PoolEvent {
    /// A pair of buffers was handed out.
    PairTaken,
    /// A buffer with these bytes came back.
    Returned(Seq<u8>),
}

/// A pool after the first `count` of `events`, and how many of its buffers are out then.
pub open spec fn pool_after(pool: BufferPoolView, events: Seq<PoolEvent>, count: nat) -> (
    BufferPoolView,
    int,
)
    decreases count,
{
    if count == 0 {
        (pool, 0)
    } else {
        let (before, out) = pool_after(pool, events, (count - 1) as nat);
        match events[count - 1] {
            PoolEvent::PairTaken => (before.after_take().after_take(), out + 2),
            PoolEvent::Returned(buffer) => (before.after_release(buffer), out - 1),
        }
    }
}

/// The first `count` of `events` can happen to a pool: a pair is handed out only where two
/// buffers are left, and only a buffer that is out comes back, with the size it had.
pub open spec fn is_pool_run(pool: BufferPoolView, events: Seq<PoolEvent>, count: nat) -> bool
    decreases count,
{
    count > 0 ==> {
        let (before, out) = pool_after(pool, events, (count - 1) as nat);
        &&& is_pool_run(pool, events, (count - 1) as nat)
        &&& match events[count - 1] {
            PoolEvent::PairTaken => before.permits >= 2,
            PoolEvent::Returned(buffer) => out > 0 && buffer.len() == before.buffer_size,
        }
    }
}

/// However buffers go out and come back, those that are out and those that may still be handed
/// out are together as many as the pool has room for. So there is room for every buffer that is
/// out to come back, and a pool all of whose buffers came back has the permits it started with.
pub proof fn pools_have_room_for_what_is_out(
    pool: BufferPoolView,
    events: Seq<PoolEvent>,
    count: nat,
)
    requires
        pool.wf(),
        pool.permits == pool.capacity,
        is_pool_run(pool, events, count),
    ensures
        ({
            let (after, out) = pool_after(pool, events, count);
            &&& after.wf()
            &&& after.capacity == pool.capacity
            &&& after.buffer_size == pool.buffer_size
            &&& out >= 0
            &&& after.permits + out == after.capacity
            &&& out > 0 ==> after.permits < after.capacity
        }),
    decreases count,
{
    if count > 0 {
        pools_have_room_for_what_is_out(pool, events, (count - 1) as nat);
    }
}

/// An option of a socket.
#[derive(Clone, Copy, Debug, PartialEq, Eq, Structural)]
pub enum SocketOption {
    /// The size of the receive buffer.
    ReceiveBuffer(usize),
    /// The size of the send buffer.
    SendBuffer(usize),
    /// Small segments are sent at once.
    NoDelay,
    /// Keepalive probes start after this long without traffic.
    KeepAlive(Duration),
}

/// The options of a proxied socket, in the order in which they are set.
pub open spec fn socket_option_list(
    keepalive: Option<Duration>,
    socket_buffer_size: Option<usize>,
) -> Seq<SocketOption> {
    let sizes = match socket_buffer_size {
        Some(size) => seq![SocketOption::ReceiveBuffer(size), SocketOption::SendBuffer(size)],
        None => Seq::empty(),
    };
    let probes = match keepalive {
        Some(duration) => seq![SocketOption::KeepAlive(duration)],
        None => Seq::empty(),
    };
    sizes + seq![SocketOption::NoDelay] + probes
}

/// The options of a proxied socket, in the order in which they are set. Each is set whether or
/// not an earlier one could be.
pub fn socket_options(
    keepalive: Option<Duration>,
    socket_buffer_size: Option<usize>,
) -> (result: Vec<SocketOption>)
    ensures
        result@ == socket_option_list(keepalive, socket_buffer_size),
{
    let mut options: Vec<SocketOption> = Vec::new();
    if let Some(size) = socket_buffer_size {
        options.push(SocketOption::ReceiveBuffer(size));
        options.push(SocketOption::SendBuffer(size));
    }
    options.push(SocketOption::NoDelay);
    if let Some(duration) = keepalive {
        options.push(SocketOption::KeepAlive(duration));
    }
    assert(options@ =~= socket_option_list(keepalive, socket_buffer_size));
    options
}

/// How far a proxied connection is.
#[derive(Clone, Copy, Debug, PartialEq, Eq, Structural)]
pub enum ConnectionState {
    /// The upstream is being connected to.
    Connecting,
    /// Bytes are forwarded.
    Forwarding,
    /// The connection has ended.
    Closed,
}

/// What happens to a proxied connection.
#[derive(Clone, Copy, Debug, PartialEq, Eq, Structural)]
pub enum ConnectionEvent {
    /// The process no longer waits for the connection.
    Forced,
    /// The upstream is connected.
    Connected,
    /// The upstream could not be connected to.
    ConnectFailed,
    /// Connecting to the upstream took too long.
    ConnectTimedOut,
    /// Both directions have ended.
    Transferred {
        client_to_upstream: u64,
        upstream_to_client: u64,
    },
    /// Nothing was transferred for too long.
    IdleTimedOut,
    /// Bytes could not be forwarded.
    ForwardFailed,
}

/// The event can happen in the state.
pub open spec fn can_happen(state: ConnectionState, event: ConnectionEvent) -> bool {
    match state {
        ConnectionState::Connecting => event == ConnectionEvent::Forced || event
            == ConnectionEvent::Connected || event == ConnectionEvent::ConnectFailed || event
            == ConnectionEvent::ConnectTimedOut,
        ConnectionState::Forwarding => event == ConnectionEvent::Forced || event is Transferred
            || event == ConnectionEvent::IdleTimedOut || event == ConnectionEvent::ForwardFailed,
        ConnectionState::Closed => false,
    }
}

/// The state after an event.
pub open spec fn next_state(event: ConnectionEvent) -> ConnectionState {
    if event == ConnectionEvent::Connected {
        ConnectionState::Forwarding
    } else {
        ConnectionState::Closed
    }
}

/// The counters after an event, `elapsed` after the connection was accepted.
pub open spec fn metrics_after(
    metrics: crate::metrics::RelayMetricsView,
    event: ConnectionEvent,
    elapsed: Duration,
) -> crate::metrics::RelayMetricsView {
    match event {
        ConnectionEvent::Forced => metrics.after_closed(elapsed, 0, 0),
        ConnectionEvent::Connected => metrics,
        ConnectionEvent::ConnectFailed => metrics.after_upstream_failure().after_closed(
            elapsed,
            0,
            0,
        ),
        ConnectionEvent::ConnectTimedOut => metrics.after_upstream_timeout().after_closed(
            elapsed,
            0,
            0,
        ),
        ConnectionEvent::Transferred { client_to_upstream, upstream_to_client } =>
            metrics.after_closed(elapsed, client_to_upstream, upstream_to_client),
        ConnectionEvent::IdleTimedOut => metrics.after_idle_timeout().after_closed(elapsed, 0, 0),
        ConnectionEvent::ForwardFailed => metrics.after_closed(elapsed, 0, 0),
    }
}

/// Goes on with a proxied connection: counts what happened, and says how far the connection is
/// then.
pub fn handle_connection(
    state: ConnectionState,
    event: ConnectionEvent,
    elapsed: Duration,
    metrics: &mut RelayMetrics,
) -> (result: ConnectionState)
    requires
        can_happen(state, event),
    ensures
        result == next_state(event),
        final(metrics)@ == metrics_after(old(metrics)@, event, elapsed),
{
    match event {
        ConnectionEvent::Connected => {
            return ConnectionState::Forwarding;
        },
        ConnectionEvent::Transferred { client_to_upstream, upstream_to_client } => {
            metrics.closed(elapsed, client_to_upstream, upstream_to_client);
            return ConnectionState::Closed;
        },
        ConnectionEvent::ConnectFailed => {
            metrics.upstream_failure();
        },
        ConnectionEvent::ConnectTimedOut => {
            metrics.upstream_timeout();
        },
        ConnectionEvent::IdleTimedOut => {
            metrics.idle_timeout();
        },
        ConnectionEvent::Forced | ConnectionEvent::ForwardFailed => {},
    }
    metrics.closed(elapsed, 0, 0);
    ConnectionState::Closed
}

/// What is made of the end of forwarding: the numbers of bytes of both directions, or an error
/// and whether it is that nothing was transferred for too long.
pub open spec fn ended_event(result: Result<(u64, u64), bool>) -> ConnectionEvent {
    match result {
        Ok(bytes) => ConnectionEvent::Transferred {
            client_to_upstream: bytes.0,
            upstream_to_client: bytes.1,
        },
        Err(timed_out) => if timed_out {
            ConnectionEvent::IdleTimedOut
        } else {
            ConnectionEvent::ForwardFailed
        },
    }
}

/// What is made of the end of forwarding.
pub fn forward_event(result: Result<(u64, u64), bool>) -> (event: ConnectionEvent)
    ensures
        event == ended_event(result),
{
    match result {
        Ok(bytes) => ConnectionEvent::Transferred {
            client_to_upstream: bytes.0,
            upstream_to_client: bytes.1,
        },
        Err(timed_out) => if timed_out {
            ConnectionEvent::IdleTimedOut
        } else {
            ConnectionEvent::ForwardFailed
        },
    }
}

/// How far a connection is after the first `count` of `events`.
pub open spec fn state_after(events: Seq<ConnectionEvent>, count: nat) -> ConnectionState {
    if count == 0 {
        ConnectionState::Connecting
    } else {
        next_state(events[count - 1])
    }
}

/// The counters after the first `count` of `events`, each at its time.
pub open spec fn metrics_after_all(
    metrics: crate::metrics::RelayMetricsView,
    events: Seq<ConnectionEvent>,
    times: Seq<Duration>,
    count: nat,
) -> crate::metrics::RelayMetricsView
    decreases count,
{
    if count == 0 {
        metrics
    } else {
        metrics_after(
            metrics_after_all(metrics, events, times, (count - 1) as nat),
            events[count - 1],
            times[count - 1],
        )
    }
}

/// `events` are all that happens to a connection, from its acceptance to its end.
pub open spec fn is_whole_run(events: Seq<ConnectionEvent>) -> bool {
    &&& forall|i: int|
        0 <= i < events.len() ==> can_happen(state_after(events, i as nat), #[trigger] events[i])
    &&& state_after(events, events.len()) == ConnectionState::Closed
}

/// However a connection goes, it is counted as closed exactly once at its end, and no longer as
/// active; at most one of the counters of failures goes up; and bytes are counted only of
/// connections whose two directions have both ended.
pub proof fn connections_close_once(
    metrics: crate::metrics::RelayMetricsView,
    events: Seq<ConnectionEvent>,
    times: Seq<Duration>,
)
    requires
        is_whole_run(events),
        times.len() == events.len(),
    ensures
        ({
            let after = metrics_after_all(metrics, events, times, events.len());
            let last = events.last();
            &&& events.len() == 1 || events.len() == 2
            &&& events.len() == 2 ==> events[0] == ConnectionEvent::Connected
            &&& after == metrics_after(metrics, last, times.last())
            &&& last != ConnectionEvent::Connected
            &&& after.connections_closed == crate::metrics::counted(metrics.connections_closed, 1)
            &&& after.active_connections == crate::metrics::uncounted(metrics.active_connections)
            &&& after.connections_accepted == metrics.connections_accepted
            &&& after.connections_rejected == metrics.connections_rejected
            &&& after.upstream_connect_failures == if last == ConnectionEvent::ConnectFailed {
                crate::metrics::counted(metrics.upstream_connect_failures, 1)
            } else {
                metrics.upstream_connect_failures
            }
            &&& after.upstream_connect_timeouts == if last == ConnectionEvent::ConnectTimedOut {
                crate::metrics::counted(metrics.upstream_connect_timeouts, 1)
            } else {
                metrics.upstream_connect_timeouts
            }
            &&& after.idle_timeouts == if last == ConnectionEvent::IdleTimedOut {
                crate::metrics::counted(metrics.idle_timeouts, 1)
            } else {
                metrics.idle_timeouts
            }
            &&& !(last is Transferred) ==> after.bytes_client_to_upstream
                == metrics.bytes_client_to_upstream && after.bytes_upstream_to_client
                == metrics.bytes_upstream_to_client
        }),
{
    assert(events.len() > 0);
    assert(can_happen(state_after(events, 0), events[0]));
    if events.len() > 1 {
        assert(can_happen(state_after(events, 1), events[1]));
        if events.len() > 2 {
            assert(can_happen(state_after(events, 2), events[2]));
        }
        assert(metrics_after_all(metrics, events, times, 1) == metrics_after(
            metrics_after_all(metrics, events, times, 0),
            events[0],
            times[0],
        ));
    }
    assert(metrics_after_all(metrics, events, times, 0) == metrics);
}

/// What forwards the bytes of a connection.
#[derive(Clone, Copy, Debug, PartialEq, Eq, Structural)]
pub enum Backend {
    /// Copying through two pooled buffers.
    Buffers,
    /// Moving through kernel pipes.
    Splice,
}

/// What forwards the bytes: kernel pipes where they are asked for and Linux has them.
pub open spec fn backend_for(forward_mode: ForwardMode, platform: Platform) -> Backend {
    if forward_mode == ForwardMode::Splice && platform.linux {
        Backend::Splice
    } else {
        Backend::Buffers
    }
}

/// Picks what forwards the bytes: kernel pipes where they are asked for and Linux has them.
pub fn forward_with_mode(forward_mode: ForwardMode, platform: Platform) -> (result: Backend)
    ensures
        result == backend_for(forward_mode, platform),
{
    if forward_mode == ForwardMode::Splice && platform.linux {
        Backend::Splice
    } else {
        Backend::Buffers
    }
}

/// What one direction of a connection does next.
#[derive(Clone, Copy, Debug, PartialEq, Eq, Structural)]
pub enum DirectionStep {
    /// Takes bytes from the source, as many as there is room for.
    Take,
    /// Gives this many bytes to the destination.
    Give(usize),
    /// Passes the end of the source on to the destination, and ends.
    Finish,
    /// Ends because the destination takes nothing more.
    Broken,
}

/// One direction of a connection: how many bytes the destination got, and what is next.
#[derive(Clone, Copy, Debug, PartialEq, Eq, Structural)]
pub struct Direction {
    pub copied: u64,
    pub step: DirectionStep,
}

/// A direction at its start.
pub open spec fn direction_start() -> Direction {
    Direction { copied: 0, step: DirectionStep::Take }
}

/// A direction after `count` bytes were taken from the source; none at its end.
pub open spec fn after_taken(direction: Direction, count: usize) -> Direction {
    Direction {
        copied: direction.copied,
        step: if count == 0 {
            DirectionStep::Finish
        } else {
            DirectionStep::Give(count)
        },
    }
}

/// A direction after the destination took `count` of the bytes that wait for it; none where it
/// takes nothing more.
pub open spec fn after_given(direction: Direction, count: usize) -> Direction {
    match direction.step {
        DirectionStep::Give(pending) => if count == 0 {
            Direction { copied: direction.copied, step: DirectionStep::Broken }
        } else {
            Direction {
                copied: crate::metrics::counted(direction.copied, count as u64),
                step: if count == pending {
                    DirectionStep::Take
                } else {
                    DirectionStep::Give((pending - count) as usize)
                },
            }
        },
        _ => direction,
    }
}

impl Direction {
    /// A direction at its start.
    pub fn start() -> (result: Direction)
        ensures
            result == direction_start(),
    {
        Direction { copied: 0, step: DirectionStep::Take }
    }

    /// Goes on after `count` bytes were taken from the source; none at its end.
    pub fn taken(&mut self, count: usize)
        requires
            old(self).step == DirectionStep::Take,
        ensures
            *final(self) == after_taken(*old(self), count),
    {
        self.step = if count == 0 {
            DirectionStep::Finish
        } else {
            DirectionStep::Give(count)
        };
    }

    /// Goes on after the destination took `count` of the bytes that wait for it; none where it
    /// takes nothing more.
    pub fn given(&mut self, count: usize)
        requires
            old(self).step matches DirectionStep::Give(pending) && count <= pending,
        ensures
            *final(self) == after_given(*old(self), count),
    {
        if let DirectionStep::Give(pending) = self.step {
            if count == 0 {
                self.step = DirectionStep::Broken;
            } else {
                self.copied = self.copied.wrapping_add(count as u64);
                self.step = if count == pending {
                    DirectionStep::Take
                } else {
                    DirectionStep::Give(pending - count)
                };
            }
        }
    }
}

/// What moved in one direction of a connection: the bytes that were taken from the source, those
/// that the destination got, and those that wait for it, with the direction that counts them.
pub struct Flow {
    pub direction: Direction,
    pub taken: Seq<u8>,
    pub given: Seq<u8>,
    pub waiting: Seq<u8>,
}

/// A flow at its start.
pub open spec fn flow_start() -> Flow {
    Flow {
        direction: direction_start(),
        taken: Seq::empty(),
        given: Seq::empty(),
        waiting: Seq::empty(),
    }
}

/// A flow after `bytes` were taken from the source; none at its end.
pub open spec fn flow_taken(flow: Flow, bytes: Seq<u8>) -> Flow {
    Flow {
        direction: after_taken(flow.direction, bytes.len() as usize),
        taken: flow.taken + bytes,
        given: flow.given,
        waiting: bytes,
    }
}

/// A flow after the destination got the first `count` of the bytes that wait for it.
pub open spec fn flow_given(flow: Flow, count: usize) -> Flow {
    Flow {
        direction: after_given(flow.direction, count),
        taken: flow.taken,
        given: flow.given + flow.waiting.take(count as int),
        waiting: flow.waiting.skip(count as int),
    }
}

/// A direction that copies through a buffer.
pub struct CopyDirection {
    buffer: PooledBuffer,
    direction: Direction,
    taken: Ghost<Seq<u8>>,
    given: Ghost<Seq<u8>>,
}

impl View for CopyDirection {
    type V = Flow;

    closed spec fn view(&self) -> Flow {
        Flow {
            direction: self.direction,
            taken: self.taken@,
            given: self.given@,
            waiting: match self.direction.step {
                DirectionStep::Give(pending) => self.buffer@.take(pending as int),
                _ => Seq::empty(),
            },
        }
    }
}

impl CopyDirection {
    /// The bytes of the buffer.
    pub closed spec fn bytes(self) -> Seq<u8> {
        self.buffer@
    }

    /// The bytes that wait are in the buffer.
    pub open spec fn wf(self) -> bool {
        self@.direction.step matches DirectionStep::Give(pending) ==> pending <= self.bytes().len()
    }

    /// A direction at its start, which copies through `buffer`.
    pub fn new(buffer: PooledBuffer) -> (result: CopyDirection)
        ensures
            result@ == flow_start(),
            result.bytes() == buffer@,
            result.wf(),
    {
        CopyDirection {
            buffer,
            direction: Direction::start(),
            taken: Ghost(Seq::empty()),
            given: Ghost(Seq::empty()),
        }
    }

    /// What the direction does next.
    pub fn step(&self) -> (result: DirectionStep)
        ensures
            result == self@.direction.step,
    {
        self.direction.step
    }

    /// How many bytes the destination got.
    pub fn copied(&self) -> (result: u64)
        ensures
            result == self@.direction.copied,
    {
        self.direction.copied
    }

    /// Room for bytes of the source, to be overwritten from its start.
    pub fn room(&mut self) -> (result: &mut [u8])
        requires
            old(self)@.direction.step == DirectionStep::Take,
        ensures
            result@ == old(self).bytes(),
            final(self).bytes() == final(result)@,
            final(self)@ == old(self)@,
    {
        self.buffer.as_mut_slice()
    }

    /// Goes on after the source overwrote the first `count` bytes of the room; none at its end.
    pub fn taken(&mut self, count: usize)
        requires
            old(self)@.direction.step == DirectionStep::Take,
            count <= old(self).bytes().len(),
        ensures
            final(self)@ == flow_taken(old(self)@, old(self).bytes().take(count as int)),
            final(self).bytes() == old(self).bytes(),
            final(self).wf(),
    {
        let ghost bytes = self.buffer@.take(count as int);
        self.direction.taken(count);
        self.taken = Ghost(self.taken@ + bytes);
        assert(count == 0 ==> bytes =~= Seq::empty());
    }

    /// The bytes that wait for the destination.
    pub fn waiting(&self) -> (result: &[u8])
        requires
            self.wf(),
        ensures
            result@ == self@.waiting,
    {
        match self.direction.step {
            DirectionStep::Give(pending) => self.buffer.filled(pending),
            _ => {
                let none = self.buffer.filled(0);
                assert(none@ =~= Seq::empty());
                none
            },
        }
    }

    /// Goes on after the destination got all bytes that wait for it.
    pub fn given(&mut self)
        requires
            old(self).wf(),
            old(self)@.direction.step is Give,
        ensures
            final(self)@ == flow_given(old(self)@, old(self)@.direction.step->Give_0),
            final(self).bytes() == old(self).bytes(),
            final(self).wf(),
    {
        if let DirectionStep::Give(pending) = self.direction.step {
            let ghost waiting = self@.waiting;
            self.direction.given(pending);
            self.given = Ghost(self.given@ + waiting);
            assert(waiting.take(pending as int) =~= waiting);
            if pending > 0 {
                assert(waiting.skip(pending as int) =~= Seq::empty());
            }
        }
    }

    /// The buffer, to go back to its pool.
    pub fn into_buffer(self) -> (result: PooledBuffer)
        ensures
            result@ == self.bytes(),
    {
        self.buffer
    }
}

/// What happens in one direction of a connection.
pub enum FlowEvent {
    /// These bytes were taken from the source.
    Taken(Seq<u8>),
    /// The destination got so many of the bytes that wait for it.
    Given(usize),
}

/// The event can happen in the flow. What a backend holds back it gives in the order in which
/// it took it: a copy buffer from its start, a kernel pipe from its end that was filled first.
pub open spec fn can_flow(flow: Flow, event: FlowEvent) -> bool {
    match event {
        FlowEvent::Taken(bytes) => flow.direction.step == DirectionStep::Take && bytes.len()
            <= usize::MAX,
        FlowEvent::Given(count) => flow.direction.step matches DirectionStep::Give(pending)
            && count <= pending,
    }
}

/// The flow after the first `count` of `events`.
pub open spec fn flow_after(events: Seq<FlowEvent>, count: nat) -> Flow
    decreases count,
{
    if count == 0 {
        flow_start()
    } else {
        let before = flow_after(events, (count - 1) as nat);
        match events[count - 1] {
            FlowEvent::Taken(bytes) => flow_taken(before, bytes),
            FlowEvent::Given(given) => flow_given(before, given),
        }
    }
}

/// The first `count` of `events` can happen in a flow, one after the other, from its start.
pub open spec fn is_flow_run(events: Seq<FlowEvent>, count: nat) -> bool
    decreases count,
{
    count > 0 ==> is_flow_run(events, (count - 1) as nat) && can_flow(
        flow_after(events, (count - 1) as nat),
        events[count - 1],
    )
}

/// A counter of 64 bits holds a total up to multiples of its range.
pub(crate) proof fn lemma_counted_total(counter: u64, total: int, amount: u64)
    requires
        0 <= total,
        counter == total % 0x1_0000_0000_0000_0000,
    ensures
        crate::metrics::counted(counter, amount) == (total + amount) % 0x1_0000_0000_0000_0000,
{
}

pub(crate) proof fn lemma_flow(events: Seq<FlowEvent>, count: nat)
    requires
        is_flow_run(events, count),
    ensures
        ({
            let flow = flow_after(events, count);
            &&& flow.taken == flow.given + flow.waiting
            &&& flow.direction.copied == flow.given.len() % 0x1_0000_0000_0000_0000
            &&& match flow.direction.step {
                DirectionStep::Take => flow.waiting.len() == 0,
                DirectionStep::Give(pending) => flow.waiting.len() == pending,
                DirectionStep::Finish => flow.waiting.len() == 0,
                DirectionStep::Broken => true,
            }
        }),
    decreases count,
{
    if count > 0 {
        lemma_flow(events, (count - 1) as nat);
        let before = flow_after(events, (count - 1) as nat);
        let after = flow_after(events, count);
        match events[count - 1] {
            FlowEvent::Taken(bytes) => {
                assert(before.taken =~= before.given);
                assert(after.taken =~= after.given + after.waiting);
            },
            FlowEvent::Given(given) => {
                assert(before.waiting =~= before.waiting.take(given as int) + after.waiting);
                assert(after.taken =~= after.given + after.waiting);
                lemma_counted_total(before.direction.copied, before.given.len() as int, given as u64);
            },
        }
    }
}

/// No byte is lost, changed or made up. At any time, what the destination got is the start of
/// what was taken from the source, and it is all of it once the end of the source is passed on.
/// Bytes are counted in 64 bits.
pub proof fn directions_keep_bytes(events: Seq<FlowEvent>, count: nat)
    requires
        is_flow_run(events, count),
    ensures
        ({
            let flow = flow_after(events, count);
            &&& flow.given.is_prefix_of(flow.taken)
            &&& flow.direction.step == DirectionStep::Finish ==> flow.given == flow.taken
            &&& flow.direction.copied == flow.given.len() % 0x1_0000_0000_0000_0000
        }),
{
    lemma_flow(events, count);
    let flow = flow_after(events, count);
    assert(flow.given =~= flow.taken.subrange(0, flow.given.len() as int));
    if flow.direction.step == DirectionStep::Finish {
        assert(flow.given =~= flow.taken);
    }
}

/// Whatever forwards the bytes, and in whatever pieces: two flows that took the same bytes up to
/// the end of their sources gave the same bytes, and count the same number of them.
pub proof fn backends_deliver_the_same_bytes(first: Seq<FlowEvent>, second: Seq<FlowEvent>)
    requires
        is_flow_run(first, first.len()),
        is_flow_run(second, second.len()),
        flow_after(first, first.len()).direction.step == DirectionStep::Finish,
        flow_after(second, second.len()).direction.step == DirectionStep::Finish,
        flow_after(first, first.len()).taken == flow_after(second, second.len()).taken,
    ensures
        flow_after(first, first.len()).given == flow_after(second, second.len()).given,
        flow_after(first, first.len()).direction.copied == flow_after(
            second,
            second.len(),
        ).direction.copied,
{
    directions_keep_bytes(first, first.len());
    directions_keep_bytes(second, second.len());
}

/// What an idle watch does next.
#[derive(Clone, Copy, Debug, PartialEq, Eq, Structural)]
pub enum IdleStep {
    /// Waits for the whole timeout again.
    Restart,
    /// Ends the connection.
    Expire,
}

/// What an idle watch is told.
#[derive(Clone, Copy, Debug, PartialEq, Eq, Structural)]
pub enum IdleEvent {
    /// The timeout has passed.
    TimedOut,
    /// Bytes were transferred.
    Activity,
    /// Both directions have ended.
    Ended,
}

/// What an idle watch does on an event.
pub open spec fn idle_step(event: IdleEvent) -> IdleStep {
    if event == IdleEvent::Activity {
        IdleStep::Restart
    } else {
        IdleStep::Expire
    }
}

/// Goes on with an idle watch: only a transfer keeps the connection alive.
pub fn idle_watchdog(event: IdleEvent) -> (result: IdleStep)
    ensures
        result == idle_step(event),
{
    match event {
        IdleEvent::Activity => IdleStep::Restart,
        IdleEvent::TimedOut | IdleEvent::Ended => IdleStep::Expire,
    }
}

/// Why a kernel pipe could not be made.
#[derive(Clone, Copy, Debug, PartialEq, Eq, Structural)]
pub enum PipeError {
    /// The system has no such call.
    NotImplemented,
    /// The call does not take these arguments.
    InvalidArgument,
    /// The call does not do this here.
    NotSupported,
    /// Anything else.
    Other,
}

/// The error says that kernel pipes cannot be used at all.
pub open spec fn is_unsupported(error: PipeError) -> bool {
    error != PipeError::Other
}

/// Whether the error says that kernel pipes cannot be used at all.
pub fn splice_setup_error(error: PipeError) -> (unsupported: bool)
    ensures
        unsupported == is_unsupported(error),
{
    match error {
        PipeError::NotImplemented | PipeError::InvalidArgument | PipeError::NotSupported => true,
        PipeError::Other => false,
    }
}

} // verus!
