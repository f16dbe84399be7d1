//! What a proxied connection comes to: which bytes move and when a direction ends, what is
//! counted of it, and which buffers and options it gets.

use vstd::prelude::*;

use crate::config::{ForwardMode, Platform};
use crate::duration::Duration;
use crate::metrics::RelayMetricsView;
use crate::relay::{
    Backend, BufferPoolView, ConnectionEvent, ConnectionState, Direction, DirectionStep, Flow,
    FlowEvent, IdleEvent, IdleStep, PipeError, PoolEvent, ResolverView, SocketOption,
};

verus! {

/// A direction ends only with its source or because its destination takes nothing more. In every
/// run the step is to finish exactly where the last event took nothing from the source, and to
/// break off exactly where the destination got nothing of what waited for it. Bytes that were
/// taken are given next; once all of them are given, the next ones are taken.
pub proof fn directions_end_with_their_source(events: Seq<FlowEvent>, count: nat)
    requires
        0 < count <= events.len(),
        crate::relay::is_flow_run(events, count),
    ensures
        ({
            let before = crate::relay::flow_after(events, (count - 1) as nat);
            let after = crate::relay::flow_after(events, count);
            let step = after.direction.step;
            let last = events[count - 1];
            &&& step == DirectionStep::Finish <==> (last matches FlowEvent::Taken(bytes)
                && bytes.len() == 0)
            &&& step == DirectionStep::Broken <==> last == FlowEvent::Given(0)
            &&& last matches FlowEvent::Taken(bytes) ==> bytes.len() > 0 ==> step
                == DirectionStep::Give(bytes.len() as usize)
            &&& last matches FlowEvent::Given(given) ==> given > 0 && given == before.waiting.len()
                ==> step == DirectionStep::Take
            &&& last matches FlowEvent::Given(given) ==> 0 < given < before.waiting.len() ==> step
                == DirectionStep::Give((before.waiting.len() - given) as usize)
            &&& last matches FlowEvent::Given(given) ==> given <= before.waiting.len()
        }),
{
    crate::relay::lemma_flow(events, (count - 1) as nat);
    crate::relay::lemma_flow(events, count);
}

/// Nothing stands in the way of a direction: as long as it takes, any bytes of the source can
/// come, or its end; as long as it gives, any part of what waits can go; once it has ended,
/// nothing happens to it any more. It starts with taking.
pub proof fn directions_go_on_until_they_end(flow: Flow, bytes: Seq<u8>, given: usize)
    requires
        bytes.len() <= usize::MAX,
    ensures
        crate::relay::flow_start().direction.step == DirectionStep::Take,
        crate::relay::flow_start().direction.copied == 0,
        crate::relay::flow_start().taken.len() == 0,
        crate::relay::flow_start().given.len() == 0,
        crate::relay::can_flow(flow, FlowEvent::Taken(bytes)) <==> flow.direction.step
            == DirectionStep::Take,
        crate::relay::can_flow(flow, FlowEvent::Given(given)) <==> (
        flow.direction.step matches DirectionStep::Give(pending) && given <= pending),
{
}

/// The bytes that the first `count` of `events` took from the source.
pub open spec fn all_taken(events: Seq<FlowEvent>, count: nat) -> Seq<u8>
    decreases count,
{
    if count == 0 {
        Seq::empty()
    } else {
        match events[count - 1] {
            FlowEvent::Taken(bytes) => all_taken(events, (count - 1) as nat) + bytes,
            FlowEvent::Given(_) => all_taken(events, (count - 1) as nat),
        }
    }
}

/// How many bytes the first `count` of `events` gave to the destination.
pub open spec fn number_given(events: Seq<FlowEvent>, count: nat) -> nat
    decreases count,
{
    if count == 0 {
        0
    } else {
        match events[count - 1] {
            FlowEvent::Taken(_) => number_given(events, (count - 1) as nat),
            FlowEvent::Given(given) => number_given(events, (count - 1) as nat) + given as nat,
        }
    }
}

/// The destination gets the bytes of the source in their order, as many as the events say, and
/// exactly these are counted, in 64 bits. What it did not get yet waits for it.
pub proof fn destinations_get_what_was_taken(events: Seq<FlowEvent>, count: nat)
    requires
        count <= events.len(),
        crate::relay::is_flow_run(events, count),
    ensures
        ({
            let flow = crate::relay::flow_after(events, count);
            let number = number_given(events, count);
            &&& flow.taken == all_taken(events, count)
            &&& number <= all_taken(events, count).len()
            &&& flow.given == all_taken(events, count).take(number as int)
            &&& flow.waiting == all_taken(events, count).skip(number as int)
            &&& flow.direction.copied == number % 0x1_0000_0000_0000_0000
        }),
    decreases count,
{
    crate::relay::lemma_flow(events, count);
    let flow = crate::relay::flow_after(events, count);
    if count > 0 {
        destinations_get_what_was_taken(events, (count - 1) as nat);
        crate::relay::lemma_flow(events, (count - 1) as nat);
    }
    assert(flow.given.len() == number_given(events, count));
    assert(flow.taken =~= all_taken(events, count));
    assert(flow.given =~= flow.taken.take(number_given(events, count) as int));
    assert(flow.waiting =~= flow.taken.skip(number_given(events, count) as int));
}

/// `after` is a counter of 64 bits that held `before` and went up by `amount`.
pub open spec fn went_up(before: u64, after: u64, amount: int) -> bool {
    after == (before + amount) % 0x1_0000_0000_0000_0000
}

/// A connection runs in exactly one of these ways: it ends while the upstream is connected to,
/// by force, failure or timeout; or the upstream is connected, and it ends by force, by a failure
/// or an idle timeout, or because both directions have ended.
pub proof fn connections_run_one_of_these_ways(events: Seq<ConnectionEvent>)
    ensures
        crate::relay::is_whole_run(events) <==> {
            ||| events.len() == 1 && (events[0] == ConnectionEvent::Forced || events[0]
                == ConnectionEvent::ConnectFailed || events[0] == ConnectionEvent::ConnectTimedOut)
            ||| events.len() == 2 && events[0] == ConnectionEvent::Connected && (events[1]
                == ConnectionEvent::Forced || events[1] == ConnectionEvent::IdleTimedOut
                || events[1] == ConnectionEvent::ForwardFailed || events[1] is Transferred)
        },
        crate::relay::state_after(events, 0) == ConnectionState::Connecting,
{
    if crate::relay::is_whole_run(events) {
        assert(events.len() > 0);
        assert(crate::relay::can_happen(crate::relay::state_after(events, 0), events[0]));
        if events.len() > 1 {
            assert(crate::relay::can_happen(crate::relay::state_after(events, 1), events[1]));
            if events.len() > 2 {
                assert(crate::relay::can_happen(crate::relay::state_after(events, 2), events[2]));
            }
        }
    }
}

/// Every way to end but by a transfer moves no counted bytes.
pub open spec fn bytes_of_end(event: ConnectionEvent) -> (u64, u64) {
    match event {
        ConnectionEvent::Transferred { client_to_upstream, upstream_to_client } => (
            client_to_upstream,
            upstream_to_client,
        ),
        _ => (0, 0),
    }
}

/// One or none.
pub open spec fn once(happened: bool) -> int {
    if happened {
        1
    } else {
        0
    }
}

/// What a connection counts as, from its start to its end: its bytes in both directions, all of
/// them and in their own counters; one closed connection, no longer active; its failure or
/// timeout, once, in its own counter; and how long it lasted, once. Nothing else changes.
pub proof fn connections_count_what_they_were(
    metrics: RelayMetricsView,
    events: Seq<ConnectionEvent>,
    times: Seq<Duration>,
)
    requires
        crate::relay::is_whole_run(events),
        times.len() == events.len(),
    ensures
        ({
            let after = crate::relay::metrics_after_all(metrics, events, times, events.len());
            let last = events.last();
            let (client_to_upstream, upstream_to_client) = bytes_of_end(last);
            &&& went_up(
                metrics.bytes_client_to_upstream,
                after.bytes_client_to_upstream,
                client_to_upstream as int,
            )
            &&& went_up(
                metrics.bytes_upstream_to_client,
                after.bytes_upstream_to_client,
                upstream_to_client as int,
            )
            &&& went_up(metrics.connections_closed, after.connections_closed, 1)
            &&& went_up(metrics.active_connections, after.active_connections, -1)
            &&& went_up(
                metrics.upstream_connect_failures,
                after.upstream_connect_failures,
                once(last == ConnectionEvent::ConnectFailed),
            )
            &&& went_up(
                metrics.upstream_connect_timeouts,
                after.upstream_connect_timeouts,
                once(last == ConnectionEvent::ConnectTimedOut),
            )
            &&& went_up(
                metrics.idle_timeouts,
                after.idle_timeouts,
                once(last == ConnectionEvent::IdleTimedOut),
            )
            &&& after.name == metrics.name
            &&& after.connections_accepted == metrics.connections_accepted
            &&& after.connections_rejected == metrics.connections_rejected
            &&& after.connection_duration == crate::metrics::observed(
                metrics.connection_duration,
                times.last(),
            )
            &&& after.upstream_connect_duration == metrics.upstream_connect_duration
        }),
{
    crate::relay::connections_close_once(metrics, events, times);
}

/// A connection whose two directions have both ended counts exactly the bytes of each: what
/// forwarding reports reaches the two counters, whatever the numbers are.
pub proof fn transfers_count_their_bytes(
    metrics: RelayMetricsView,
    events: Seq<ConnectionEvent>,
    times: Seq<Duration>,
    client_to_upstream: u64,
    upstream_to_client: u64,
)
    requires
        crate::relay::is_whole_run(events),
        times.len() == events.len(),
        events.last() == crate::relay::ended_event(
            Ok::<(u64, u64), bool>((client_to_upstream, upstream_to_client)),
        ),
    ensures
        ({
            let after = crate::relay::metrics_after_all(metrics, events, times, events.len());
            &&& after.bytes_client_to_upstream == crate::metrics::counted(
                metrics.bytes_client_to_upstream,
                client_to_upstream,
            )
            &&& after.bytes_upstream_to_client == crate::metrics::counted(
                metrics.bytes_upstream_to_client,
                upstream_to_client,
            )
            &&& went_up(
                metrics.bytes_client_to_upstream,
                after.bytes_client_to_upstream,
                client_to_upstream as int,
            )
            &&& went_up(
                metrics.bytes_upstream_to_client,
                after.bytes_upstream_to_client,
                upstream_to_client as int,
            )
        }),
{
    connections_count_what_they_were(metrics, events, times);
}

/// The end of forwarding is told as it was: a transfer with both its numbers, an idle timeout as
/// such, and every other error as a failure.
pub proof fn ends_of_forwarding_are_told(client_to_upstream: u64, upstream_to_client: u64)
    ensures
        crate::relay::ended_event(Ok::<(u64, u64), bool>((client_to_upstream, upstream_to_client)))
            == (ConnectionEvent::Transferred { client_to_upstream, upstream_to_client }),
        crate::relay::ended_event(Err::<(u64, u64), bool>(true)) == ConnectionEvent::IdleTimedOut,
        crate::relay::ended_event(Err::<(u64, u64), bool>(false)) == ConnectionEvent::ForwardFailed,
{
}

/// Only asking for kernel pipes, on Linux, gives them.
pub proof fn pipes_are_used_where_asked_for(forward_mode: ForwardMode, platform: Platform)
    ensures
        crate::relay::backend_for(forward_mode, platform) == Backend::Splice <==> forward_mode
            == ForwardMode::Splice && platform.linux,
{
}

/// Only a transfer lets the idle watch start over.
pub proof fn only_transfers_keep_alive()
    ensures
        crate::relay::idle_step(IdleEvent::Activity) == IdleStep::Restart,
        crate::relay::idle_step(IdleEvent::TimedOut) == IdleStep::Expire,
        crate::relay::idle_step(IdleEvent::Ended) == IdleStep::Expire,
{
}

/// Every error that says that the system lacks the call counts as such.
pub proof fn missing_pipes_are_unsupported()
    ensures
        crate::relay::is_unsupported(PipeError::NotImplemented),
        crate::relay::is_unsupported(PipeError::InvalidArgument),
        crate::relay::is_unsupported(PipeError::NotSupported),
        !crate::relay::is_unsupported(PipeError::Other),
{
}

/// A resolver that is refreshed uses what the address resolved to last, and the address itself
/// where that was nothing; one that is not refreshed uses the address always. The address never
/// changes.
pub proof fn last_addresses_are_used<A>(
    address: Seq<char>,
    refresh_enabled: bool,
    earlier: Seq<A>,
    last: Seq<A>,
)
    ensures
        ({
            let fresh = ResolverView::<A>::unresolved(address, refresh_enabled);
            let once = fresh.after_refresh(last);
            let twice = fresh.after_refresh(earlier).after_refresh(last);
            &&& !fresh.has_addresses()
            &&& fresh.address == address
            &&& once.address == address
            &&& once.has_addresses() <==> refresh_enabled && last.len() > 0
            &&& refresh_enabled ==> once.resolved == Some(last)
            &&& !refresh_enabled ==> once.resolved is None
            &&& twice == once
        }),
{
}

/// A connection by name stands where it could be made. Where it could not, the error of the kept
/// addresses is reported if they were tried, and its own otherwise.
pub proof fn first_errors_are_reported<S, E>(stream: S, first: E, second: E)
    ensures
        crate::relay::connect_outcome(Some(first), Ok::<S, E>(stream)) == Ok::<S, E>(stream),
        crate::relay::connect_outcome(None::<E>, Ok::<S, E>(stream)) == Ok::<S, E>(stream),
        crate::relay::connect_outcome(Some(first), Err::<S, E>(second)) == Err::<S, E>(first),
        crate::relay::connect_outcome(None::<E>, Err::<S, E>(second)) == Err::<S, E>(second),
{
}

/// A buffer that came back goes out next, and then the pool is as it was before it came back; a
/// pool to which none came back hands out new buffers, of its size and all zero.
pub proof fn buffers_are_used_again(pool: BufferPoolView, buffer: Seq<u8>)
    ensures
        pool.after_release(buffer).next() == buffer,
        pool.after_release(buffer).after_take() == pool,
        pool.after_release(buffer).permits == pool.permits + 1,
        pool.after_release(buffer).free.len() == pool.free.len() + 1,
        pool.permits > 0 ==> pool.after_take().permits == pool.permits - 1,
        pool.free.len() > 0 ==> pool.after_take().free.len() == pool.free.len() - 1,
        pool.free.len() == 0 ==> pool.after_take().free.len() == 0,
        pool.free.len() == 0 ==> pool.next().len() == pool.buffer_size && forall|i: int|
            0 <= i < pool.next().len() ==> #[trigger] pool.next()[i] == 0,
        pool.after_take().buffer_size == pool.buffer_size,
        pool.after_take().capacity == pool.capacity,
{
    assert(pool.after_release(buffer).free.drop_last() =~= pool.free);
}

/// Pairs can be handed out as often as the pool has room for two, and no more often: after
/// `count` pairs from a full pool twice as many buffers are out.
pub proof fn pairs_use_two_buffers(pool: BufferPoolView, events: Seq<PoolEvent>, count: nat)
    requires
        pool.wf(),
        pool.permits == pool.capacity,
        count <= events.len(),
        forall|i: int| 0 <= i < count ==> #[trigger] events[i] == PoolEvent::PairTaken,
    ensures
        crate::relay::is_pool_run(pool, events, count) <==> 2 * count <= pool.capacity,
        2 * count <= pool.capacity ==> {
            let (after, out) = crate::relay::pool_after(pool, events, count);
            out == 2 * count && after.permits == pool.capacity - 2 * count
        },
    decreases count,
{
    if count > 0 {
        pairs_use_two_buffers(pool, events, (count - 1) as nat);
    }
}

/// Every proxied socket sends small segments at once. Keepalive probes and both buffer sizes are
/// set exactly where they are configured, with the configured values; nothing is set twice, and
/// buffer sizes come first.
pub proof fn sockets_get_their_options(
    keepalive: Option<Duration>,
    socket_buffer_size: Option<usize>,
)
    ensures
        ({
            let options = crate::relay::socket_option_list(keepalive, socket_buffer_size);
            let start: int = if socket_buffer_size is Some {
                2
            } else {
                0
            };
            &&& options.len() == start + 1 + once(keepalive is Some)
            &&& options[start] == SocketOption::NoDelay
            &&& keepalive matches Some(duration) ==> options[start + 1] == SocketOption::KeepAlive(
                duration,
            )
            &&& socket_buffer_size matches Some(size) ==> options[0] == SocketOption::ReceiveBuffer(
                size,
            ) && options[1] == SocketOption::SendBuffer(size)
        }),
{
}

/// A direction starts with taking. It goes on by the counts of what was taken and given, whatever
/// they are: no bytes taken is the end of the source, no bytes given is a destination that takes
/// nothing more, and all that was taken is given before more is taken. Only bytes that were given
/// count.
pub proof fn directions_go_by_counts(direction: Direction, count: usize)
    ensures
        crate::relay::direction_start() == (Direction { copied: 0, step: DirectionStep::Take }),
        ({
            let after = crate::relay::after_taken(direction, count);
            &&& after.copied == direction.copied
            &&& after.step == DirectionStep::Finish <==> count == 0
            &&& count > 0 ==> after.step == DirectionStep::Give(count)
        }),
        direction.step matches DirectionStep::Give(pending) ==> {
            let after = crate::relay::after_given(direction, count);
            &&& after.step == DirectionStep::Broken <==> count == 0
            &&& 0 < count == pending ==> after.step == DirectionStep::Take
            &&& 0 < count < pending ==> after.step == DirectionStep::Give(
                (pending - count) as usize,
            )
            &&& after.step != DirectionStep::Finish
            &&& count as u64 == count ==> went_up(direction.copied, after.copied, count as int)
        },
{
}

/// A flow keeps what was taken and given in order: taking appends to what was taken and waits,
/// giving moves the first of what waits.
pub proof fn flows_keep_order(flow: Flow, bytes: Seq<u8>, count: usize)
    ensures
        ({
            let after = crate::relay::flow_taken(flow, bytes);
            &&& after.taken == flow.taken + bytes
            &&& after.given == flow.given
            &&& after.waiting == bytes
        }),
        count <= flow.waiting.len() ==> {
            let after = crate::relay::flow_given(flow, count);
            &&& after.taken == flow.taken
            &&& after.given == flow.given + flow.waiting.subrange(0, count as int)
            &&& flow.waiting.subrange(0, count as int) + after.waiting == flow.waiting
        },
{
    if count <= flow.waiting.len() {
        assert(flow.waiting.take(count as int) =~= flow.waiting.subrange(0, count as int));
        assert(flow.waiting.subrange(0, count as int) + flow.waiting.skip(count as int)
            =~= flow.waiting);
    }
}

/// What a pool holds is the bytes of each of its buffers, in order.
pub proof fn pools_hold_their_buffers(buffers: Seq<Vec<u8>>, index: int)
    requires
        0 <= index < buffers.len(),
    ensures
        crate::relay::buffer_views(buffers).len() == buffers.len(),
        crate::relay::buffer_views(buffers)[index] == buffers[index]@,
{
}

} // verus!
