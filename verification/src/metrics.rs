//! Connection counters and their text in the Prometheus exposition format.

use std::sync::Arc;

use vstd::prelude::*;

use crate::duration::Duration;
use crate::seconds::{push_micros, seconds_string};
use crate::text::push_decimal;

verus! {

/// The upper bounds of the duration buckets, in milliseconds.
pub open spec fn bucket_bounds() -> Seq<u64> {
    seq![1u64, 5, 10, 25, 50, 100, 250, 500, 1_000, 5_000, 30_000, 300_000]
}

/// The upper bounds of the duration buckets, in milliseconds.
fn duration_buckets_millis() -> (result: [u64; 12])
    ensures
        result@ == bucket_bounds(),
{
    [1, 5, 10, 25, 50, 100, 250, 500, 1_000, 5_000, 30_000, 300_000]
}

/// A counter of 64 bits that went up by `amount`. It starts over at zero beyond the last number.
pub open spec fn counted(counter: u64, amount: u64) -> u64 {
    if counter + amount > u64::MAX {
        (counter + amount - 0x1_0000_0000_0000_0000) as u64
    } else {
        (counter + amount) as u64
    }
}

/// A counter of 64 bits that went down by one. It goes on at the last number below zero.
pub open spec fn uncounted(counter: u64) -> u64 {
    if counter == 0 {
        u64::MAX
    } else {
        (counter - 1) as u64
    }
}

/// A number as far as 64 bits hold it.
pub open spec fn capped(number: nat) -> u64 {
    if number > u64::MAX {
        u64::MAX
    } else {
        number as u64
    }
}

/// The first bucket from `from` on whose bound is not below `millis`; 12 where there is none.
pub open spec fn bucket_from(millis: nat, from: nat) -> nat
    decreases 12 - from,
{
    if from >= 12 {
        12
    } else if millis <= bucket_bounds()[from as int] {
        from
    } else {
        bucket_from(millis, from + 1)
    }
}

/// What a histogram of durations holds: how many observations fell into each bucket, how many
/// there were, and the sum of all in microseconds.
pub struct HistogramView {
    pub buckets: Seq<u64>,
    pub count: u64,
    pub sum_micros: u64,
}

impl HistogramView {
    /// There is one counter for each bound.
    pub open spec fn wf(self) -> bool {
        self.buckets.len() == bucket_bounds().len()
    }
}

/// A histogram without observations.
pub open spec fn empty_histogram() -> HistogramView {
    HistogramView { buckets: Seq::new(12, |i: int| 0u64), count: 0, sum_micros: 0 }
}

/// A histogram with one more observation.
pub open spec fn observed(histogram: HistogramView, duration: Duration) -> HistogramView {
    let bucket = bucket_from(duration.total_nanos() / 1_000_000, 0);
    HistogramView {
        buckets: if bucket < 12 {
            histogram.buckets.update(
                bucket as int,
                counted(histogram.buckets[bucket as int], 1),
            )
        } else {
            histogram.buckets
        },
        count: counted(histogram.count, 1),
        sum_micros: counted(histogram.sum_micros, capped(duration.total_nanos() / 1_000)),
    }
}

/// How many observations the first `count` buckets hold together.
pub open spec fn cumulative(buckets: Seq<u64>, count: nat) -> u64
    decreases count,
{
    if count == 0 {
        0
    } else {
        counted(cumulative(buckets, (count - 1) as nat), buckets[count - 1])
    }
}

/// A sample of a bucket with the upper bound `bound`.
#[verifier::opaque]
pub open spec fn bucket_line(
    metric_name: Seq<char>,
    relay_label: Seq<char>,
    bound: Seq<char>,
    value: u64,
) -> Seq<char> {
    metric_name + "_bucket{relay=\""@ + relay_label + "\",le=\""@ + bound + "\"} "@
        + crate::text::decimal(value as nat) + "\n"@
}

/// A sample of a metric with the suffix `suffix` and the value `value`.
#[verifier::opaque]
pub open spec fn sample_line(
    metric_name: Seq<char>,
    suffix: Seq<char>,
    relay_label: Seq<char>,
    value: Seq<char>,
) -> Seq<char> {
    metric_name + suffix + "{relay=\""@ + relay_label + "\"} "@ + value + "\n"@
}

/// The samples of the first `count` buckets, each of which counts the smaller ones too.
pub open spec fn bucket_lines(
    buckets: Seq<u64>,
    metric_name: Seq<char>,
    relay_label: Seq<char>,
    count: nat,
) -> Seq<char>
    decreases count,
{
    if count == 0 {
        Seq::empty()
    } else {
        bucket_lines(buckets, metric_name, relay_label, (count - 1) as nat) + bucket_line(
            metric_name,
            relay_label,
            crate::seconds::millis_text(bucket_bounds()[count - 1] as nat),
            cumulative(buckets, count),
        )
    }
}

/// The samples of a histogram.
#[verifier::opaque]
pub open spec fn histogram_text(
    histogram: HistogramView,
    metric_name: Seq<char>,
    relay_label: Seq<char>,
) -> Seq<char> {
    bucket_lines(histogram.buckets, metric_name, relay_label, 12) + bucket_line(
        metric_name,
        relay_label,
        "+Inf"@,
        histogram.count,
    ) + sample_line(
        metric_name,
        "_sum"@,
        relay_label,
        crate::seconds::micros_text(histogram.sum_micros as nat),
    ) + sample_line(
        metric_name,
        "_count"@,
        relay_label,
        crate::text::decimal(histogram.count as nat),
    )
}

fn push_bucket_line(
    output: &mut String,
    metric_name: &str,
    relay_label: &str,
    bound: &str,
    value: u64,
)
    ensures
        final(output)@ == old(output)@ + bucket_line(metric_name@, relay_label@, bound@, value),
{
    proof {
        reveal(bucket_line);
    }
    output.append(metric_name);
    output.append("_bucket{relay=\"");
    output.append(relay_label);
    output.append("\",le=\"");
    output.append(bound);
    output.append("\"} ");
    push_decimal(output, value as u128);
    output.append("\n");
}

fn push_sample_line(
    output: &mut String,
    metric_name: &str,
    suffix: &str,
    relay_label: &str,
    value: u64,
)
    ensures
        final(output)@ == old(output)@ + sample_line(
            metric_name@,
            suffix@,
            relay_label@,
            crate::text::decimal(value as nat),
        ),
{
    proof {
        reveal(sample_line);
    }
    output.append(metric_name);
    output.append(suffix);
    output.append("{relay=\"");
    output.append(relay_label);
    output.append("\"} ");
    push_decimal(output, value as u128);
    output.append("\n");
}

/// A histogram of durations.
#[derive(Clone, Debug)]
pub struct Histogram {
    buckets: [u64; 12],
    count: u64,
    sum_micros: u64,
}

impl View for Histogram {
    type V = HistogramView;

    closed spec fn view(&self) -> HistogramView {
        HistogramView { buckets: self.buckets@, count: self.count, sum_micros: self.sum_micros }
    }
}

impl Histogram {
    /// A histogram without observations.
    pub fn new() -> (result: Histogram)
        ensures
            result@ == empty_histogram(),
            result@.wf(),
    {
        let buckets: [u64; 12] = [0; 12];
        assert(buckets@ =~= empty_histogram().buckets);
        Histogram { buckets, count: 0, sum_micros: 0 }
    }

    /// Counts an observation.
    pub fn observe(&mut self, duration: Duration)
        ensures
            final(self)@ == observed(old(self)@, duration),
            final(self)@.wf(),
    {
        let bounds = duration_buckets_millis();
        let millis = duration.as_millis();
        let mut index: usize = 0;
        while index < 12 && millis > bounds[index] as u128
            invariant
                index <= 12,
                bounds@ == bucket_bounds(),
                bucket_from(millis as nat, 0) == bucket_from(millis as nat, index as nat),
            decreases 12 - index,
        {
            index = index + 1;
        }
        if index < 12 {
            self.buckets[index] = self.buckets[index].wrapping_add(1);
        }
        self.count = self.count.wrapping_add(1);
        let micros = duration.as_micros();
        let micros: u64 = if micros > u64::MAX as u128 {
            u64::MAX
        } else {
            micros as u64
        };
        self.sum_micros = self.sum_micros.wrapping_add(micros);
    }

    /// Appends the samples of the histogram.
    pub fn render(&self, output: &mut String, metric_name: &str, relay_label: &str)
        ensures
            final(output)@ == old(output)@ + histogram_text(self@, metric_name@, relay_label@),
    {
        proof {
            reveal(histogram_text);
            reveal(sample_line);
        }
        let bounds = duration_buckets_millis();
        let mut sum: u64 = 0;
        let mut index: usize = 0;
        let ghost before = output@;
        while index < 12
            invariant
                index <= 12,
                bounds@ == bucket_bounds(),
                sum == cumulative(self@.buckets, index as nat),
                output@ == before + bucket_lines(
                    self@.buckets,
                    metric_name@,
                    relay_label@,
                    index as nat,
                ),
            decreases 12 - index,
        {
            sum = sum.wrapping_add(self.buckets[index]);
            let bound = seconds_string(bounds[index]);
            push_bucket_line(output, metric_name, relay_label, bound.as_str(), sum);
            index = index + 1;
        }
        push_bucket_line(output, metric_name, relay_label, "+Inf", self.count);
        output.append(metric_name);
        output.append("_sum");
        output.append("{relay=\"");
        output.append(relay_label);
        output.append("\"} ");
        push_micros(output, self.sum_micros);
        output.append("\n");
        push_sample_line(output, metric_name, "_count", relay_label, self.count);
    }
}

/// A character as it stands in the value of a label.
pub open spec fn escaped_char(c: char) -> Seq<char> {
    if c == '\\' {
        "\\\\"@
    } else if c == '"' {
        "\\\""@
    } else if c == '\n' {
        "\\n"@
    } else {
        seq![c]
    }
}

/// A text as it stands in the value of a label.
pub open spec fn escaped(text: Seq<char>) -> Seq<char>
    decreases text.len(),
{
    if text.len() == 0 {
        Seq::empty()
    } else {
        escaped(text.drop_last()) + escaped_char(text.last())
    }
}

/// A text as it stands in the value of a label.
pub fn escape_label(value: &str) -> (result: String)
    ensures
        result@ == escaped(value@),
{
    let mut label = String::new();
    for c in it: value.chars()
        invariant
            it.seq() == value@,
            label@ == escaped(value@.take(it.index() as int)),
    {
        assert(value@.take(it.index() + 1).drop_last() =~= value@.take(it.index() as int));
        assert(value@.take(it.index() + 1).last() == c);
        if c == '\\' {
            label.append("\\\\");
        } else if c == '"' {
            label.append("\\\"");
        } else if c == '\n' {
            label.append("\\n");
        } else {
            label.push(c);
            assert(label@ =~= escaped(value@.take(it.index() as int)) + seq![c]);
        }
    }
    assert(value@.take(value@.len() as int) =~= value@);
    label
}

/// What the counters of a relay hold.
pub struct RelayMetricsView {
    pub name: Seq<char>,
    pub active_connections: u64,
    pub connections_accepted: u64,
    pub connections_rejected: u64,
    pub connections_closed: u64,
    pub upstream_connect_failures: u64,
    pub upstream_connect_timeouts: u64,
    pub idle_timeouts: u64,
    pub bytes_client_to_upstream: u64,
    pub bytes_upstream_to_client: u64,
    pub connection_duration: HistogramView,
    pub upstream_connect_duration: HistogramView,
}

/// The counters of the relay called `name` before any connection.
pub open spec fn fresh_metrics(name: Seq<char>) -> RelayMetricsView {
    RelayMetricsView {
        name,
        active_connections: 0,
        connections_accepted: 0,
        connections_rejected: 0,
        connections_closed: 0,
        upstream_connect_failures: 0,
        upstream_connect_timeouts: 0,
        idle_timeouts: 0,
        bytes_client_to_upstream: 0,
        bytes_upstream_to_client: 0,
        connection_duration: empty_histogram(),
        upstream_connect_duration: empty_histogram(),
    }
}

impl RelayMetricsView {
    /// Both histograms have one counter for each bound.
    pub open spec fn wf(self) -> bool {
        self.connection_duration.wf() && self.upstream_connect_duration.wf()
    }

    /// The counters after one more connection was accepted.
    pub open spec fn after_accepted(self) -> RelayMetricsView {
        RelayMetricsView {
            active_connections: counted(self.active_connections, 1),
            connections_accepted: counted(self.connections_accepted, 1),
            ..self
        }
    }

    /// The counters after one more connection was turned away.
    pub open spec fn after_rejected(self) -> RelayMetricsView {
        RelayMetricsView { connections_rejected: counted(self.connections_rejected, 1), ..self }
    }

    /// The counters after a connection ended that had moved the given numbers of bytes.
    pub open spec fn after_closed(
        self,
        duration: Duration,
        client_to_upstream: u64,
        upstream_to_client: u64,
    ) -> RelayMetricsView {
        RelayMetricsView {
            active_connections: uncounted(self.active_connections),
            connections_closed: counted(self.connections_closed, 1),
            bytes_client_to_upstream: counted(self.bytes_client_to_upstream, client_to_upstream),
            bytes_upstream_to_client: counted(self.bytes_upstream_to_client, upstream_to_client),
            connection_duration: observed(self.connection_duration, duration),
            ..self
        }
    }

    /// The counters after one more failure to connect to the upstream.
    pub open spec fn after_upstream_failure(self) -> RelayMetricsView {
        RelayMetricsView {
            upstream_connect_failures: counted(self.upstream_connect_failures, 1),
            ..self
        }
    }

    /// The counters after connecting to the upstream took too long once more.
    pub open spec fn after_upstream_timeout(self) -> RelayMetricsView {
        RelayMetricsView {
            upstream_connect_timeouts: counted(self.upstream_connect_timeouts, 1),
            ..self
        }
    }

    /// The counters after one more connection was idle for too long.
    pub open spec fn after_idle_timeout(self) -> RelayMetricsView {
        RelayMetricsView { idle_timeouts: counted(self.idle_timeouts, 1), ..self }
    }

    /// The counters after a connection to the upstream took `duration` to establish.
    pub open spec fn after_upstream_connect(self, duration: Duration) -> RelayMetricsView {
        RelayMetricsView {
            upstream_connect_duration: observed(self.upstream_connect_duration, duration),
            ..self
        }
    }
}

/// The sample of a counter.
pub open spec fn counter_line(metric_name: Seq<char>, relay_label: Seq<char>, value: u64) -> Seq<
    char,
> {
    sample_line(metric_name, ""@, relay_label, crate::text::decimal(value as nat))
}

/// The samples of a relay.
#[verifier::opaque]
pub open spec fn relay_text(metrics: RelayMetricsView) -> Seq<char> {
    let label = escaped(metrics.name);
    counter_line("portrelay_active_connections"@, label, metrics.active_connections)
        + counter_line(
        "portrelay_connections_accepted_total"@,
        label,
        metrics.connections_accepted,
    ) + counter_line("portrelay_connections_rejected_total"@, label, metrics.connections_rejected)
        + counter_line("portrelay_connections_closed_total"@, label, metrics.connections_closed)
        + counter_line(
        "portrelay_upstream_connect_failures_total"@,
        label,
        metrics.upstream_connect_failures,
    ) + counter_line(
        "portrelay_upstream_connect_timeouts_total"@,
        label,
        metrics.upstream_connect_timeouts,
    ) + counter_line("portrelay_idle_timeouts_total"@, label, metrics.idle_timeouts) + counter_line(
        "portrelay_bytes_client_to_upstream_total"@,
        label,
        metrics.bytes_client_to_upstream,
    ) + counter_line(
        "portrelay_bytes_upstream_to_client_total"@,
        label,
        metrics.bytes_upstream_to_client,
    ) + histogram_text(
        metrics.connection_duration,
        "portrelay_connection_duration_seconds"@,
        label,
    ) + histogram_text(
        metrics.upstream_connect_duration,
        "portrelay_upstream_connect_duration_seconds"@,
        label,
    )
}

/// The counters of a relay.
#[derive(Clone, Debug)]
pub struct RelayMetrics {
    name: String,
    active_connections: u64,
    connections_accepted: u64,
    connections_rejected: u64,
    connections_closed: u64,
    upstream_connect_failures: u64,
    upstream_connect_timeouts: u64,
    idle_timeouts: u64,
    bytes_client_to_upstream: u64,
    bytes_upstream_to_client: u64,
    connection_duration: Histogram,
    upstream_connect_duration: Histogram,
}

impl View for RelayMetrics {
    type V = RelayMetricsView;

    closed spec fn view(&self) -> RelayMetricsView {
        RelayMetricsView {
            name: self.name@,
            active_connections: self.active_connections,
            connections_accepted: self.connections_accepted,
            connections_rejected: self.connections_rejected,
            connections_closed: self.connections_closed,
            upstream_connect_failures: self.upstream_connect_failures,
            upstream_connect_timeouts: self.upstream_connect_timeouts,
            idle_timeouts: self.idle_timeouts,
            bytes_client_to_upstream: self.bytes_client_to_upstream,
            bytes_upstream_to_client: self.bytes_upstream_to_client,
            connection_duration: self.connection_duration@,
            upstream_connect_duration: self.upstream_connect_duration@,
        }
    }
}

impl RelayMetrics {
    /// The counters of the relay called `name` before any connection.
    pub fn new(name: &str) -> (result: RelayMetrics)
        ensures
            result@ == fresh_metrics(name@),
            result@.wf(),
    {
        RelayMetrics {
            name: name.to_owned(),
            active_connections: 0,
            connections_accepted: 0,
            connections_rejected: 0,
            connections_closed: 0,
            upstream_connect_failures: 0,
            upstream_connect_timeouts: 0,
            idle_timeouts: 0,
            bytes_client_to_upstream: 0,
            bytes_upstream_to_client: 0,
            connection_duration: Histogram::new(),
            upstream_connect_duration: Histogram::new(),
        }
    }

    /// The name of the relay.
    pub fn name(&self) -> (result: &str)
        ensures
            result@ == self@.name,
    {
        self.name.as_str()
    }

    /// Counts an accepted connection.
    pub fn accepted(&mut self)
        ensures
            final(self)@ == old(self)@.after_accepted(),
    {
        self.connections_accepted = self.connections_accepted.wrapping_add(1);
        self.active_connections = self.active_connections.wrapping_add(1);
    }

    /// Counts a connection that was turned away.
    pub fn rejected(&mut self)
        ensures
            final(self)@ == old(self)@.after_rejected(),
    {
        self.connections_rejected = self.connections_rejected.wrapping_add(1);
    }

    /// Counts the end of a connection that had moved the given numbers of bytes.
    pub fn closed(&mut self, duration: Duration, client_to_upstream: u64, upstream_to_client: u64)
        ensures
            final(self)@ == old(self)@.after_closed(
                duration,
                client_to_upstream,
                upstream_to_client,
            ),
    {
        self.active_connections = self.active_connections.wrapping_sub(1);
        self.connections_closed = self.connections_closed.wrapping_add(1);
        self.bytes_client_to_upstream =
        self.bytes_client_to_upstream.wrapping_add(client_to_upstream);
        self.bytes_upstream_to_client =
        self.bytes_upstream_to_client.wrapping_add(upstream_to_client);
        self.connection_duration.observe(duration);
    }

    /// Counts a failure to connect to the upstream.
    pub fn upstream_failure(&mut self)
        ensures
            final(self)@ == old(self)@.after_upstream_failure(),
    {
        self.upstream_connect_failures = self.upstream_connect_failures.wrapping_add(1);
    }

    /// Counts a connection to the upstream that took too long.
    pub fn upstream_timeout(&mut self)
        ensures
            final(self)@ == old(self)@.after_upstream_timeout(),
    {
        self.upstream_connect_timeouts = self.upstream_connect_timeouts.wrapping_add(1);
    }

    /// Counts a connection that was idle for too long.
    pub fn idle_timeout(&mut self)
        ensures
            final(self)@ == old(self)@.after_idle_timeout(),
    {
        self.idle_timeouts = self.idle_timeouts.wrapping_add(1);
    }

    /// Counts how long a connection to the upstream took to establish.
    pub fn observe_upstream_connect(&mut self, duration: Duration)
        ensures
            final(self)@ == old(self)@.after_upstream_connect(duration),
    {
        self.upstream_connect_duration.observe(duration);
    }

    /// Appends the samples of the relay.
    pub fn render(&self, output: &mut String)
        ensures
            final(output)@ == old(output)@ + relay_text(self@),
    {
        proof {
            reveal(relay_text);
        }
        let label = escape_label(self.name.as_str());
        let label = label.as_str();
        push_sample_line(
            output,
            "portrelay_active_connections",
            "",
            label,
            self.active_connections,
        );
        push_sample_line(
            output,
            "portrelay_connections_accepted_total",
            "",
            label,
            self.connections_accepted,
        );
        push_sample_line(
            output,
            "portrelay_connections_rejected_total",
            "",
            label,
            self.connections_rejected,
        );
        push_sample_line(
            output,
            "portrelay_connections_closed_total",
            "",
            label,
            self.connections_closed,
        );
        push_sample_line(
            output,
            "portrelay_upstream_connect_failures_total",
            "",
            label,
            self.upstream_connect_failures,
        );
        push_sample_line(
            output,
            "portrelay_upstream_connect_timeouts_total",
            "",
            label,
            self.upstream_connect_timeouts,
        );
        push_sample_line(output, "portrelay_idle_timeouts_total", "", label, self.idle_timeouts);
        push_sample_line(
            output,
            "portrelay_bytes_client_to_upstream_total",
            "",
            label,
            self.bytes_client_to_upstream,
        );
        push_sample_line(
            output,
            "portrelay_bytes_upstream_to_client_total",
            "",
            label,
            self.bytes_upstream_to_client,
        );
        self.connection_duration.render(output, "portrelay_connection_duration_seconds", label);
        self.upstream_connect_duration.render(
            output,
            "portrelay_upstream_connect_duration_seconds",
            label,
        );
    }
}

/// The description of a metric.
#[verifier::opaque]
pub open spec fn help_text(name: Seq<char>, help: Seq<char>, metric_type: Seq<char>) -> Seq<char> {
    "# HELP "@ + name + " "@ + help + "\n"@ + "# TYPE "@ + name + " "@ + metric_type + "\n"@
}

/// Appends the description of a metric.
pub fn render_help_type(output: &mut String, name: &str, help: &str, metric_type: &str)
    ensures
        final(output)@ == old(output)@ + help_text(name@, help@, metric_type@),
{
    proof {
        reveal(help_text);
    }
    output.append("# HELP ");
    output.append(name);
    output.append(" ");
    output.append(help);
    output.append("\n");
    output.append("# TYPE ");
    output.append(name);
    output.append(" ");
    output.append(metric_type);
    output.append("\n");
}

/// The descriptions of all metrics.
#[verifier::opaque]
pub open spec fn metadata() -> Seq<char> {
    help_text("portrelay_active_connections"@, "Active proxied TCP connections."@, "gauge"@)
        + help_text(
        "portrelay_connections_accepted_total"@,
        "Accepted proxied TCP connections."@,
        "counter"@,
    ) + help_text(
        "portrelay_connections_rejected_total"@,
        "Connections rejected by admission limits."@,
        "counter"@,
    ) + help_text(
        "portrelay_connections_closed_total"@,
        "Closed proxied TCP connections."@,
        "counter"@,
    ) + help_text(
        "portrelay_upstream_connect_failures_total"@,
        "Upstream connection failures."@,
        "counter"@,
    ) + help_text(
        "portrelay_upstream_connect_timeouts_total"@,
        "Upstream connection timeouts."@,
        "counter"@,
    ) + help_text(
        "portrelay_idle_timeouts_total"@,
        "Connections closed by idle timeout."@,
        "counter"@,
    ) + help_text(
        "portrelay_bytes_client_to_upstream_total"@,
        "Bytes copied from clients to upstreams."@,
        "counter"@,
    ) + help_text(
        "portrelay_bytes_upstream_to_client_total"@,
        "Bytes copied from upstreams to clients."@,
        "counter"@,
    ) + help_text(
        "portrelay_connection_duration_seconds"@,
        "Proxied TCP connection duration."@,
        "histogram"@,
    ) + help_text(
        "portrelay_upstream_connect_duration_seconds"@,
        "Upstream TCP connection duration."@,
        "histogram"@,
    )
}

/// Appends the descriptions of all metrics.
pub fn render_metric_metadata(output: &mut String)
    ensures
        final(output)@ == old(output)@ + metadata(),
{
    proof {
        reveal(metadata);
    }
    render_help_type(
        output,
        "portrelay_active_connections",
        "Active proxied TCP connections.",
        "gauge",
    );
    render_help_type(
        output,
        "portrelay_connections_accepted_total",
        "Accepted proxied TCP connections.",
        "counter",
    );
    render_help_type(
        output,
        "portrelay_connections_rejected_total",
        "Connections rejected by admission limits.",
        "counter",
    );
    render_help_type(
        output,
        "portrelay_connections_closed_total",
        "Closed proxied TCP connections.",
        "counter",
    );
    render_help_type(
        output,
        "portrelay_upstream_connect_failures_total",
        "Upstream connection failures.",
        "counter",
    );
    render_help_type(
        output,
        "portrelay_upstream_connect_timeouts_total",
        "Upstream connection timeouts.",
        "counter",
    );
    render_help_type(
        output,
        "portrelay_idle_timeouts_total",
        "Connections closed by idle timeout.",
        "counter",
    );
    render_help_type(
        output,
        "portrelay_bytes_client_to_upstream_total",
        "Bytes copied from clients to upstreams.",
        "counter",
    );
    render_help_type(
        output,
        "portrelay_bytes_upstream_to_client_total",
        "Bytes copied from upstreams to clients.",
        "counter",
    );
    render_help_type(
        output,
        "portrelay_connection_duration_seconds",
        "Proxied TCP connection duration.",
        "histogram",
    );
    render_help_type(
        output,
        "portrelay_upstream_connect_duration_seconds",
        "Upstream TCP connection duration.",
        "histogram",
    );
}

/// The samples of the first `count` relays.
pub open spec fn relays_text(relays: Seq<RelayMetricsView>, count: nat) -> Seq<char>
    decreases count,
{
    if count == 0 {
        Seq::empty()
    } else {
        relays_text(relays, (count - 1) as nat) + relay_text(relays[count - 1])
    }
}

/// The text that describes all metrics and gives the samples of all relays.
pub open spec fn exposition(relays: Seq<RelayMetricsView>) -> Seq<char> {
    metadata() + relays_text(relays, relays.len())
}

/// The counters of all relays of a process, at one moment.
#[derive(Clone)]
pub struct MetricsRegistry {
    relays: Arc<Vec<Arc<RelayMetrics>>>,
}

/// What the counters of several relays hold.
pub open spec fn metrics_views(relays: Seq<Arc<RelayMetrics>>) -> Seq<RelayMetricsView> {
    relays.map_values(|relay: Arc<RelayMetrics>| (*relay)@)
}

impl View for MetricsRegistry {
    type V = Seq<RelayMetricsView>;

    closed spec fn view(&self) -> Seq<RelayMetricsView> {
        metrics_views((*self.relays)@)
    }
}

impl MetricsRegistry {
    /// The registry of the given relays, in their order.
    pub fn new(relays: Vec<Arc<RelayMetrics>>) -> (result: MetricsRegistry)
        ensures
            result@ == metrics_views(relays@),
    {
        MetricsRegistry { relays: Arc::new(relays) }
    }

    /// The text that describes all metrics and gives the samples of all relays.
    pub fn render(&self) -> (result: String)
        ensures
            result@ == exposition(self@),
    {
        let mut output = String::new();
        render_metric_metadata(&mut output);
        let mut index: usize = 0;
        while index < self.relays.len()
            invariant
                index <= self@.len(),
                self@.len() == (*self.relays)@.len(),
                output@ == metadata() + relays_text(self@, index as nat),
            decreases self@.len() - index,
        {
            self.relays[index].render(&mut output);
            index = index + 1;
        }
        output
    }
}

/// Reads the value of a label from behind its opening quote: the value, and what follows its
/// closing quote. There is none where the line ends first or an unknown escape occurs.
pub open spec fn label_value(text: Seq<char>) -> Option<(Seq<char>, Seq<char>)>
    decreases text.len(),
{
    if text.len() == 0 || text[0] == '\n' {
        None
    } else if text[0] == '"' {
        Some((Seq::empty(), text.skip(1)))
    } else if text[0] == '\\' {
        if text.len() == 1 {
            None
        } else {
            let c = if text[1] == 'n' {
                Some('\n')
            } else if text[1] == '\\' || text[1] == '"' {
                Some(text[1])
            } else {
                None
            };
            match (c, label_value(text.skip(2))) {
                (Some(c), Some((value, rest))) => Some((seq![c] + value, rest)),
                _ => None,
            }
        }
    } else {
        match label_value(text.skip(1)) {
            Some((value, rest)) => Some((seq![text[0]] + value, rest)),
            None => None,
        }
    }
}

proof fn lemma_escaped_front(text: Seq<char>)
    requires
        text.len() > 0,
    ensures
        escaped(text) == escaped_char(text[0]) + escaped(text.skip(1)),
    decreases text.len(),
{
    if text.len() == 1 {
        assert(escaped(text.drop_last()) =~= Seq::<char>::empty());
        assert(escaped(text.skip(1)) =~= Seq::<char>::empty());
        assert(escaped(text) =~= escaped_char(text[0]) + escaped(text.skip(1)));
    } else {
        lemma_escaped_front(text.drop_last());
        assert(text.drop_last().skip(1) =~= text.skip(1).drop_last());
        assert(escaped(text) =~= escaped_char(text[0]) + escaped(text.skip(1)));
    }
}

/// The label of a relay reads back as the name of the relay, up to the closing quote, whatever
/// follows it.
pub proof fn labels_read_back(name: Seq<char>, rest: Seq<char>)
    ensures
        label_value(escaped(name) + "\""@ + rest) == Some((name, rest)),
    decreases name.len(),
{
    reveal_strlit("\"");
    reveal_strlit("\\\\");
    reveal_strlit("\\\"");
    reveal_strlit("\\n");
    let text = escaped(name) + "\""@ + rest;
    if name.len() == 0 {
        assert(text.skip(1) =~= rest);
        assert(name =~= Seq::<char>::empty());
    } else {
        let next = escaped(name.skip(1)) + "\""@ + rest;
        lemma_escaped_front(name);
        labels_read_back(name.skip(1), rest);
        assert(text =~= escaped_char(name[0]) + next);
        assert(seq![name[0]] + name.skip(1) =~= name);
        assert(text.skip(escaped_char(name[0]).len() as int) =~= next);
    }
}

/// Relays with different names have different labels.
pub proof fn labels_tell_names_apart(first: Seq<char>, second: Seq<char>)
    ensures
        escaped(first) == escaped(second) ==> first == second,
{
    labels_read_back(first, Seq::empty());
    labels_read_back(second, Seq::empty());
}

/// As many connections are active as were accepted and not closed, counting in 64 bits.
pub open spec fn is_balanced(metrics: RelayMetricsView) -> bool {
    counted(metrics.active_connections, metrics.connections_closed) == metrics.connections_accepted
}

/// From the start, and whatever is counted, as many connections are active as were accepted
/// and not closed.
pub proof fn active_connections_balance(
    name: Seq<char>,
    metrics: RelayMetricsView,
    duration: Duration,
    client_to_upstream: u64,
    upstream_to_client: u64,
)
    requires
        is_balanced(metrics),
    ensures
        is_balanced(fresh_metrics(name)),
        is_balanced(metrics.after_accepted()),
        is_balanced(metrics.after_rejected()),
        is_balanced(metrics.after_closed(duration, client_to_upstream, upstream_to_client)),
        is_balanced(metrics.after_upstream_failure()),
        is_balanced(metrics.after_upstream_timeout()),
        is_balanced(metrics.after_idle_timeout()),
        is_balanced(metrics.after_upstream_connect(duration)),
{
}

/// The end of a connection takes back what its acceptance added to the active connections.
pub proof fn closing_undoes_accepting(
    metrics: RelayMetricsView,
    duration: Duration,
    client_to_upstream: u64,
    upstream_to_client: u64,
)
    ensures
        metrics.after_accepted().after_closed(
            duration,
            client_to_upstream,
            upstream_to_client,
        ).active_connections == metrics.active_connections,
{
}

/// The bounds of the buckets grow.
proof fn lemma_bounds_grow(i: int, j: int)
    requires
        0 <= i < j < 12,
    ensures
        bucket_bounds()[i] < bucket_bounds()[j],
{
}

proof fn lemma_bucket(millis: nat, from: nat)
    requires
        from <= 12,
    ensures
        from <= bucket_from(millis, from) <= 12,
        forall|i: int|
            from <= i < bucket_from(millis, from) ==> millis > #[trigger] bucket_bounds()[i],
        bucket_from(millis, from) < 12 ==> millis <= bucket_bounds()[bucket_from(
            millis,
            from,
        ) as int],
    decreases 12 - from,
{
    if from < 12 && millis > bucket_bounds()[from as int] {
        lemma_bucket(millis, from + 1);
    }
}

proof fn lemma_cumulative_observed(histogram: HistogramView, duration: Duration, count: nat)
    requires
        histogram.buckets.len() == 12,
        count <= 12,
    ensures
        ({
            let bucket = bucket_from(duration.total_nanos() / 1_000_000, 0);
            cumulative(observed(histogram, duration).buckets, count) == if bucket < count {
                counted(cumulative(histogram.buckets, count), 1)
            } else {
                cumulative(histogram.buckets, count)
            }
        }),
    decreases count,
{
    if count > 0 {
        lemma_cumulative_observed(histogram, duration, (count - 1) as nat);
    }
}

/// Every histogram has one counter for each bound, whatever was observed.
pub proof fn histograms_have_a_counter_per_bound(histogram: Histogram)
    ensures
        histogram@.wf(),
{
}

/// Both histograms of every relay have one counter for each bound, whatever was counted.
pub proof fn relay_histograms_have_a_counter_per_bound(metrics: RelayMetrics)
    ensures
        metrics@.wf(),
{
    histograms_have_a_counter_per_bound(metrics.connection_duration);
    histograms_have_a_counter_per_bound(metrics.upstream_connect_duration);
}

/// An observation counts once in every bucket whose bound is not below its duration in whole
/// milliseconds, and in no other bucket; and once in the bucket without a bound.
pub proof fn observations_count_up_to_bounds(
    histogram: HistogramView,
    duration: Duration,
    bucket: int,
)
    requires
        histogram.wf(),
        0 <= bucket < 12,
    ensures
        observed(histogram, duration).wf(),
        observed(histogram, duration).count == counted(histogram.count, 1),
        cumulative(observed(histogram, duration).buckets, (bucket + 1) as nat) == if (
        duration.total_nanos() / 1_000_000) <= bucket_bounds()[bucket] {
            counted(cumulative(histogram.buckets, (bucket + 1) as nat), 1)
        } else {
            cumulative(histogram.buckets, (bucket + 1) as nat)
        },
{
    let millis = duration.total_nanos() / 1_000_000;
    let first = bucket_from(millis, 0);
    lemma_bucket(millis, 0);
    lemma_cumulative_observed(histogram, duration, (bucket + 1) as nat);
    if first < bucket {
        lemma_bounds_grow(first as int, bucket);
    }
}

/// The text stays on one line.
pub open spec fn is_one_line(text: Seq<char>) -> bool {
    forall|i: int| 0 <= i < text.len() ==> #[trigger] text[i] != '\n'
}

/// Whole lines, of which none is a description.
pub open spec fn are_sample_lines(text: Seq<char>) -> bool {
    &&& text.len() > 0 ==> text[0] != '#' && text.last() == '\n'
    &&& forall|i: int|
        0 < i < text.len() && text[i - 1] == '\n' ==> #[trigger] text[i] != '#'
}

proof fn lemma_lines_after_lines(first: Seq<char>, second: Seq<char>)
    requires
        are_sample_lines(first),
        are_sample_lines(second),
    ensures
        are_sample_lines(first + second),
{
    let text = first + second;
    assert forall|i: int| 0 < i < text.len() && text[i - 1] == '\n' implies #[trigger] text[i]
        != '#' by {
        if i < first.len() {
            assert(first[i] != '#');
        } else if i > first.len() {
            assert(second[i - first.len()] != '#');
        }
    }
}

proof fn lemma_one_line(body: Seq<char>)
    requires
        is_one_line(body),
        body.len() > 0,
        body[0] != '#',
    ensures
        are_sample_lines(body + "\n"@),
{
    reveal_strlit("\n");
}

pub(crate) proof fn lemma_escaped_one_line(text: Seq<char>)
    ensures
        is_one_line(escaped(text)),
    decreases text.len(),
{
    reveal_strlit("\\\\");
    reveal_strlit("\\\"");
    reveal_strlit("\\n");
    if text.len() > 0 {
        lemma_escaped_one_line(text.drop_last());
    }
}

/// A name that can start a sample line.
pub open spec fn is_metric_name(name: Seq<char>) -> bool {
    &&& name.len() > 0
    &&& name[0] == 'p'
    &&& is_one_line(name)
}

proof fn lemma_sample_line(
    metric_name: Seq<char>,
    suffix: Seq<char>,
    relay_label: Seq<char>,
    value: Seq<char>,
)
    requires
        is_metric_name(metric_name),
        is_one_line(suffix),
        is_one_line(relay_label),
        is_one_line(value),
    ensures
        are_sample_lines(sample_line(metric_name, suffix, relay_label, value)),
{
    reveal(sample_line);
    reveal_strlit("{relay=\"");
    reveal_strlit("\"} ");
    let body = metric_name + suffix + "{relay=\""@ + relay_label + "\"} "@ + value;
    lemma_one_line(body);
}

proof fn lemma_bucket_line(
    metric_name: Seq<char>,
    relay_label: Seq<char>,
    bound: Seq<char>,
    value: u64,
)
    requires
        is_metric_name(metric_name),
        is_one_line(relay_label),
        is_one_line(bound),
    ensures
        are_sample_lines(bucket_line(metric_name, relay_label, bound, value)),
{
    reveal(bucket_line);
    reveal_strlit("_bucket{relay=\"");
    reveal_strlit("\",le=\"");
    reveal_strlit("\"} ");
    crate::text::lemma_decimal_digits(value as nat);
    let start = metric_name + "_bucket{relay=\""@ + relay_label + "\",le=\""@ + bound;
    assert(is_one_line(start));
    let body = start + "\"} "@ + crate::text::decimal(value as nat);
    lemma_one_line(body);
}

pub(crate) proof fn lemma_seconds_one_line(units: nat, scale: nat, digits: nat)
    ensures
        is_one_line(crate::seconds::seconds_digits(units, scale, digits)),
{
    reveal_strlit(".");
    crate::text::lemma_decimal_digits(units / scale);
    crate::text::lemma_padded_digits(units % scale, digits);
}

proof fn lemma_bucket_lines(
    buckets: Seq<u64>,
    metric_name: Seq<char>,
    relay_label: Seq<char>,
    count: nat,
)
    requires
        is_metric_name(metric_name),
        is_one_line(relay_label),
    ensures
        are_sample_lines(bucket_lines(buckets, metric_name, relay_label, count)),
    decreases count,
{
    if count > 0 {
        lemma_bucket_lines(buckets, metric_name, relay_label, (count - 1) as nat);
        let millis = bucket_bounds()[count - 1] as nat;
        let bound = crate::seconds::millis_text(millis);
        crate::text::lemma_decimal_digits(millis / 1_000);
        lemma_seconds_one_line(crate::seconds::units_shown(millis, 1_000), 1_000, 3);
        assert(is_one_line(bound));
        lemma_bucket_line(metric_name, relay_label, bound, cumulative(buckets, count));
        lemma_lines_after_lines(
            bucket_lines(buckets, metric_name, relay_label, (count - 1) as nat),
            bucket_line(metric_name, relay_label, bound, cumulative(buckets, count)),
        );
    }
}

proof fn lemma_histogram_lines(
    histogram: HistogramView,
    metric_name: Seq<char>,
    relay_label: Seq<char>,
)
    requires
        is_metric_name(metric_name),
        is_one_line(relay_label),
    ensures
        are_sample_lines(histogram_text(histogram, metric_name, relay_label)),
{
    reveal(histogram_text);
    reveal_strlit("+Inf");
    reveal_strlit("_sum");
    reveal_strlit("_count");
    let buckets = bucket_lines(histogram.buckets, metric_name, relay_label, 12);
    let unbounded = bucket_line(metric_name, relay_label, "+Inf"@, histogram.count);
    let micros = crate::seconds::micros_text(histogram.sum_micros as nat);
    let sum = sample_line(metric_name, "_sum"@, relay_label, micros);
    let number = crate::text::decimal(histogram.count as nat);
    let count = sample_line(metric_name, "_count"@, relay_label, number);
    lemma_bucket_lines(histogram.buckets, metric_name, relay_label, 12);
    lemma_bucket_line(metric_name, relay_label, "+Inf"@, histogram.count);
    lemma_seconds_one_line(
        crate::seconds::units_shown(histogram.sum_micros as nat, 1_000_000),
        1_000_000,
        6,
    );
    lemma_sample_line(metric_name, "_sum"@, relay_label, micros);
    crate::text::lemma_decimal_digits(histogram.count as nat);
    assert(is_one_line(number));
    lemma_sample_line(metric_name, "_count"@, relay_label, number);
    lemma_lines_after_lines(buckets, unbounded);
    lemma_lines_after_lines(buckets + unbounded, sum);
    lemma_lines_after_lines(buckets + unbounded + sum, count);
}

proof fn lemma_counter_line(metric_name: Seq<char>, relay_label: Seq<char>, value: u64)
    requires
        is_metric_name(metric_name),
        is_one_line(relay_label),
    ensures
        are_sample_lines(counter_line(metric_name, relay_label, value)),
{
    reveal_strlit("");
    crate::text::lemma_decimal_digits(value as nat);
    assert(is_one_line(crate::text::decimal(value as nat)));
    lemma_sample_line(metric_name, ""@, relay_label, crate::text::decimal(value as nat));
}

pub(crate) proof fn lemma_metric_names()
    ensures
        is_metric_name("portrelay_active_connections"@),
        is_metric_name("portrelay_connections_accepted_total"@),
        is_metric_name("portrelay_connections_rejected_total"@),
        is_metric_name("portrelay_connections_closed_total"@),
        is_metric_name("portrelay_upstream_connect_failures_total"@),
        is_metric_name("portrelay_upstream_connect_timeouts_total"@),
        is_metric_name("portrelay_idle_timeouts_total"@),
        is_metric_name("portrelay_bytes_client_to_upstream_total"@),
        is_metric_name("portrelay_bytes_upstream_to_client_total"@),
        is_metric_name("portrelay_connection_duration_seconds"@),
        is_metric_name("portrelay_upstream_connect_duration_seconds"@),
{
    reveal_strlit("portrelay_active_connections");
    reveal_strlit("portrelay_connections_accepted_total");
    reveal_strlit("portrelay_connections_rejected_total");
    reveal_strlit("portrelay_connections_closed_total");
    reveal_strlit("portrelay_upstream_connect_failures_total");
    reveal_strlit("portrelay_upstream_connect_timeouts_total");
    reveal_strlit("portrelay_idle_timeouts_total");
    reveal_strlit("portrelay_bytes_client_to_upstream_total");
    reveal_strlit("portrelay_bytes_upstream_to_client_total");
    reveal_strlit("portrelay_connection_duration_seconds");
    reveal_strlit("portrelay_upstream_connect_duration_seconds");
}

proof fn lemma_relay_lines(metrics: RelayMetricsView)
    ensures
        are_sample_lines(relay_text(metrics)),
{
    reveal(relay_text);
    let label = escaped(metrics.name);
    lemma_escaped_one_line(metrics.name);
    lemma_metric_names();
    let a = counter_line("portrelay_active_connections"@, label, metrics.active_connections);
    let b = counter_line(
        "portrelay_connections_accepted_total"@,
        label,
        metrics.connections_accepted,
    );
    let c = counter_line(
        "portrelay_connections_rejected_total"@,
        label,
        metrics.connections_rejected,
    );
    let d = counter_line("portrelay_connections_closed_total"@, label, metrics.connections_closed);
    let e = counter_line(
        "portrelay_upstream_connect_failures_total"@,
        label,
        metrics.upstream_connect_failures,
    );
    let f = counter_line(
        "portrelay_upstream_connect_timeouts_total"@,
        label,
        metrics.upstream_connect_timeouts,
    );
    let g = counter_line("portrelay_idle_timeouts_total"@, label, metrics.idle_timeouts);
    let h = counter_line(
        "portrelay_bytes_client_to_upstream_total"@,
        label,
        metrics.bytes_client_to_upstream,
    );
    let i = counter_line(
        "portrelay_bytes_upstream_to_client_total"@,
        label,
        metrics.bytes_upstream_to_client,
    );
    let j = histogram_text(
        metrics.connection_duration,
        "portrelay_connection_duration_seconds"@,
        label,
    );
    let k = histogram_text(
        metrics.upstream_connect_duration,
        "portrelay_upstream_connect_duration_seconds"@,
        label,
    );
    lemma_counter_line("portrelay_active_connections"@, label, metrics.active_connections);
    lemma_counter_line(
        "portrelay_connections_accepted_total"@,
        label,
        metrics.connections_accepted,
    );
    lemma_lines_after_lines(a, b);
    lemma_counter_line(
        "portrelay_connections_rejected_total"@,
        label,
        metrics.connections_rejected,
    );
    lemma_lines_after_lines(a + b, c);
    lemma_counter_line("portrelay_connections_closed_total"@, label, metrics.connections_closed);
    lemma_lines_after_lines(a + b + c, d);
    lemma_counter_line(
        "portrelay_upstream_connect_failures_total"@,
        label,
        metrics.upstream_connect_failures,
    );
    lemma_lines_after_lines(a + b + c + d, e);
    lemma_counter_line(
        "portrelay_upstream_connect_timeouts_total"@,
        label,
        metrics.upstream_connect_timeouts,
    );
    lemma_lines_after_lines(a + b + c + d + e, f);
    lemma_counter_line("portrelay_idle_timeouts_total"@, label, metrics.idle_timeouts);
    lemma_lines_after_lines(a + b + c + d + e + f, g);
    lemma_counter_line(
        "portrelay_bytes_client_to_upstream_total"@,
        label,
        metrics.bytes_client_to_upstream,
    );
    lemma_lines_after_lines(a + b + c + d + e + f + g, h);
    lemma_counter_line(
        "portrelay_bytes_upstream_to_client_total"@,
        label,
        metrics.bytes_upstream_to_client,
    );
    lemma_lines_after_lines(a + b + c + d + e + f + g + h, i);
    lemma_histogram_lines(
        metrics.connection_duration,
        "portrelay_connection_duration_seconds"@,
        label,
    );
    lemma_lines_after_lines(a + b + c + d + e + f + g + h + i, j);
    lemma_histogram_lines(
        metrics.upstream_connect_duration,
        "portrelay_upstream_connect_duration_seconds"@,
        label,
    );
    lemma_lines_after_lines(a + b + c + d + e + f + g + h + i + j, k);
}

proof fn lemma_relays_lines(relays: Seq<RelayMetricsView>, count: nat)
    ensures
        are_sample_lines(relays_text(relays, count)),
    decreases count,
{
    if count > 0 {
        lemma_relays_lines(relays, (count - 1) as nat);
        lemma_relay_lines(relays[count - 1]);
        lemma_lines_after_lines(
            relays_text(relays, (count - 1) as nat),
            relay_text(relays[count - 1]),
        );
    }
}

/// However many relays there are and whatever they are called, the descriptions of the metrics
/// come once, at the start: no line behind them is a description.
pub proof fn descriptions_come_once(relays: Seq<RelayMetricsView>)
    ensures
        exposition(relays) == metadata() + relays_text(relays, relays.len()),
        are_sample_lines(relays_text(relays, relays.len())),
{
    lemma_relays_lines(relays, relays.len());
}

} // verus!
