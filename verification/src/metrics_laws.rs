//! What the counters of a relay mean, and where each of them stands in the exposition.

use vstd::prelude::*;

use crate::duration::Duration;
use crate::metrics::{HistogramView, RelayMetricsView};
use crate::relay_laws::went_up;

verus! {

/// A counter goes up by what is counted and starts over beyond 64 bits; one goes down by one, and
/// a number beyond 64 bits is taken for the largest one.
pub proof fn counters_wrap_around(counter: u64, amount: u64, number: nat)
    ensures
        went_up(counter, crate::metrics::counted(counter, amount), amount as int),
        went_up(counter, crate::metrics::uncounted(counter), -1),
        number <= u64::MAX ==> crate::metrics::capped(number) == number,
        number > u64::MAX ==> crate::metrics::capped(number) == u64::MAX,
{
}

/// Every event changes its own counters, by what it counts, and no others.
pub proof fn events_change_their_own_counters(
    metrics: RelayMetricsView,
    duration: Duration,
    client_to_upstream: u64,
    upstream_to_client: u64,
)
    ensures
        ({
            let after = metrics.after_accepted();
            &&& went_up(metrics.active_connections, after.active_connections, 1)
            &&& went_up(metrics.connections_accepted, after.connections_accepted, 1)
            &&& after == (RelayMetricsView {
                active_connections: after.active_connections,
                connections_accepted: after.connections_accepted,
                ..metrics
            })
        }),
        ({
            let after = metrics.after_rejected();
            &&& went_up(metrics.connections_rejected, after.connections_rejected, 1)
            &&& after == (RelayMetricsView {
                connections_rejected: after.connections_rejected,
                ..metrics
            })
        }),
        ({
            let after = metrics.after_closed(duration, client_to_upstream, upstream_to_client);
            &&& went_up(metrics.active_connections, after.active_connections, -1)
            &&& went_up(metrics.connections_closed, after.connections_closed, 1)
            &&& went_up(
                metrics.bytes_client_to_upstream,
                after.bytes_client_to_upstream,
                client_to_upstream as int,
            )
            &&& went_up(
                metrics.bytes_upstream_to_client,
                after.bytes_upstream_to_client,
                upstream_to_client as int,
            )
            &&& after.connection_duration == crate::metrics::observed(
                metrics.connection_duration,
                duration,
            )
            &&& after == (RelayMetricsView {
                active_connections: after.active_connections,
                connections_closed: after.connections_closed,
                bytes_client_to_upstream: after.bytes_client_to_upstream,
                bytes_upstream_to_client: after.bytes_upstream_to_client,
                connection_duration: after.connection_duration,
                ..metrics
            })
        }),
        ({
            let after = metrics.after_upstream_failure();
            &&& went_up(metrics.upstream_connect_failures, after.upstream_connect_failures, 1)
            &&& after == (RelayMetricsView {
                upstream_connect_failures: after.upstream_connect_failures,
                ..metrics
            })
        }),
        ({
            let after = metrics.after_upstream_timeout();
            &&& went_up(metrics.upstream_connect_timeouts, after.upstream_connect_timeouts, 1)
            &&& after == (RelayMetricsView {
                upstream_connect_timeouts: after.upstream_connect_timeouts,
                ..metrics
            })
        }),
        ({
            let after = metrics.after_idle_timeout();
            &&& went_up(metrics.idle_timeouts, after.idle_timeouts, 1)
            &&& after == (RelayMetricsView { idle_timeouts: after.idle_timeouts, ..metrics })
        }),
        ({
            let after = metrics.after_upstream_connect(duration);
            &&& after.upstream_connect_duration == crate::metrics::observed(
                metrics.upstream_connect_duration,
                duration,
            )
            &&& after == (RelayMetricsView {
                upstream_connect_duration: after.upstream_connect_duration,
                ..metrics
            })
        }),
{
}

/// A relay that has not had a connection counts nothing.
pub proof fn fresh_counters_are_zero(name: Seq<char>, bucket: int)
    ensures
        ({
            let metrics = crate::metrics::fresh_metrics(name);
            &&& metrics.name == name
            &&& metrics.active_connections == 0
            &&& metrics.connections_accepted == 0
            &&& metrics.connections_rejected == 0
            &&& metrics.connections_closed == 0
            &&& metrics.upstream_connect_failures == 0
            &&& metrics.upstream_connect_timeouts == 0
            &&& metrics.idle_timeouts == 0
            &&& metrics.bytes_client_to_upstream == 0
            &&& metrics.bytes_upstream_to_client == 0
            &&& metrics.connection_duration == crate::metrics::empty_histogram()
            &&& metrics.upstream_connect_duration == crate::metrics::empty_histogram()
        }),
        crate::metrics::empty_histogram().count == 0,
        crate::metrics::empty_histogram().sum_micros == 0,
        crate::metrics::empty_histogram().buckets.len() == 12,
        0 <= bucket < 12 ==> crate::metrics::empty_histogram().buckets[bucket] == 0,
{
}

/// The bounds of the buckets, in milliseconds: from a millisecond to five minutes.
pub open spec fn bound_of(bucket: int) -> int {
    if bucket == 0 {
        1
    } else if bucket == 1 {
        5
    } else if bucket == 2 {
        10
    } else if bucket == 3 {
        25
    } else if bucket == 4 {
        50
    } else if bucket == 5 {
        100
    } else if bucket == 6 {
        250
    } else if bucket == 7 {
        500
    } else if bucket == 8 {
        1_000
    } else if bucket == 9 {
        5_000
    } else if bucket == 10 {
        30_000
    } else {
        300_000
    }
}

/// The histogram of the first `count` of `durations`.
pub open spec fn observed_all(durations: Seq<Duration>, count: nat) -> HistogramView
    decreases count,
{
    if count == 0 {
        crate::metrics::empty_histogram()
    } else {
        crate::metrics::observed(observed_all(durations, (count - 1) as nat), durations[count - 1])
    }
}

/// How many of the first `count` durations have at most `millis` whole milliseconds.
pub open spec fn number_within(durations: Seq<Duration>, count: nat, millis: int) -> nat
    decreases count,
{
    if count == 0 {
        0
    } else if durations[count - 1].total_nanos() / 1_000_000 <= millis {
        number_within(durations, (count - 1) as nat, millis) + 1
    } else {
        number_within(durations, (count - 1) as nat, millis)
    }
}

/// The sum of the first `count` durations, in whole microseconds of each, as far as 64 bits hold
/// each of them.
pub open spec fn micros_of_all(durations: Seq<Duration>, count: nat) -> int
    decreases count,
{
    if count == 0 {
        0
    } else {
        let micros = (durations[count - 1].total_nanos() / 1_000) as int;
        micros_of_all(durations, (count - 1) as nat) + if micros <= u64::MAX {
            micros
        } else {
            u64::MAX as int
        }
    }
}

proof fn lemma_empty_cumulative(count: nat)
    requires
        count <= 12,
    ensures
        crate::metrics::cumulative(crate::metrics::empty_histogram().buckets, count) == 0,
    decreases count,
{
    if count > 0 {
        lemma_empty_cumulative((count - 1) as nat);
    }
}

proof fn lemma_micros_grow(durations: Seq<Duration>, count: nat)
    ensures
        micros_of_all(durations, count) >= 0,
    decreases count,
{
    if count > 0 {
        lemma_micros_grow(durations, (count - 1) as nat);
    }
}

proof fn lemma_bound_of(bucket: int)
    requires
        0 <= bucket < 12,
    ensures
        crate::metrics::bucket_bounds()[bucket] == bound_of(bucket),
{
}

/// Whatever is observed, and in whatever order: each bucket, with those before it, counts the
/// durations up to its bound, and the histogram counts and sums up all of them, in 64 bits.
#[verifier::spinoff_prover]
pub proof fn histograms_count_their_durations(durations: Seq<Duration>, count: nat, bucket: int)
    requires
        count <= durations.len(),
        0 <= bucket < 12,
    ensures
        ({
            let histogram = observed_all(durations, count);
            &&& histogram.wf()
            &&& histogram.buckets.len() == 12
            &&& histogram.count == count % 0x1_0000_0000_0000_0000
            &&& histogram.sum_micros == micros_of_all(durations, count) % 0x1_0000_0000_0000_0000
            &&& crate::metrics::cumulative(histogram.buckets, (bucket + 1) as nat)
                == number_within(durations, count, bound_of(bucket)) % 0x1_0000_0000_0000_0000
        }),
    decreases count,
{
    if count == 0 {
        lemma_empty_cumulative((bucket + 1) as nat);
    } else {
        histograms_count_their_durations(durations, (count - 1) as nat, bucket);
        let last = durations[count - 1];
        let before = observed_all(durations, (count - 1) as nat);
        let so_far = number_within(durations, (count - 1) as nat, bound_of(bucket));
        lemma_micros_grow(durations, (count - 1) as nat);
        crate::relay::lemma_counted_total(before.count, count - 1, 1);
        crate::relay::lemma_counted_total(
            before.sum_micros,
            micros_of_all(durations, (count - 1) as nat),
            crate::metrics::capped(last.total_nanos() / 1_000),
        );
        crate::relay::lemma_counted_total(
            crate::metrics::cumulative(before.buckets, (bucket + 1) as nat),
            so_far as int,
            1,
        );
        lemma_bound_of(bucket);
        crate::metrics::observations_count_up_to_bounds(before, last, bucket);
    }
}

/// What the first `count` buckets hold together is their sum, in 64 bits.
pub open spec fn sum_of(buckets: Seq<u64>, count: nat) -> nat
    decreases count,
{
    if count == 0 {
        0
    } else {
        sum_of(buckets, (count - 1) as nat) + buckets[count - 1] as nat
    }
}

/// What is shown of a bucket is the sum of it and those before it, in 64 bits.
pub proof fn buckets_add_up(buckets: Seq<u64>, count: nat)
    requires
        count <= buckets.len(),
    ensures
        crate::metrics::cumulative(buckets, count) == sum_of(buckets, count)
            % 0x1_0000_0000_0000_0000,
    decreases count,
{
    if count > 0 {
        buckets_add_up(buckets, (count - 1) as nat);
        crate::relay::lemma_counted_total(
            crate::metrics::cumulative(buckets, (count - 1) as nat),
            sum_of(buckets, (count - 1) as nat) as int,
            buckets[count - 1],
        );
    }
}

/// `line` stands in the text, from the start of a line on.
#[verifier::opaque]
pub open spec fn holds_line(text: Seq<char>, line: Seq<char>) -> bool {
    exists|start: int|
        0 <= start <= text.len() - line.len() && #[trigger] text.subrange(
            start,
            start + line.len(),
        ) == line && (start == 0 || text[start - 1] == '\n')
}

/// The text is empty or ends with a line break.
pub open spec fn ends_lines(text: Seq<char>) -> bool {
    text.len() > 0 ==> text.last() == '\n'
}

/// How many line breaks a text has.
pub open spec fn line_count(text: Seq<char>) -> nat
    decreases text.len(),
{
    if text.len() == 0 {
        0
    } else if text.last() == '\n' {
        line_count(text.drop_last()) + 1
    } else {
        line_count(text.drop_last())
    }
}

proof fn lemma_line_counts(first: Seq<char>, second: Seq<char>)
    ensures
        line_count(first + second) == line_count(first) + line_count(second),
    decreases second.len(),
{
    let text = first + second;
    if second.len() == 0 {
        assert(text =~= first);
    } else {
        lemma_line_counts(first, second.drop_last());
        assert(text.drop_last() =~= first + second.drop_last());
        assert(text.last() == second.last());
    }
}

proof fn lemma_no_lines(text: Seq<char>)
    requires
        crate::metrics::is_one_line(text),
    ensures
        line_count(text) == 0,
    decreases text.len(),
{
    if text.len() > 0 {
        assert(text.last() != '\n');
        assert forall|i: int| 0 <= i < text.drop_last().len() implies #[trigger] text.drop_last()[i]
            != '\n' by {
            assert(text.drop_last()[i] == text[i]);
        }
        lemma_no_lines(text.drop_last());
    }
}

/// A text that is one line with its line break.
pub open spec fn is_line(text: Seq<char>) -> bool {
    &&& text.len() > 0
    &&& text.last() == '\n'
    &&& crate::metrics::is_one_line(text.drop_last())
}

proof fn lemma_append(text: Seq<char>, more: Seq<char>)
    requires
        ends_lines(text),
        ends_lines(more),
    ensures
        ends_lines(text + more),
        line_count(text + more) == line_count(text) + line_count(more),
        forall|line: Seq<char>|
            holds_line(text, line) || holds_line(more, line) ==> #[trigger] holds_line(
                text + more,
                line,
            ),
{
    reveal(holds_line);
    lemma_line_counts(text, more);
    if more.len() == 0 {
        assert(text + more =~= text);
    }
    assert forall|line: Seq<char>| holds_line(text, line) || holds_line(more, line) implies #[trigger] holds_line(
        text + more,
        line,
    ) by {
        let whole = text + more;
        if holds_line(text, line) {
            let start = choose|start: int|
                0 <= start <= text.len() - line.len() && #[trigger] text.subrange(
                    start,
                    start + line.len(),
                ) == line && (start == 0 || text[start - 1] == '\n');
            assert(whole.subrange(start, start + line.len()) =~= text.subrange(
                start,
                start + line.len(),
            ));
        } else {
            let start = choose|start: int|
                0 <= start <= more.len() - line.len() && #[trigger] more.subrange(
                    start,
                    start + line.len(),
                ) == line && (start == 0 || more[start - 1] == '\n');
            let place = text.len() + start;
            assert(whole.subrange(place, place + line.len()) =~= more.subrange(
                start,
                start + line.len(),
            ));
        }
    }
}

proof fn lemma_line_itself(line: Seq<char>)
    requires
        is_line(line),
    ensures
        holds_line(line, line),
        ends_lines(line),
        line_count(line) == 1,
{
    reveal(holds_line);
    assert(line.subrange(0, 0 + line.len() as int) =~= line);
    lemma_no_lines(line.drop_last());
}

/// The line of a sample: the name of the metric, the label of the relay and the value.
pub open spec fn value_line(name: Seq<char>, label: Seq<char>, value: Seq<char>) -> Seq<char> {
    name + "{relay=\""@ + label + "\"} "@ + value + "\n"@
}

/// The line of a bucket: as that of a sample, with the bound in a second label.
pub open spec fn bound_line(
    name: Seq<char>,
    label: Seq<char>,
    bound: Seq<char>,
    value: Seq<char>,
) -> Seq<char> {
    name + "_bucket{relay=\""@ + label + "\",le=\""@ + bound + "\"} "@ + value + "\n"@
}

proof fn lemma_counter_line(name: Seq<char>, label: Seq<char>, value: u64)
    requires
        crate::metrics::is_one_line(name),
        crate::metrics::is_one_line(label),
    ensures
        crate::metrics::counter_line(name, label, value) == value_line(
            name,
            label,
            crate::text::decimal(value as nat),
        ),
        is_line(crate::metrics::counter_line(name, label, value)),
{
    reveal_strlit("");
    let number = crate::text::decimal(value as nat);
    crate::text::lemma_decimal_digits(value as nat);
    assert(crate::metrics::is_one_line(number));
    assert(name + ""@ =~= name);
    reveal(crate::metrics::sample_line);
    lemma_value_line(name, label, number);
}

proof fn lemma_value_line(name: Seq<char>, label: Seq<char>, value: Seq<char>)
    requires
        crate::metrics::is_one_line(name),
        crate::metrics::is_one_line(label),
        crate::metrics::is_one_line(value),
    ensures
        is_line(value_line(name, label, value)),
{
    reveal_strlit("{relay=\"");
    reveal_strlit("\"} ");
    reveal_strlit("\n");
    let body = name + "{relay=\""@ + label + "\"} "@ + value;
    let line = body + "\n"@;
    assert(line.drop_last() =~= body);
}

proof fn lemma_bound_line(name: Seq<char>, label: Seq<char>, bound: Seq<char>, value: u64)
    requires
        crate::metrics::is_one_line(name),
        crate::metrics::is_one_line(label),
        crate::metrics::is_one_line(bound),
    ensures
        crate::metrics::bucket_line(name, label, bound, value) == bound_line(
            name,
            label,
            bound,
            crate::text::decimal(value as nat),
        ),
        is_line(crate::metrics::bucket_line(name, label, bound, value)),
{
    reveal(crate::metrics::bucket_line);
    reveal_strlit("_bucket{relay=\"");
    reveal_strlit("\",le=\"");
    reveal_strlit("\"} ");
    reveal_strlit("\n");
    let number = crate::text::decimal(value as nat);
    crate::text::lemma_decimal_digits(value as nat);
    let start = name + "_bucket{relay=\""@ + label + "\",le=\""@ + bound;
    assert(crate::metrics::is_one_line(start));
    let body = start + "\"} "@ + number;
    assert(crate::metrics::is_one_line(body));
    let line = body + "\n"@;
    assert(line.drop_last() =~= body);
}

/// The bound of a bucket as it is shown, in seconds.
pub open spec fn bound_text(bucket: int) -> Seq<char> {
    crate::seconds::millis_text(bound_of(bucket) as nat)
}

/// The line of a bucket of a histogram: it counts the bucket and those before it.
pub open spec fn line_of_bucket(
    histogram: HistogramView,
    name: Seq<char>,
    label: Seq<char>,
    bucket: int,
) -> Seq<char> {
    bound_line(
        name,
        label,
        bound_text(bucket),
        crate::text::decimal(sum_of(histogram.buckets, (bucket + 1) as nat) % 0x1_0000_0000_0000_0000),
    )
}

proof fn lemma_bound_text(bucket: int)
    requires
        0 <= bucket < 12,
    ensures
        crate::metrics::bucket_bounds()[bucket] == bound_of(bucket),
        crate::metrics::is_one_line(bound_text(bucket)),
{
    lemma_bound_of(bucket);
    let millis = bound_of(bucket) as nat;
    crate::text::lemma_decimal_digits(millis / 1_000);
    crate::metrics::lemma_seconds_one_line(crate::seconds::units_shown(millis, 1_000), 1_000, 3);
}

/// The lines of the buckets, in the order of their bounds.
pub open spec fn bucket_parts(
    histogram: HistogramView,
    name: Seq<char>,
    label: Seq<char>,
) -> Seq<Seq<char>> {
    Seq::new(12, |bucket: int| line_of_bucket(histogram, name, label, bucket))
}

proof fn lemma_buckets(histogram: HistogramView, name: Seq<char>, label: Seq<char>, count: nat)
    requires
        histogram.wf(),
        crate::metrics::is_one_line(name),
        crate::metrics::is_one_line(label),
        count <= 12,
    ensures
        ({
            let text = crate::metrics::bucket_lines(histogram.buckets, name, label, count);
            &&& ends_lines(text)
            &&& line_count(text) == count
            &&& forall|bucket: int|
                0 <= bucket < count ==> holds_line(
                    text,
                    #[trigger] line_of_bucket(histogram, name, label, bucket),
                )
        }),
    decreases count,
{
    if count > 0 {
        let last = count - 1;
        let before = crate::metrics::bucket_lines(histogram.buckets, name, label, last as nat);
        lemma_buckets(histogram, name, label, last as nat);
        lemma_bound_text(last);
        buckets_add_up(histogram.buckets, count);
        let value = crate::metrics::cumulative(histogram.buckets, count);
        lemma_bound_line(name, label, bound_text(last), value);
        let line = crate::metrics::bucket_line(name, label, bound_text(last), value);
        lemma_line_itself(line);
        lemma_append(before, line);
        assert(line == line_of_bucket(histogram, name, label, last));
    }
}

/// The samples of a histogram are all there, each in its own line: one for each bound, in
/// seconds, with all that was observed up to it; one without a bound; the sum in seconds; and the
/// count.
pub open spec fn shows_histogram(
    text: Seq<char>,
    histogram: HistogramView,
    name: Seq<char>,
    label: Seq<char>,
) -> bool {
    let count = crate::text::decimal(histogram.count as nat);
    &&& forall|bucket: int|
        0 <= bucket < 12 ==> holds_line(
            text,
            #[trigger] line_of_bucket(histogram, name, label, bucket),
        )
    &&& holds_line(text, bound_line(name, label, "+Inf"@, count))
    &&& holds_line(
        text,
        value_line(name + "_sum"@, label, crate::seconds::micros_text(histogram.sum_micros as nat)),
    )
    &&& holds_line(text, value_line(name + "_count"@, label, count))
}

proof fn lemma_bucket_order(histogram: HistogramView, name: Seq<char>, label: Seq<char>, count: nat)
    requires
        histogram.wf(),
        count <= 12,
    ensures
        crate::metrics::bucket_lines(histogram.buckets, name, label, count) == joined(
            bucket_parts(histogram, name, label),
            count,
        ),
    decreases count,
{
    if count > 0 {
        let last = count - 1;
        lemma_bucket_order(histogram, name, label, last as nat);
        lemma_bound_of(last);
        buckets_add_up(histogram.buckets, count);
        assert(bucket_parts(histogram, name, label)[last] == crate::metrics::bucket_line(
            name,
            label,
            bound_text(last),
            crate::metrics::cumulative(histogram.buckets, count),
        )) by {
            reveal(crate::metrics::bucket_line);
        }
    }
}

/// Whatever the metric and the relay are called, a histogram is shown in this order: its buckets
/// by their bounds, the bucket without one, the sum, and the count.
pub proof fn histograms_are_shown_in_order(
    histogram: HistogramView,
    name: Seq<char>,
    label: Seq<char>,
)
    requires
        histogram.wf(),
    ensures
        ({
            let count = crate::text::decimal(histogram.count as nat);
            crate::metrics::histogram_text(histogram, name, label) == joined(
                bucket_parts(histogram, name, label),
                12,
            ) + bound_line(name, label, "+Inf"@, count) + value_line(
                name + "_sum"@,
                label,
                crate::seconds::micros_text(histogram.sum_micros as nat),
            ) + value_line(name + "_count"@, label, count)
        }),
{
    let count = crate::text::decimal(histogram.count as nat);
    let micros = crate::seconds::micros_text(histogram.sum_micros as nat);
    lemma_bucket_order(histogram, name, label, 12);
    assert(crate::metrics::bucket_line(name, label, "+Inf"@, histogram.count) == bound_line(
        name,
        label,
        "+Inf"@,
        count,
    )) by {
        reveal(crate::metrics::bucket_line);
    }
    assert(crate::metrics::sample_line(name, "_sum"@, label, micros) == value_line(
        name + "_sum"@,
        label,
        micros,
    )) by {
        reveal(crate::metrics::sample_line);
    }
    assert(crate::metrics::sample_line(name, "_count"@, label, count) == value_line(
        name + "_count"@,
        label,
        count,
    )) by {
        reveal(crate::metrics::sample_line);
    }
    reveal(crate::metrics::histogram_text);
}

/// A description is its two lines, whatever it says.
pub proof fn descriptions_are_two_lines(name: Seq<char>, help: Seq<char>, kind: Seq<char>)
    ensures
        crate::metrics::help_text(name, help, kind) == ("# HELP "@ + name + " "@ + help + "\n"@) + (
        "# TYPE "@ + name + " "@ + kind + "\n"@),
{
    reveal(crate::metrics::help_text);
    assert(crate::metrics::help_text(name, help, kind) =~= ("# HELP "@ + name + " "@ + help
        + "\n"@) + ("# TYPE "@ + name + " "@ + kind + "\n"@));
}

/// A histogram is shown in full, and in fifteen lines.
pub proof fn histograms_show_all_samples(
    histogram: HistogramView,
    name: Seq<char>,
    label: Seq<char>,
)
    requires
        histogram.wf(),
        crate::metrics::is_one_line(name),
        crate::metrics::is_one_line(label),
    ensures
        ({
            let text = crate::metrics::histogram_text(histogram, name, label);
            &&& shows_histogram(text, histogram, name, label)
            &&& line_count(text) == 15
            &&& ends_lines(text)
        }),
{
    reveal(crate::metrics::histogram_text);
    reveal_strlit("+Inf");
    reveal_strlit("_sum");
    reveal_strlit("_count");
    let number = crate::text::decimal(histogram.count as nat);
    crate::text::lemma_decimal_digits(histogram.count as nat);
    assert(crate::metrics::is_one_line(number));
    let micros = crate::seconds::micros_text(histogram.sum_micros as nat);
    crate::metrics::lemma_seconds_one_line(
        crate::seconds::units_shown(histogram.sum_micros as nat, 1_000_000),
        1_000_000,
        6,
    );
    let buckets = crate::metrics::bucket_lines(histogram.buckets, name, label, 12);
    lemma_buckets(histogram, name, label, 12);
    let unbounded = crate::metrics::bucket_line(name, label, "+Inf"@, histogram.count);
    lemma_bound_line(name, label, "+Inf"@, histogram.count);
    lemma_line_itself(unbounded);
    lemma_append(buckets, unbounded);
    let sum = crate::metrics::sample_line(name, "_sum"@, label, micros);
    assert(crate::metrics::is_one_line(name + "_sum"@));
    lemma_value_line(name + "_sum"@, label, micros);
    assert(sum == value_line(name + "_sum"@, label, micros)) by {
        reveal(crate::metrics::sample_line);
    }
    lemma_line_itself(sum);
    lemma_append(buckets + unbounded, sum);
    let count = crate::metrics::sample_line(name, "_count"@, label, number);
    assert(crate::metrics::is_one_line(name + "_count"@));
    lemma_value_line(name + "_count"@, label, number);
    assert(count == value_line(name + "_count"@, label, number)) by {
        reveal(crate::metrics::sample_line);
    }
    lemma_line_itself(count);
    lemma_append(buckets + unbounded + sum, count);
    let text = crate::metrics::histogram_text(histogram, name, label);
    assert(text == buckets + unbounded + sum + count);
    assert forall|bucket: int| 0 <= bucket < 12 implies holds_line(
        text,
        #[trigger] line_of_bucket(histogram, name, label, bucket),
    ) by {
        let line = line_of_bucket(histogram, name, label, bucket);
        assert(holds_line(buckets, line));
        assert(holds_line(buckets + unbounded, line));
        assert(holds_line(buckets + unbounded + sum, line));
    }
    assert(holds_line(buckets + unbounded, unbounded));
    assert(holds_line(buckets + unbounded + sum, unbounded));
    assert(holds_line(buckets + unbounded + sum, sum));
}

/// The first `count` texts, one after the other.
pub open spec fn joined(parts: Seq<Seq<char>>, count: nat) -> Seq<char>
    decreases count,
{
    if count == 0 {
        Seq::empty()
    } else {
        joined(parts, (count - 1) as nat) + parts[count - 1]
    }
}

/// How many line breaks the first `count` texts have.
pub open spec fn joined_lines(parts: Seq<Seq<char>>, count: nat) -> nat
    decreases count,
{
    if count == 0 {
        0
    } else {
        joined_lines(parts, (count - 1) as nat) + line_count(parts[count - 1])
    }
}

proof fn lemma_join_step(parts: Seq<Seq<char>>, before: Seq<char>, part: Seq<char>, count: nat) -> (after:
    Seq<char>)
    requires
        0 < count <= parts.len(),
        before == joined(parts, (count - 1) as nat),
        part == parts[count - 1],
    ensures
        after == before + part,
        after == joined(parts, count),
{
    before + part
}

proof fn lemma_joined(parts: Seq<Seq<char>>, count: nat)
    requires
        count <= parts.len(),
        forall|i: int| 0 <= i < count ==> ends_lines(#[trigger] parts[i]),
    ensures
        ends_lines(joined(parts, count)),
        line_count(joined(parts, count)) == joined_lines(parts, count),
        forall|i: int, line: Seq<char>|
            0 <= i < count && #[trigger] holds_line(parts[i], line) ==> holds_line(
                joined(parts, count),
                line,
            ),
    decreases count,
{
    if count > 0 {
        let before = joined(parts, (count - 1) as nat);
        let part = parts[count - 1];
        lemma_joined(parts, (count - 1) as nat);
        lemma_append(before, part);
        assert forall|i: int, line: Seq<char>|
            0 <= i < count && #[trigger] holds_line(parts[i], line) implies holds_line(
            joined(parts, count),
            line,
        ) by {
            if i < count - 1 {
                assert(holds_line(before, line));
            }
            assert(holds_line(before + part, line));
        }
    }
}

/// The text shows a counter of a relay: the name of the metric, the relay and the value, in one
/// line.
pub open spec fn shows_counter(
    text: Seq<char>,
    name: Seq<char>,
    label: Seq<char>,
    value: u64,
) -> bool {
    holds_line(text, value_line(name, label, crate::text::decimal(value as nat)))
}

proof fn lemma_shows_counter(name: Seq<char>, label: Seq<char>, value: u64) -> (line: Seq<char>)
    requires
        crate::metrics::is_one_line(name),
        crate::metrics::is_one_line(label),
    ensures
        line == crate::metrics::counter_line(name, label, value),
        line == value_line(name, label, crate::text::decimal(value as nat)),
        holds_line(line, line),
        ends_lines(line),
        line_count(line) == 1,
{
    let line = crate::metrics::counter_line(name, label, value);
    lemma_counter_line(name, label, value);
    lemma_line_itself(line);
    line
}

/// The samples of a relay in their order: its counters, and then its two histograms.
pub open spec fn sample_parts(metrics: RelayMetricsView) -> Seq<Seq<char>> {
    let label = crate::metrics::escaped(metrics.name);
    seq![
        value_line(
            "portrelay_active_connections"@,
            label,
            crate::text::decimal(metrics.active_connections as nat),
        ),
        value_line(
            "portrelay_connections_accepted_total"@,
            label,
            crate::text::decimal(metrics.connections_accepted as nat),
        ),
        value_line(
            "portrelay_connections_rejected_total"@,
            label,
            crate::text::decimal(metrics.connections_rejected as nat),
        ),
        value_line(
            "portrelay_connections_closed_total"@,
            label,
            crate::text::decimal(metrics.connections_closed as nat),
        ),
        value_line(
            "portrelay_upstream_connect_failures_total"@,
            label,
            crate::text::decimal(metrics.upstream_connect_failures as nat),
        ),
        value_line(
            "portrelay_upstream_connect_timeouts_total"@,
            label,
            crate::text::decimal(metrics.upstream_connect_timeouts as nat),
        ),
        value_line(
            "portrelay_idle_timeouts_total"@,
            label,
            crate::text::decimal(metrics.idle_timeouts as nat),
        ),
        value_line(
            "portrelay_bytes_client_to_upstream_total"@,
            label,
            crate::text::decimal(metrics.bytes_client_to_upstream as nat),
        ),
        value_line(
            "portrelay_bytes_upstream_to_client_total"@,
            label,
            crate::text::decimal(metrics.bytes_upstream_to_client as nat),
        ),
        crate::metrics::histogram_text(
            metrics.connection_duration,
            "portrelay_connection_duration_seconds"@,
            label,
        ),
        crate::metrics::histogram_text(
            metrics.upstream_connect_duration,
            "portrelay_upstream_connect_duration_seconds"@,
            label,
        ),
    ]
}

/// All samples of a relay are there, each with its own counter, under the name of its metric and
/// the label of the relay; and there are no lines besides them.
#[verifier::spinoff_prover]
#[verifier::rlimit(60)]
pub proof fn relays_show_all_samples(metrics: RelayMetricsView)
    requires
        metrics.wf(),
    ensures
        ({
            let text = crate::metrics::relay_text(metrics);
            let label = crate::metrics::escaped(metrics.name);
            &&& shows_counter(
                text,
                "portrelay_active_connections"@,
                label,
                metrics.active_connections,
            )
            &&& shows_counter(
                text,
                "portrelay_connections_accepted_total"@,
                label,
                metrics.connections_accepted,
            )
            &&& shows_counter(
                text,
                "portrelay_connections_rejected_total"@,
                label,
                metrics.connections_rejected,
            )
            &&& shows_counter(
                text,
                "portrelay_connections_closed_total"@,
                label,
                metrics.connections_closed,
            )
            &&& shows_counter(
                text,
                "portrelay_upstream_connect_failures_total"@,
                label,
                metrics.upstream_connect_failures,
            )
            &&& shows_counter(
                text,
                "portrelay_upstream_connect_timeouts_total"@,
                label,
                metrics.upstream_connect_timeouts,
            )
            &&& shows_counter(text, "portrelay_idle_timeouts_total"@, label, metrics.idle_timeouts)
            &&& shows_counter(
                text,
                "portrelay_bytes_client_to_upstream_total"@,
                label,
                metrics.bytes_client_to_upstream,
            )
            &&& shows_counter(
                text,
                "portrelay_bytes_upstream_to_client_total"@,
                label,
                metrics.bytes_upstream_to_client,
            )
            &&& shows_histogram(
                text,
                metrics.connection_duration,
                "portrelay_connection_duration_seconds"@,
                label,
            )
            &&& shows_histogram(
                text,
                metrics.upstream_connect_duration,
                "portrelay_upstream_connect_duration_seconds"@,
                label,
            )
            &&& text == joined(sample_parts(metrics), 11)
            &&& line_count(text) == 39
            &&& ends_lines(text)
        }),
{
    let label = crate::metrics::escaped(metrics.name);
    crate::metrics::lemma_escaped_one_line(metrics.name);
    crate::metrics::lemma_metric_names();
    let a = lemma_shows_counter("portrelay_active_connections"@, label, metrics.active_connections);
    let b = lemma_shows_counter(
        "portrelay_connections_accepted_total"@,
        label,
        metrics.connections_accepted,
    );
    let c = lemma_shows_counter(
        "portrelay_connections_rejected_total"@,
        label,
        metrics.connections_rejected,
    );
    let d = lemma_shows_counter(
        "portrelay_connections_closed_total"@,
        label,
        metrics.connections_closed,
    );
    let e = lemma_shows_counter(
        "portrelay_upstream_connect_failures_total"@,
        label,
        metrics.upstream_connect_failures,
    );
    let f = lemma_shows_counter(
        "portrelay_upstream_connect_timeouts_total"@,
        label,
        metrics.upstream_connect_timeouts,
    );
    let g = lemma_shows_counter("portrelay_idle_timeouts_total"@, label, metrics.idle_timeouts);
    let h = lemma_shows_counter(
        "portrelay_bytes_client_to_upstream_total"@,
        label,
        metrics.bytes_client_to_upstream,
    );
    let i = lemma_shows_counter(
        "portrelay_bytes_upstream_to_client_total"@,
        label,
        metrics.bytes_upstream_to_client,
    );
    let j = crate::metrics::histogram_text(
        metrics.connection_duration,
        "portrelay_connection_duration_seconds"@,
        label,
    );
    histograms_show_all_samples(
        metrics.connection_duration,
        "portrelay_connection_duration_seconds"@,
        label,
    );
    let k = crate::metrics::histogram_text(
        metrics.upstream_connect_duration,
        "portrelay_upstream_connect_duration_seconds"@,
        label,
    );
    histograms_show_all_samples(
        metrics.upstream_connect_duration,
        "portrelay_upstream_connect_duration_seconds"@,
        label,
    );
    let parts = seq![a, b, c, d, e, f, g, h, i, j, k];
    let text = joined(parts, 11);
    assert(crate::metrics::relay_text(metrics) == text) by {
        reveal(crate::metrics::relay_text);
        assert(Seq::<char>::empty() + a =~= a);
        let after = lemma_join_step(parts, Seq::empty(), a, 1);
        let after = lemma_join_step(parts, after, b, 2);
        let after = lemma_join_step(parts, after, c, 3);
        let after = lemma_join_step(parts, after, d, 4);
        let after = lemma_join_step(parts, after, e, 5);
        let after = lemma_join_step(parts, after, f, 6);
        let after = lemma_join_step(parts, after, g, 7);
        let after = lemma_join_step(parts, after, h, 8);
        let after = lemma_join_step(parts, after, i, 9);
        let after = lemma_join_step(parts, after, j, 10);
        let after = lemma_join_step(parts, after, k, 11);
    }
    assert(parts =~= sample_parts(metrics));
    lemma_joined(parts, 11);
    assert(joined_lines(parts, 11) == 39) by {
        reveal_with_fuel(joined_lines, 12);
    }
    assert(holds_line(parts[0], a));
    assert(holds_line(parts[1], b));
    assert(holds_line(parts[2], c));
    assert(holds_line(parts[3], d));
    assert(holds_line(parts[4], e));
    assert(holds_line(parts[5], f));
    assert(holds_line(parts[6], g));
    assert(holds_line(parts[7], h));
    assert(holds_line(parts[8], i));
    lemma_shows_within(parts, 9, metrics.connection_duration, "portrelay_connection_duration_seconds"@, label);
    lemma_shows_within(parts, 10, metrics.upstream_connect_duration, "portrelay_upstream_connect_duration_seconds"@, label);
}

proof fn lemma_shows_within(
    parts: Seq<Seq<char>>,
    place: int,
    histogram: HistogramView,
    name: Seq<char>,
    label: Seq<char>,
)
    requires
        0 <= place < parts.len(),
        shows_histogram(parts[place], histogram, name, label),
        forall|i: int| 0 <= i < parts.len() ==> ends_lines(#[trigger] parts[i]),
    ensures
        shows_histogram(joined(parts, parts.len()), histogram, name, label),
{
    lemma_joined(parts, parts.len());
    let text = joined(parts, parts.len());
    assert forall|bucket: int| 0 <= bucket < 12 implies holds_line(
        text,
        #[trigger] line_of_bucket(histogram, name, label, bucket),
    ) by {
        assert(holds_line(parts[place], line_of_bucket(histogram, name, label, bucket)));
    }
}

/// A metric is described in two lines: what it is for, and what kind it is of.
pub open spec fn describes(
    text: Seq<char>,
    name: Seq<char>,
    help: Seq<char>,
    kind: Seq<char>,
) -> bool {
    &&& holds_line(text, "# HELP "@ + name + " "@ + help + "\n"@)
    &&& holds_line(text, "# TYPE "@ + name + " "@ + kind + "\n"@)
}

proof fn lemma_description(name: Seq<char>, help: Seq<char>, kind: Seq<char>) -> (text: Seq<char>)
    requires
        crate::metrics::is_one_line(name),
        crate::metrics::is_one_line(help),
        crate::metrics::is_one_line(kind),
    ensures
        text == crate::metrics::help_text(name, help, kind),
        describes(text, name, help, kind),
        ends_lines(text),
        line_count(text) == 2,
{
    reveal_strlit("# HELP ");
    reveal_strlit("# TYPE ");
    reveal_strlit(" ");
    reveal_strlit("\n");
    let first = "# HELP "@ + name + " "@ + help + "\n"@;
    let second = "# TYPE "@ + name + " "@ + kind + "\n"@;
    assert(first.drop_last() =~= "# HELP "@ + name + " "@ + help);
    assert(second.drop_last() =~= "# TYPE "@ + name + " "@ + kind);
    lemma_line_itself(first);
    lemma_line_itself(second);
    lemma_append(first, second);
    reveal(crate::metrics::help_text);
    let text = crate::metrics::help_text(name, help, kind);
    assert(text =~= first + second);
    text
}

/// Every metric is described, with its help text and its kind, and nothing else is.
#[verifier::spinoff_prover]
#[verifier::rlimit(60)]
pub proof fn every_metric_is_described()
    ensures
        ({
            let text = crate::metrics::metadata();
            &&& describes(
                text,
                "portrelay_active_connections"@,
                "Active proxied TCP connections."@,
                "gauge"@,
            )
            &&& describes(
                text,
                "portrelay_connections_accepted_total"@,
                "Accepted proxied TCP connections."@,
                "counter"@,
            )
            &&& describes(
                text,
                "portrelay_connections_rejected_total"@,
                "Connections rejected by admission limits."@,
                "counter"@,
            )
            &&& describes(
                text,
                "portrelay_connections_closed_total"@,
                "Closed proxied TCP connections."@,
                "counter"@,
            )
            &&& describes(
                text,
                "portrelay_upstream_connect_failures_total"@,
                "Upstream connection failures."@,
                "counter"@,
            )
            &&& describes(
                text,
                "portrelay_upstream_connect_timeouts_total"@,
                "Upstream connection timeouts."@,
                "counter"@,
            )
            &&& describes(
                text,
                "portrelay_idle_timeouts_total"@,
                "Connections closed by idle timeout."@,
                "counter"@,
            )
            &&& describes(
                text,
                "portrelay_bytes_client_to_upstream_total"@,
                "Bytes copied from clients to upstreams."@,
                "counter"@,
            )
            &&& describes(
                text,
                "portrelay_bytes_upstream_to_client_total"@,
                "Bytes copied from upstreams to clients."@,
                "counter"@,
            )
            &&& describes(
                text,
                "portrelay_connection_duration_seconds"@,
                "Proxied TCP connection duration."@,
                "histogram"@,
            )
            &&& describes(
                text,
                "portrelay_upstream_connect_duration_seconds"@,
                "Upstream TCP connection duration."@,
                "histogram"@,
            )
            &&& line_count(text) == 22
            &&& ends_lines(text)
        }),
{
    crate::metrics::lemma_metric_names();
    lemma_help_texts();
    let a = lemma_description(
        "portrelay_active_connections"@,
        "Active proxied TCP connections."@,
        "gauge"@,
    );
    let b = lemma_description(
        "portrelay_connections_accepted_total"@,
        "Accepted proxied TCP connections."@,
        "counter"@,
    );
    let c = lemma_description(
        "portrelay_connections_rejected_total"@,
        "Connections rejected by admission limits."@,
        "counter"@,
    );
    let d = lemma_description(
        "portrelay_connections_closed_total"@,
        "Closed proxied TCP connections."@,
        "counter"@,
    );
    let e = lemma_description(
        "portrelay_upstream_connect_failures_total"@,
        "Upstream connection failures."@,
        "counter"@,
    );
    let f = lemma_description(
        "portrelay_upstream_connect_timeouts_total"@,
        "Upstream connection timeouts."@,
        "counter"@,
    );
    let g = lemma_description(
        "portrelay_idle_timeouts_total"@,
        "Connections closed by idle timeout."@,
        "counter"@,
    );
    let h = lemma_description(
        "portrelay_bytes_client_to_upstream_total"@,
        "Bytes copied from clients to upstreams."@,
        "counter"@,
    );
    let i = lemma_description(
        "portrelay_bytes_upstream_to_client_total"@,
        "Bytes copied from upstreams to clients."@,
        "counter"@,
    );
    let j = lemma_description(
        "portrelay_connection_duration_seconds"@,
        "Proxied TCP connection duration."@,
        "histogram"@,
    );
    let k = lemma_description(
        "portrelay_upstream_connect_duration_seconds"@,
        "Upstream TCP connection duration."@,
        "histogram"@,
    );
    let parts = seq![a, b, c, d, e, f, g, h, i, j, k];
    let text = joined(parts, 11);
    assert(crate::metrics::metadata() == text) by {
        reveal(crate::metrics::metadata);
        assert(Seq::<char>::empty() + a =~= a);
        let after = lemma_join_step(parts, Seq::empty(), a, 1);
        let after = lemma_join_step(parts, after, b, 2);
        let after = lemma_join_step(parts, after, c, 3);
        let after = lemma_join_step(parts, after, d, 4);
        let after = lemma_join_step(parts, after, e, 5);
        let after = lemma_join_step(parts, after, f, 6);
        let after = lemma_join_step(parts, after, g, 7);
        let after = lemma_join_step(parts, after, h, 8);
        let after = lemma_join_step(parts, after, i, 9);
        let after = lemma_join_step(parts, after, j, 10);
        let after = lemma_join_step(parts, after, k, 11);
    }
    lemma_joined(parts, 11);
    assert(joined_lines(parts, 11) == 22) by {
        reveal_with_fuel(joined_lines, 12);
    }
    lemma_describes_within(
        parts,
        0,
        "portrelay_active_connections"@,
        "Active proxied TCP connections."@,
        "gauge"@,
    );
    lemma_describes_within(
        parts,
        1,
        "portrelay_connections_accepted_total"@,
        "Accepted proxied TCP connections."@,
        "counter"@,
    );
    lemma_describes_within(
        parts,
        2,
        "portrelay_connections_rejected_total"@,
        "Connections rejected by admission limits."@,
        "counter"@,
    );
    lemma_describes_within(
        parts,
        3,
        "portrelay_connections_closed_total"@,
        "Closed proxied TCP connections."@,
        "counter"@,
    );
    lemma_describes_within(
        parts,
        4,
        "portrelay_upstream_connect_failures_total"@,
        "Upstream connection failures."@,
        "counter"@,
    );
    lemma_describes_within(
        parts,
        5,
        "portrelay_upstream_connect_timeouts_total"@,
        "Upstream connection timeouts."@,
        "counter"@,
    );
    lemma_describes_within(
        parts,
        6,
        "portrelay_idle_timeouts_total"@,
        "Connections closed by idle timeout."@,
        "counter"@,
    );
    lemma_describes_within(
        parts,
        7,
        "portrelay_bytes_client_to_upstream_total"@,
        "Bytes copied from clients to upstreams."@,
        "counter"@,
    );
    lemma_describes_within(
        parts,
        8,
        "portrelay_bytes_upstream_to_client_total"@,
        "Bytes copied from upstreams to clients."@,
        "counter"@,
    );
    lemma_describes_within(
        parts,
        9,
        "portrelay_connection_duration_seconds"@,
        "Proxied TCP connection duration."@,
        "histogram"@,
    );
    lemma_describes_within(
        parts,
        10,
        "portrelay_upstream_connect_duration_seconds"@,
        "Upstream TCP connection duration."@,
        "histogram"@,
    );
}

proof fn lemma_describes_within(
    parts: Seq<Seq<char>>,
    place: int,
    name: Seq<char>,
    help: Seq<char>,
    kind: Seq<char>,
)
    requires
        0 <= place < parts.len(),
        describes(parts[place], name, help, kind),
        forall|i: int| 0 <= i < parts.len() ==> ends_lines(#[trigger] parts[i]),
    ensures
        describes(joined(parts, parts.len()), name, help, kind),
{
    lemma_joined(parts, parts.len());
}

proof fn lemma_help_texts()
    ensures
        crate::metrics::is_one_line("Active proxied TCP connections."@),
        crate::metrics::is_one_line("Accepted proxied TCP connections."@),
        crate::metrics::is_one_line("Connections rejected by admission limits."@),
        crate::metrics::is_one_line("Closed proxied TCP connections."@),
        crate::metrics::is_one_line("Upstream connection failures."@),
        crate::metrics::is_one_line("Upstream connection timeouts."@),
        crate::metrics::is_one_line("Connections closed by idle timeout."@),
        crate::metrics::is_one_line("Bytes copied from clients to upstreams."@),
        crate::metrics::is_one_line("Bytes copied from upstreams to clients."@),
        crate::metrics::is_one_line("Proxied TCP connection duration."@),
        crate::metrics::is_one_line("Upstream TCP connection duration."@),
        crate::metrics::is_one_line("gauge"@),
        crate::metrics::is_one_line("counter"@),
        crate::metrics::is_one_line("histogram"@),
{
    reveal_strlit("Active proxied TCP connections.");
    reveal_strlit("Accepted proxied TCP connections.");
    reveal_strlit("Connections rejected by admission limits.");
    reveal_strlit("Closed proxied TCP connections.");
    reveal_strlit("Upstream connection failures.");
    reveal_strlit("Upstream connection timeouts.");
    reveal_strlit("Connections closed by idle timeout.");
    reveal_strlit("Bytes copied from clients to upstreams.");
    reveal_strlit("Bytes copied from upstreams to clients.");
    reveal_strlit("Proxied TCP connection duration.");
    reveal_strlit("Upstream TCP connection duration.");
    reveal_strlit("gauge");
    reveal_strlit("counter");
    reveal_strlit("histogram");
}

proof fn lemma_relays_text(relays: Seq<RelayMetricsView>, more: RelayMetricsView, count: nat)
    requires
        count <= relays.len(),
    ensures
        crate::metrics::relays_text(relays.push(more), count) == crate::metrics::relays_text(
            relays,
            count,
        ),
    decreases count,
{
    if count > 0 {
        lemma_relays_text(relays, more, (count - 1) as nat);
        assert(relays.push(more)[count - 1] == relays[count - 1]);
    }
}

/// The exposition describes the metrics and then gives the samples of each relay, in their order:
/// one more relay adds its samples at the end and changes nothing before them.
pub proof fn expositions_grow_by_relay(relays: Seq<RelayMetricsView>, more: RelayMetricsView)
    ensures
        crate::metrics::exposition(Seq::empty()) == crate::metrics::metadata(),
        crate::metrics::exposition(relays.push(more)) == crate::metrics::exposition(relays)
            + crate::metrics::relay_text(more),
{
    let described = crate::metrics::metadata();
    assert(crate::metrics::relays_text(Seq::<RelayMetricsView>::empty(), 0) =~= Seq::empty());
    assert(described + Seq::<char>::empty() =~= described);
    lemma_relays_text(relays, more, relays.len());
    let before = crate::metrics::relays_text(relays, relays.len());
    assert(relays.push(more)[relays.len() as int] == more);
    assert(crate::metrics::relays_text(relays.push(more), relays.len() + 1) == before
        + crate::metrics::relay_text(more));
    assert(described + (before + crate::metrics::relay_text(more)) =~= described + before
        + crate::metrics::relay_text(more));
}

/// What a registry shows of its relays is what their counters hold, in their order.
pub proof fn registries_keep_their_relays(
    relays: Seq<std::sync::Arc<crate::metrics::RelayMetrics>>,
    index: int,
)
    requires
        0 <= index < relays.len(),
    ensures
        crate::metrics::metrics_views(relays).len() == relays.len(),
        crate::metrics::metrics_views(relays)[index] == (*relays[index])@,
{
}

/// A label stands in the text as it is, but for backslashes, quotes and line breaks, each of which
/// has a backslash before it.
pub proof fn labels_are_escaped_by_character(text: Seq<char>, more: char)
    ensures
        crate::metrics::escaped(Seq::empty()) == Seq::<char>::empty(),
        more == '\\' ==> crate::metrics::escaped(text.push(more)) == crate::metrics::escaped(text)
            + seq!['\\', '\\'],
        more == '"' ==> crate::metrics::escaped(text.push(more)) == crate::metrics::escaped(text)
            + seq!['\\', '"'],
        more == '\n' ==> crate::metrics::escaped(text.push(more)) == crate::metrics::escaped(text)
            + seq!['\\', 'n'],
        more != '\\' && more != '"' && more != '\n' ==> crate::metrics::escaped(text.push(more))
            == crate::metrics::escaped(text).push(more),
{
    reveal_strlit("\\\\");
    reveal_strlit("\\\"");
    reveal_strlit("\\n");
    assert(text.push(more).drop_last() =~= text);
    assert("\\\\"@ =~= seq!['\\', '\\']);
    assert("\\\""@ =~= seq!['\\', '"']);
    assert("\\n"@ =~= seq!['\\', 'n']);
}

} // verus!
