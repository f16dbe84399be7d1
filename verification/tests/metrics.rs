use std::sync::Arc;

use portrelay::duration::Duration;
use portrelay::metrics::{
    escape_label, render_help_type, render_metric_metadata, Histogram, MetricsRegistry,
    RelayMetrics,
};

fn rendered(metrics: &RelayMetrics) -> String {
    let mut text = String::new();
    metrics.render(&mut text);
    text
}

fn sample(text: &str, name: &str) -> String {
    text.lines()
        .find_map(|line| line.strip_prefix(&format!("{name} ")))
        .unwrap_or_else(|| panic!("{name} is missing in {text}"))
        .to_owned()
}

#[test]
fn renders_metadata_once_for_multiple_relays() {
    let registry = MetricsRegistry::new(vec![
        Arc::new(RelayMetrics::new("first")),
        Arc::new(RelayMetrics::new("second")),
    ]);
    let output = registry.render();
    assert_eq!(
        output
            .matches("# TYPE portrelay_active_connections gauge")
            .count(),
        1
    );
    assert!(output.contains("relay=\"first\""));
    assert!(output.contains("relay=\"second\""));
}

#[test]
fn descriptions_stand_before_all_samples() {
    let registry = MetricsRegistry::new(vec![
        Arc::new(RelayMetrics::new("# HELP\n# TYPE")),
        Arc::new(RelayMetrics::new("second")),
    ]);
    let output = registry.render();
    let mut metadata = String::new();
    render_metric_metadata(&mut metadata);
    assert_eq!(metadata.lines().count(), 22);
    let samples = output.strip_prefix(&metadata).unwrap();
    assert!(samples.ends_with('\n'));
    assert!(samples.lines().all(|line| line.starts_with("portrelay_")));
    assert_eq!(samples.lines().count(), 2 * (9 + 2 * 15));
}

#[test]
fn descriptions_have_two_lines() {
    let mut text = String::from("-");
    render_help_type(&mut text, "name", "Some help.", "gauge");
    assert_eq!(text, "-# HELP name Some help.\n# TYPE name gauge\n");
}

#[test]
fn counters_follow_connections() {
    let mut metrics = RelayMetrics::new("db");
    assert_eq!(metrics.name(), "db");
    metrics.accepted();
    metrics.accepted();
    metrics.rejected();
    metrics.upstream_failure();
    metrics.upstream_timeout();
    metrics.upstream_timeout();
    metrics.idle_timeout();
    metrics.closed(Duration::from_millis(1_500), 14, 3);
    let text = rendered(&metrics);
    let value = |name: &str| sample(&text, &format!("portrelay_{name}{{relay=\"db\"}}"));
    assert_eq!(value("active_connections"), "1");
    assert_eq!(value("connections_accepted_total"), "2");
    assert_eq!(value("connections_rejected_total"), "1");
    assert_eq!(value("connections_closed_total"), "1");
    assert_eq!(value("upstream_connect_failures_total"), "1");
    assert_eq!(value("upstream_connect_timeouts_total"), "2");
    assert_eq!(value("idle_timeouts_total"), "1");
    assert_eq!(value("bytes_client_to_upstream_total"), "14");
    assert_eq!(value("bytes_upstream_to_client_total"), "3");
    assert_eq!(value("connection_duration_seconds_count"), "1");
    assert_eq!(value("connection_duration_seconds_sum"), "1.500000");
    assert_eq!(value("upstream_connect_duration_seconds_count"), "0");
    metrics.observe_upstream_connect(Duration::from_millis(7));
    let text = rendered(&metrics);
    assert_eq!(
        sample(&text, "portrelay_upstream_connect_duration_seconds_sum{relay=\"db\"}"),
        "0.007000"
    );
}

#[test]
fn closing_takes_back_what_accepting_added() {
    let mut metrics = RelayMetrics::new("db");
    metrics.accepted();
    let before = sample(&rendered(&metrics), "portrelay_active_connections{relay=\"db\"}");
    metrics.accepted();
    metrics.closed(Duration::from_secs(1), 1, 1);
    let after = sample(&rendered(&metrics), "portrelay_active_connections{relay=\"db\"}");
    assert_eq!(before, after);
}

#[test]
fn counters_start_over_beyond_their_range() {
    let mut metrics = RelayMetrics::new("db");
    metrics.closed(Duration::from_secs(1), u64::MAX, 1);
    metrics.closed(Duration::from_secs(1), 3, 1);
    let text = rendered(&metrics);
    assert_eq!(
        sample(&text, "portrelay_active_connections{relay=\"db\"}"),
        (u64::MAX - 1).to_string()
    );
    assert_eq!(
        sample(&text, "portrelay_bytes_client_to_upstream_total{relay=\"db\"}"),
        "2"
    );
}

#[test]
fn histograms_count_up_to_each_bound() {
    let mut histogram = Histogram::new();
    histogram.observe(Duration::from_millis(1));
    histogram.observe(Duration::new(0, 1_999_999));
    histogram.observe(Duration::from_millis(2));
    histogram.observe(Duration::from_millis(400));
    histogram.observe(Duration::from_secs(300));
    histogram.observe(Duration::from_secs(301));
    let mut text = String::new();
    histogram.render(&mut text, "wait", "x");
    assert_eq!(
        text,
        "wait_bucket{relay=\"x\",le=\"0.001\"} 2\n\
         wait_bucket{relay=\"x\",le=\"0.005\"} 3\n\
         wait_bucket{relay=\"x\",le=\"0.010\"} 3\n\
         wait_bucket{relay=\"x\",le=\"0.025\"} 3\n\
         wait_bucket{relay=\"x\",le=\"0.050\"} 3\n\
         wait_bucket{relay=\"x\",le=\"0.100\"} 3\n\
         wait_bucket{relay=\"x\",le=\"0.250\"} 3\n\
         wait_bucket{relay=\"x\",le=\"0.500\"} 4\n\
         wait_bucket{relay=\"x\",le=\"1\"} 4\n\
         wait_bucket{relay=\"x\",le=\"5\"} 4\n\
         wait_bucket{relay=\"x\",le=\"30\"} 4\n\
         wait_bucket{relay=\"x\",le=\"300\"} 5\n\
         wait_bucket{relay=\"x\",le=\"+Inf\"} 6\n\
         wait_sum{relay=\"x\"} 601.404999\n\
         wait_count{relay=\"x\"} 6\n"
    );
}

#[test]
fn huge_durations_are_capped() {
    let mut histogram = Histogram::new();
    histogram.observe(Duration::from_secs(u64::MAX));
    let mut text = String::new();
    histogram.render(&mut text, "wait", "x");
    assert_eq!(
        sample(&text, "wait_sum{relay=\"x\"}"),
        format!("{:.6}", u64::MAX as f64 / 1_000_000.0)
    );
    assert_eq!(sample(&text, "wait_bucket{relay=\"x\",le=\"300\"}"), "0");
}

#[test]
fn labels_escape_what_would_end_them() {
    for name in ["plain", "a\\b", "say \"hi\"", "two\nlines", "\\n", "\\\"\n\\", "ü€"] {
        let expected = name
            .replace('\\', "\\\\")
            .replace('"', "\\\"")
            .replace('\n', "\\n");
        assert_eq!(escape_label(name), expected);
    }
    assert_ne!(escape_label("\\n"), escape_label("\n"));
}

#[test]
fn labels_read_back_as_names() {
    for name in ["plain", "a\\b", "say \"hi\"", "two\nlines", "\\n", "\\\"\n\\"] {
        let text = format!("{}\"}} 1", escape_label(name));
        let mut read = String::new();
        let mut chars = text.chars();
        loop {
            match chars.next().unwrap() {
                '"' => break,
                '\\' => match chars.next().unwrap() {
                    'n' => read.push('\n'),
                    other => read.push(other),
                },
                other => read.push(other),
            }
        }
        assert_eq!(read, name);
        assert_eq!(chars.as_str(), "} 1");
    }
}
