use std::time::Duration;

use ltengine::metrics::{count, lower, raise, Histogram, Metrics};

#[test]
fn histogram_buckets_are_cumulative() {
    let mut h = Histogram::default();
    h.observe(Duration::from_millis(300).as_nanos());
    h.observe(Duration::from_secs(4).as_nanos());
    let mut out = String::new();
    h.render(&mut out, "x", "help");
    assert!(out.contains("x_bucket{le=\"0.25\"} 0"));
    assert!(out.contains("x_bucket{le=\"0.5\"} 1"));
    assert!(out.contains("x_bucket{le=\"5\"} 2"));
    assert!(out.contains("x_count 2"));
}

#[test]
fn histogram_is_rendered_in_full() {
    let mut h = Histogram::default();
    h.observe(Duration::from_millis(250).as_nanos());
    h.observe(Duration::from_micros(1_500_000).as_nanos());
    let mut out = String::new();
    h.render(&mut out, "x", "help");
    assert!(out.starts_with("# HELP x help\n# TYPE x histogram\n"));
    assert!(out.contains("x_bucket{le=\"0.25\"} 1\n"));
    assert!(out.contains("x_bucket{le=\"+Inf\"} 2\n"));
    assert!(out.ends_with("x_sum 1.75\nx_count 2\n"));
}

#[test]
fn long_times_are_in_no_bucket_but_counted() {
    let mut h = Histogram::default();
    h.observe(Duration::from_secs(100_000).as_nanos());
    assert!(h.buckets.iter().all(|n| *n == 0));
    assert_eq!(h.count, 1);
    assert_eq!(h.sum_micros, 100_000_000_000);
}

#[test]
fn metrics_are_rendered_by_name() {
    let mut m = Metrics::default();
    count(&mut m.requests, 3);
    raise(&mut m.queued);
    lower(&mut m.active);
    m.model_loaded = true;
    let out = m.render();
    assert!(out.starts_with(
        "# HELP ltengine_translate_requests_total Translation requests received.\n\
         # TYPE ltengine_translate_requests_total counter\n\
         ltengine_translate_requests_total 3\n"
    ));
    assert!(out.contains("\nltengine_queued_requests 1\n"));
    assert!(out.contains("\nltengine_active_inferences -1\n"));
    assert!(out.contains("\nltengine_model_loaded 1\n"));
    assert!(out.contains("ltengine_inference_duration_seconds_sum 0\n"));
    assert!(out.contains("ltengine_inference_duration_seconds_count 0\n"));
}

#[test]
fn gauges_come_back() {
    let mut gauge: i64 = 5;
    raise(&mut gauge);
    assert_eq!(gauge, 6);
    lower(&mut gauge);
    assert_eq!(gauge, 5);
    let mut counter: u64 = u64::MAX;
    count(&mut counter, 2);
    assert_eq!(counter, 1);
}
