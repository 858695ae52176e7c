use fncache::metrics::{LatencyMetric, Metrics};

fn hit_rate(m: &Metrics) -> f64 {
    let hits = m.hits();
    let misses = m.misses();
    if hits == 0 && misses == 0 {
        0.0
    } else {
        hits as f64 / (hits + misses) as f64
    }
}

#[test]
fn test_metrics_counting() {
    let mut metrics = Metrics::new();

    assert_eq!(metrics.hits(), 0);
    assert_eq!(metrics.misses(), 0);
    assert_eq!(metrics.evictions(), 0);
    assert_eq!(metrics.insertions(), 0);
    assert_eq!(hit_rate(&metrics), 0.0);

    metrics.record_hit();
    metrics.record_miss();
    metrics.record_eviction();
    metrics.record_insertion();

    assert_eq!(metrics.hits(), 1);
    assert_eq!(metrics.misses(), 1);
    assert_eq!(metrics.evictions(), 1);
    assert_eq!(metrics.insertions(), 1);
    assert_eq!(hit_rate(&metrics), 0.5);
}

#[test]
fn test_hit_rate_edge_cases() {
    let mut metrics = Metrics::new();

    assert_eq!(hit_rate(&metrics), 0.0);

    metrics.record_miss();
    assert_eq!(hit_rate(&metrics), 0.0);

    metrics.record_hit();
    let mut metrics = Metrics::new();
    metrics.record_hit();
    assert_eq!(hit_rate(&metrics), 1.0);
}

#[test]
fn entry_size_accounting() {
    let mut m = Metrics::new();
    m.record_entry_size(0, 11);
    m.record_entry_size(0, 13);
    assert_eq!(m.entry_count(), 2);
    assert_eq!(m.total_bytes(), 24);
    assert_eq!(m.average_entry_size(), 12);
    m.record_entry_size(11, 20);
    assert_eq!(m.entry_count(), 2);
    assert_eq!(m.total_bytes(), 33);
    m.record_entry_removal(20);
    assert_eq!(m.entry_count(), 1);
    assert_eq!(m.total_bytes(), 13);
    m.record_entry_removal(100);
    m.record_entry_removal(1);
    assert_eq!(m.entry_count(), 0);
    assert_eq!(m.total_bytes(), 0);
    assert_eq!(m.average_entry_size(), 0);
}

#[test]
fn latency_metric_sums_counts_and_max() {
    let mut l = LatencyMetric::new();
    assert_eq!(l.average_duration().as_nanos(), 0);
    l.record(10);
    l.record(30);
    l.record(20);
    assert_eq!(l.total_ns, 60);
    assert_eq!(l.count, 3);
    assert_eq!(l.max_ns, 30);
    assert_eq!(l.average_duration().as_nanos(), 20);
    l.record(u64::MAX);
    assert_eq!(l.total_ns, u64::MAX);
}

#[test]
fn recorded_latencies_are_counted() {
    let mut m = Metrics::new();
    let t = m.begin_get_timing();
    m.record_get_latency(t);
    let t = m.begin_set_timing();
    m.record_set_latency(t);
    m.record_set_latency(t);
    assert_eq!(m.get_latency().count, 1);
    assert_eq!(m.set_latency().count, 2);
}
