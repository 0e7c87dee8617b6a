use proxy_core::stats::StatsTracker;

#[test]
fn counters_and_exact_ratios() {
    let mut s = StatsTracker::new();
    s.record_request(true, 100, 0);
    s.record_request(false, 300, 0);
    let snap = s.snapshot(1);
    assert_eq!(snap.requests_total, 2);
    assert_eq!(snap.requests_ok, 1);
    assert_eq!(snap.requests_err, 1);
    // 1 of 2 succeeded: 500 per mille.
    assert_eq!(snap.success_rate_permille, 500);
    // Mean of 100 and 300.
    assert_eq!(snap.latency_ms_avg, 200);
    // Sorted sample [100, 300], index min(2*95/100, 1) = 1.
    assert_eq!(snap.latency_ms_p95, 300);
    // Two requests in one second: 2000 thousandths per second.
    assert_eq!(snap.rps_milli, 2000);
    assert_eq!(snap.hourly_counts, vec![2, 0, 0, 0, 0, 0]);
}

#[test]
fn idle_tracker_reports_zeroes() {
    let s = StatsTracker::new();
    let snap = s.snapshot(0);
    assert_eq!(snap.requests_total, 0);
    assert_eq!(snap.success_rate_permille, 0);
    assert_eq!(snap.latency_ms_avg, 0);
    assert_eq!(snap.latency_ms_p95, 0);
    assert_eq!(snap.rps_milli, 0);
    assert_eq!(snap.hourly_counts, vec![0, 0, 0, 0, 0, 0]);
}

#[test]
fn snapshots_are_monotonic_in_the_counters() {
    let mut s = StatsTracker::new();
    let mut last = s.snapshot(0);
    for i in 0..20u64 {
        s.record_request(i % 3 != 0, 10 * i, i);
        let snap = s.snapshot(i);
        assert!(snap.requests_total >= last.requests_total);
        assert!(snap.requests_ok >= last.requests_ok);
        assert!(snap.requests_err >= last.requests_err);
        last = snap;
    }
    assert_eq!(last.requests_total, 20);
    assert_eq!(last.requests_ok + last.requests_err, 20);
}

#[test]
fn latency_sample_keeps_the_most_recent_thousand() {
    let mut s = StatsTracker::new();
    // 1001 observations: the first (latency 0) is evicted.
    for i in 0..1001u64 {
        s.record_request(true, i, 0);
    }
    assert_eq!(s.latencies.len(), 1000);
    assert_eq!(s.latencies[0], 1);
    let snap = s.snapshot(1);
    // Sample is 1..=1000: mean 500.5 floors to 500.
    assert_eq!(snap.latency_ms_avg, 500);
    // Sorted sample 1..=1000, index min(1000*95/100, 999) = 950 -> value 951.
    assert_eq!(snap.latency_ms_p95, 951);
}

#[test]
fn p95_of_single_sample_is_that_sample() {
    let mut s = StatsTracker::new();
    s.record_request(true, 42, 0);
    let snap = s.snapshot(1);
    assert_eq!(snap.latency_ms_p95, 42);
    assert_eq!(snap.latency_ms_avg, 42);
    assert_eq!(snap.success_rate_permille, 1000);
}

#[test]
fn hourly_ring_zeroes_a_slot_on_entry() {
    let mut s = StatsTracker::new();
    s.record_request(true, 1, 0); // slot 0
    s.record_request(true, 1, 10); // still slot 0
    s.record_request(true, 1, 3600); // slot 1: zeroed, then incremented
    let snap = s.snapshot(3600);
    assert_eq!(snap.hourly_counts, vec![2, 1, 0, 0, 0, 0]);
    // Six hours in, the ring wraps back to slot 0, which is zeroed first.
    s.record_request(true, 1, 6 * 3600);
    let snap = s.snapshot(6 * 3600);
    assert_eq!(snap.hourly_counts, vec![1, 1, 0, 0, 0, 0]);
}

#[test]
fn rps_switches_to_the_hourly_estimate_after_a_minute() {
    let mut s = StatsTracker::new();
    for _ in 0..10 {
        s.record_request(true, 5, 30);
    }
    // Within the first minute: total / elapsed.
    assert_eq!(s.snapshot(50).rps_milli, 10 * 1000 / 50);
    // After a minute: current hourly bucket over 3600.
    assert_eq!(s.snapshot(61).rps_milli, 10 * 1000 / 3600);
    // Two hours in, the current bucket is slot 2, not slot 0.
    for _ in 0..5 {
        s.record_request(true, 5, 7300);
    }
    let snap = s.snapshot(7300);
    assert_eq!(snap.hourly_counts[0], 10);
    assert_eq!(snap.hourly_counts[2], 5);
    assert_eq!(snap.rps_milli, 5 * 1000 / 3600);
}
