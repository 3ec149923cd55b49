use ffsim::flight_loop::{LatencyHarness, Observation};

#[test]
fn harness_emits_exactly_target_rows_once() {
    let mut h = LatencyHarness::new(2, 3);
    let mut reports = 0;
    // five distinct samples: two sacrificial, three recorded
    for k in 1..=5u64 {
        let time = k * 10;
        let now = time + 1000;
        let (obs, report) = h.observe(time, now);
        assert_eq!(obs, Observation::Counted);
        if k < 5 {
            assert!(report.is_none(), "no report before the target count");
        } else {
            let rep = report.expect("the observation reaching the target emits the report");
            assert_eq!(rep.latencies, vec![1000, 1000, 1000]);
            assert_eq!(rep.cycle_count, 3);
            // the window opened at the first recorded sample (time 30,
            // observed at 1030) and closed at 1050
            assert_eq!(rep.elapsed_ns, 20);
            reports += 1;
        }
    }
    assert_eq!(reports, 1);
    // the harness is idle: further samples change nothing and emit nothing
    for k in 6..=20u64 {
        let (obs, report) = h.observe(k * 10, k * 10 + 500);
        assert_eq!(obs, Observation::Ignored);
        assert!(report.is_none());
    }
}

#[test]
fn epoch_sentinel_is_ignored() {
    let mut h = LatencyHarness::new(0, 1);
    let (obs, report) = h.observe(0, 999);
    assert_eq!(obs, Observation::Ignored);
    assert!(report.is_none());
}

#[test]
fn duplicate_timestamp_is_ignored() {
    let mut h = LatencyHarness::new(0, 5);
    assert_eq!(h.observe(100, 150).0, Observation::Counted);
    assert_eq!(h.observe(100, 180).0, Observation::Ignored);
    assert_eq!(h.observe(101, 180).0, Observation::Counted);
}

#[test]
fn clock_anomaly_skips_the_sample() {
    let mut h = LatencyHarness::new(0, 2);
    let (obs, report) = h.observe(500, 400);
    assert_eq!(obs, Observation::ClockAnomaly);
    assert!(report.is_none());
    // the skipped sample did not advance the count
    assert_eq!(h.observe(500, 600).0, Observation::Counted);
    let (obs2, report2) = h.observe(700, 800);
    assert_eq!(obs2, Observation::Counted);
    let rep = report2.expect("second counted sample completes the pair");
    assert_eq!(rep.latencies, vec![100, 100]);
}

#[test]
fn excessive_latency_is_flagged_not_recorded() {
    let mut h = LatencyHarness::new(0, 1);
    let (obs, report) = h.observe(1, 2_000_000_001);
    assert_eq!(obs, Observation::Excessive);
    assert!(report.is_none());
    // the harness itself is unchanged and still accepts a sane sample
    let (obs2, report2) = h.observe(5, 105);
    assert_eq!(obs2, Observation::Counted);
    assert_eq!(report2.expect("target of one").latencies, vec![100]);
}

#[test]
fn sacrificial_window_is_not_recorded() {
    let mut h = LatencyHarness::new(3, 1);
    for k in 1..=3u64 {
        let (obs, report) = h.observe(k, k + 50);
        assert_eq!(obs, Observation::Counted);
        assert!(report.is_none());
    }
    let (obs, report) = h.observe(10, 10 + 77);
    assert_eq!(obs, Observation::Counted);
    let rep = report.expect("first sample after the sacrifice completes a target of one");
    assert_eq!(rep.latencies, vec![77]);
    assert_eq!(rep.cycle_count, 1);
}
