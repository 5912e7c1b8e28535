use mofa_engine::preflight::{PreflightMetrics, PreflightStats};

#[test]
fn metrics_snapshot_counts() {
    let mut m = PreflightMetrics::default();
    m.warm_started();
    m.warm_started();
    m.warm_completed();
    m.hit();
    let snap = m.snapshot();
    assert_eq!(snap.warms_started, 2);
    assert_eq!(snap.warms_completed, 1);
    assert_eq!(snap.hits, 1);
    assert_eq!(snap.misses, 0);
}

#[test]
fn every_counter_is_separate() {
    let mut m = PreflightMetrics::default();
    m.warm_failed();
    m.warm_skipped();
    m.warm_skipped();
    m.prediction();
    m.miss();
    assert_eq!(
        m.snapshot(),
        PreflightStats {
            warms_started: 0,
            warms_completed: 0,
            warms_failed: 1,
            warms_skipped: 2,
            predictions: 1,
            hits: 0,
            misses: 1,
        }
    );
}
