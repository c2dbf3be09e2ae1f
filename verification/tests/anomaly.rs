use env_awareness::anomaly::{Anomaly, AnomalyDetector, Severity};
use env_awareness::config::ConfigError;

fn feed(detector: &mut AnomalyDetector, values: &[i32]) -> Option<Anomaly> {
    let mut last = None;
    for (i, v) in values.iter().enumerate() {
        last = detector.detect(*v, i as u64);
    }
    last
}

#[test]
fn anomaly_test_anomaly_detection() {
    let mut detector = AnomalyDetector::new(10).unwrap();

    // Normal values
    for i in 0..10 {
        detector.detect(500_000, i as u64);
    }

    // Anomalous value
    let anomaly = detector.detect(2_000_000, 10);
    assert!(anomaly.is_some());

    if let Some(a) = anomaly {
        assert!(a.z_score > 2_000_000);
        assert_eq!(a.value, 2_000_000);
    }
}

#[test]
fn test_running_statistics() {
    let mut detector = AnomalyDetector::new(5).unwrap();

    for i in 0..5 {
        detector.detect(i * 1_000_000, i as u64);
    }

    assert_eq!(detector.window_len(), 5);
    assert_eq!(detector.window_sum(), 10_000_000); // 0+1+2+3+4
}

#[test]
fn outlier_after_nine_equal_values_has_z_score_three() {
    let mut detector = AnomalyDetector::new(10).unwrap();
    for i in 0..10 {
        assert!(detector.detect(500_000, i).is_none());
    }
    let found = detector.detect(2_000_000, 10).unwrap();
    assert_eq!(found.mean, 650_000);
    assert_eq!(found.stdev, 450_000);
    assert_eq!(found.z_score, 3_000_000);
    assert_eq!(found.value, 2_000_000);
    assert_eq!(found.timestamp, 10);
    // High begins above three standard deviations; exactly three is Medium.
    assert_eq!(found.severity, Severity::Medium);
    assert_eq!(detector.anomaly_count(), 1);
    assert_eq!(detector.get_anomalies(), &[found]);
}

#[test]
fn severity_tiers() {
    let mut high = AnomalyDetector::new(20).unwrap();
    let mut values = vec![500_000; 19];
    values.push(2_000_000);
    let found = feed(&mut high, &values).unwrap();
    assert_eq!(found.mean, 575_000);
    assert_eq!(found.stdev, 326_917);
    assert_eq!(found.z_score, 4_358_904);
    assert_eq!(found.severity, Severity::High);

    let mut medium = AnomalyDetector::new(20).unwrap();
    let found = feed(&mut medium, &[0, 0, 0, 0, 0, 0, 0, 1_000_000]).unwrap();
    assert_eq!((found.mean, found.stdev, found.z_score), (125_000, 330_718, 2_645_758));
    assert_eq!(found.severity, Severity::Medium);

    let mut low = AnomalyDetector::new(20).unwrap();
    let found = feed(&mut low, &[0, 0, 0, 0, 0, 1_000_000]).unwrap();
    assert_eq!((found.mean, found.stdev, found.z_score), (166_666, 372_678, 2_236_069));
    assert_eq!(found.severity, Severity::Low);

    let mut quiet = AnomalyDetector::new(20).unwrap();
    assert!(feed(&mut quiet, &[100_000, 200_000, 300_000, 400_000, 1_000_000]).is_none());
    assert_eq!(quiet.anomaly_count(), 0);
}

#[test]
fn constant_values_are_never_anomalous() {
    for capacity in [1usize, 2, 3, 7] {
        let mut detector = AnomalyDetector::new(capacity).unwrap();
        for i in 0..50 {
            assert!(detector.detect(500_000, i).is_none());
        }
        assert_eq!(detector.anomaly_count(), 0);
    }
    let mut negative = AnomalyDetector::new(4).unwrap();
    for i in 0..20 {
        assert!(negative.detect(-123_457, i).is_none());
    }
}

#[test]
fn near_constant_window_is_short_circuited() {
    // A standard deviation of at most 1e-4 counts as none at all.
    let mut detector = AnomalyDetector::new(10).unwrap();
    assert!(feed(&mut detector, &[-1, -2, -3, -4]).is_none());
    let mut tight = AnomalyDetector::new(10).unwrap();
    assert!(feed(&mut tight, &[0, 0, 0, 0, 0, 0, 0, 0, 0, 300]).is_none());
}

#[test]
fn fewer_than_three_values_report_nothing() {
    let mut detector = AnomalyDetector::new(10).unwrap();
    assert!(detector.detect(0, 0).is_none());
    assert!(detector.detect(2_000_000_000, 1).is_none());
    assert_eq!(detector.window_len(), 2);
}

#[test]
fn window_evicts_oldest_and_sums_stay_exact() {
    let mut detector = AnomalyDetector::new(3).unwrap();
    feed(&mut detector, &[1, 2, 3, 4, 5]);
    assert_eq!(detector.window_len(), 3);
    assert_eq!(detector.window_sum(), 3 + 4 + 5);
    assert_eq!(detector.window_sum_sq(), 9 + 16 + 25);
    feed(&mut detector, &[i32::MAX, i32::MIN, i32::MIN]);
    assert_eq!(detector.window_sum(), i32::MAX as i128 + 2 * (i32::MIN as i128));
    assert_eq!(
        detector.window_sum_sq(),
        (i32::MAX as i128) * (i32::MAX as i128) + 2 * (i32::MIN as i128) * (i32::MIN as i128)
    );
}

#[test]
fn negative_values_round_the_mean_down() {
    let mut detector = AnomalyDetector::new(10).unwrap();
    assert!(feed(&mut detector, &[-500_000, -400_000, -600_000, -2_000_000]).is_none());
    let mut other = AnomalyDetector::new(10).unwrap();
    let mut values = vec![-500_000; 19];
    values.push(-2_000_000);
    let mut wide = AnomalyDetector::new(20).unwrap();
    let found = feed(&mut wide, &values).unwrap();
    assert_eq!(found.mean, -575_000);
    assert_eq!(found.z_score, 4_358_904);
    assert!(feed(&mut other, &[-1, -1, -2]).is_none());
}

#[test]
fn clear_empties_window_and_history() {
    let mut detector = AnomalyDetector::new(10).unwrap();
    let mut values = vec![500_000; 9];
    values.push(2_000_000);
    assert!(feed(&mut detector, &values).is_some());
    detector.clear();
    assert_eq!(detector.window_len(), 0);
    assert_eq!(detector.window_sum(), 0);
    assert_eq!(detector.window_sum_sq(), 0);
    assert_eq!(detector.anomaly_count(), 0);
    assert!(detector.get_anomalies().is_empty());
    // The capacity is kept: the same stream gives the same anomaly again.
    let found = feed(&mut detector, &values).unwrap();
    assert_eq!(found.z_score, 3_000_000);
}

#[test]
fn zero_capacity_detector_is_rejected() {
    assert!(matches!(AnomalyDetector::new(0), Err(ConfigError::ZeroAnomalyWindow)));
    assert!(AnomalyDetector::new(1).is_ok());
}
