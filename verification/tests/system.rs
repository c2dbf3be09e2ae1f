use env_awareness::config::{ConfigError, SystemConfig};
use env_awareness::EnvironmentalAwarenessSystem;
use std::time::{Duration, Instant};

#[test]
fn test_system_creation() {
    let system = EnvironmentalAwarenessSystem::new();
    assert_eq!(system.cycle_count(), 0);
}

#[test]
fn test_single_cycle() {
    let mut system = EnvironmentalAwarenessSystem::new();
    let result = system.run_cycle();
    assert_eq!(result.cycle, 1);
    assert!(result.processing_us > 0);
    assert!(result.confidence >= 0 && result.confidence <= 1_000_000);
}

#[test]
fn test_multiple_cycles() {
    let mut system = EnvironmentalAwarenessSystem::new();
    let results = system.run_cycles(10);
    assert_eq!(results.len(), 10);
    assert_eq!(results.last().unwrap().cycle, 10);
}

#[test]
fn test_metrics() {
    let mut system = EnvironmentalAwarenessSystem::new();
    system.run_cycles(100);

    let metrics = system.get_metrics();
    assert_eq!(metrics.cycles, 100);
    assert!(metrics.avg_processing_us > 0);
    assert!(metrics.p50_processing_us > 0);
    assert!(metrics.p95_processing_us >= metrics.p50_processing_us);
    assert!(metrics.p99_processing_us >= metrics.p95_processing_us);
    assert!(metrics.spatial_nodes == 100);
}

#[test]
fn test_reset() {
    let mut system = EnvironmentalAwarenessSystem::new();
    system.run_cycles(10);
    assert_eq!(system.cycle_count(), 10);

    system.reset();
    assert_eq!(system.cycle_count(), 0);
    assert_eq!(system.history_len(), 0);
}

#[test]
fn test_warmup() {
    let mut system = EnvironmentalAwarenessSystem::new();
    system.warmup(50);
    assert_eq!(system.cycle_count(), 0); // Should be reset after warmup
}

#[test]
fn lib_test_anomaly_detection() {
    let mut system = EnvironmentalAwarenessSystem::new();
    let mut anomalies = 0;

    for _ in 0..100 {
        let result = system.run_cycle();
        if result.anomaly_detected {
            anomalies += 1;
        }
    }

    // Should detect some anomalies in 100 cycles
    let metrics = system.get_metrics();
    assert_eq!(metrics.anomalies_detected, anomalies);
}

#[test]
fn test_predictions() {
    let mut system = EnvironmentalAwarenessSystem::new();

    // Need at least 2 observations for predictions
    system.run_cycle();
    system.run_cycle();
    let result = system.run_cycle();

    // Should have prediction by third cycle
    assert!(result.prediction.is_some());

    if let Some(pred) = result.prediction {
        assert!(!pred.values.is_empty());
        assert!(pred.confidence >= 0 && pred.confidence <= 1_000_000);
    }
}

#[test]
fn test_memory_efficiency() {
    let mut system = EnvironmentalAwarenessSystem::with_capacity(50, 100).unwrap();

    // Run more cycles than buffer capacity
    system.run_cycles(200);

    // Buffer should not exceed capacity
    assert!(system.history_len() <= 50);

    let metrics = system.get_metrics();
    assert!(metrics.memory_usage_mb < 10_000_000); // Should be under 10MB
}

#[test]
fn history_is_bounded_by_its_capacity() {
    let mut system = EnvironmentalAwarenessSystem::with_capacity(50, 100).unwrap();
    system.run_cycles(49);
    assert_eq!(system.history_len(), 49);
    system.run_cycles(151);
    assert_eq!(system.history_len(), 50);
    assert_eq!(system.latency_count(), 200);
    assert_eq!(system.cycle_count(), 200);
    assert_eq!(system.get_metrics().spatial_nodes, 200);
}

#[test]
fn reset_then_metrics_report_nothing() {
    let mut system = EnvironmentalAwarenessSystem::new();
    system.run_cycles(30);
    assert!(system.get_metrics().predictions_made > 0);
    system.reset();
    let metrics = system.get_metrics();
    assert_eq!(metrics.cycles, 0);
    assert_eq!(system.history_len(), 0);
    assert_eq!(system.latency_count(), 0);
    assert_eq!(metrics.processing_rate_hz, 0);
    assert_eq!(metrics.avg_processing_us, 0);
    assert_eq!(metrics.min_processing_us, 0);
    assert_eq!(metrics.max_processing_us, 0);
    assert_eq!(metrics.p50_processing_us, 0);
    assert_eq!(metrics.p95_processing_us, 0);
    assert_eq!(metrics.p99_processing_us, 0);
    assert_eq!(metrics.theoretical_max_hz, 0);
    assert_eq!(metrics.spatial_nodes, 0);
    assert_eq!(metrics.spatial_edges, 0);
    assert_eq!(metrics.anomalies_detected, 0);
    assert_eq!(metrics.predictions_made, 0);
    // The engine works on as a fresh one does.
    let result = system.run_cycle();
    assert_eq!(result.cycle, 1);
    assert_eq!(result.node_id, 0);
    assert!(result.prediction.is_none());
}

#[test]
fn cycle_reports_are_consistent() {
    let mut system = EnvironmentalAwarenessSystem::new();
    let results = system.run_cycles(40);
    for (i, r) in results.iter().enumerate() {
        assert_eq!(r.cycle as usize, i + 1);
        assert_eq!(r.node_id, i);
        assert_eq!(r.neural_output.len(), 2);
        for v in &r.neural_output {
            assert!((0..=1_000_000).contains(v));
        }
        assert!((0..=1_000_000).contains(&r.confidence));
        // The predictor needs two observations, the detector three.
        assert_eq!(r.prediction.is_some(), i >= 1);
        if i < 2 {
            assert!(!r.anomaly_detected);
        }
        if let Some(p) = &r.prediction {
            assert_eq!(p.values.len(), 5);
            assert!(p.trend == "increasing" || p.trend == "decreasing");
            for v in &p.values {
                assert!((0..=1_000_000).contains(v));
            }
        }
    }
    let metrics = system.get_metrics();
    assert_eq!(metrics.predictions_made, 39);
    assert_eq!(metrics.cycles, 40);
}

#[test]
fn analyze_and_record_are_deterministic() {
    let mut system = EnvironmentalAwarenessSystem::with_capacity(2, 10).unwrap();
    let confidences = [500_000, 500_000, 500_000, 500_000, 500_000, 500_000, 500_000, 500_000,
        500_000, 500_000, 500_000, 500_000, 500_000, 500_000, 500_000, 500_000, 500_000, 500_000,
        500_000, 2_000_000];
    let mut last = None;
    for (i, c) in confidences.iter().enumerate() {
        let features = vec![100_000, 200_000, 300_000, 400_000];
        let analysis = system.analyze(&features, *c, 1_000 + i as u64);
        assert_eq!(analysis.cycle as usize, i + 1);
        assert_eq!(analysis.node_id, i);
        if i + 1 < confidences.len() {
            assert!(analysis.anomaly.is_none());
        }
        let anomaly = analysis.anomaly;
        let result = system.record(features, vec![1, 2], *c, analysis, 10 * (i as u64 + 1));
        assert_eq!(result.anomaly_detected, anomaly.is_some());
        assert_eq!(result.processing_us, 10 * (i as u64 + 1));
        assert_eq!(result.neural_output, vec![1, 2]);
        last = Some((anomaly, result));
    }
    let (anomaly, result) = last.unwrap();
    let anomaly = anomaly.unwrap();
    assert_eq!(anomaly.z_score, 4_358_904);
    assert_eq!(anomaly.timestamp, 1_019);
    assert!(result.anomaly_detected);
    // The predictor's window holds nine times 0.5 and then 2.0.
    let prediction = result.prediction.unwrap();
    assert_eq!(prediction.trend, "increasing");
    assert_eq!(prediction.values.len(), 5);
    assert_eq!(system.history_len(), 2);
    let metrics = system.get_metrics();
    assert_eq!(metrics.cycles, 20);
    assert_eq!(metrics.anomalies_detected, 1);
    assert_eq!(metrics.predictions_made, 19);
    assert_eq!(metrics.spatial_nodes, 20);
    // Twenty nodes at one place: every pair is linked.
    assert_eq!(metrics.spatial_edges, 190);
    // Latencies 10, 20, .., 200.
    assert_eq!(metrics.min_processing_us, 10);
    assert_eq!(metrics.max_processing_us, 200);
    assert_eq!(metrics.p50_processing_us, 110);
    assert_eq!(metrics.p95_processing_us, 200);
    assert_eq!(metrics.p99_processing_us, 200);
    assert_eq!(metrics.avg_processing_us, 105_000_000);
    // One second over a mean of 105 microseconds.
    assert_eq!(metrics.theoretical_max_hz, 9_523_809_523);
    // 512 + 2 * 96 + 20 * 16 + 20 * 64 + 380 * 16 bytes, in mebibytes.
    assert_eq!(metrics.memory_usage_mb, 8384 * 1_000_000 / 1_048_576);
    if metrics.runtime_seconds > 0 {
        assert_eq!(
            metrics.processing_rate_hz,
            20 * 1_000_000_000_000 / metrics.runtime_seconds as u128
        );
    }
}

#[test]
fn memory_estimate_grows_with_the_state() {
    let mut system = EnvironmentalAwarenessSystem::new();
    let mut last = system.get_metrics().memory_usage_mb;
    for _ in 0..30 {
        system.run_cycle();
        let now = system.get_metrics().memory_usage_mb;
        assert!(now >= last);
        last = now;
    }
    assert!(last > 0);
}

#[test]
fn zero_history_capacity_is_rejected() {
    assert!(matches!(
        EnvironmentalAwarenessSystem::with_capacity(0, 100),
        Err(ConfigError::ZeroHistoryCapacity)
    ));
    assert!(EnvironmentalAwarenessSystem::with_capacity(1, 0).is_ok());
}

#[test]
fn custom_configuration_drives_the_engines() {
    let config = SystemConfig {
        anomaly_window: 3,
        predictor_window: 2,
        proximity_threshold: 1,
        history_capacity: 4,
        prediction_horizon: 2,
    };
    let mut system = EnvironmentalAwarenessSystem::with_config(config).unwrap();
    let results = system.run_cycles_parallel(12);
    assert_eq!(results.len(), 12);
    assert_eq!(system.history_len(), 4);
    for r in &results[1..] {
        assert_eq!(r.prediction.as_ref().unwrap().values.len(), 2);
    }
    let system = EnvironmentalAwarenessSystem::default();
    assert_eq!(system.cycle_count(), 0);
}

#[test]
fn runtime_is_the_time_since_construction_in_microseconds() {
    let outer = Instant::now();
    let mut system = EnvironmentalAwarenessSystem::new();
    let inner = Instant::now();
    while inner.elapsed() < Duration::from_millis(20) {}
    let lower = inner.elapsed().as_micros();
    let metrics = system.get_metrics();
    let upper = outer.elapsed().as_micros();
    assert!(lower >= 20_000);
    assert!(metrics.runtime_seconds as u128 >= lower);
    assert!(metrics.runtime_seconds as u128 <= upper);

    // A cycle's latency lies within the time that the call took.
    let around = Instant::now();
    let result = system.run_cycle();
    assert!(result.processing_us as u128 <= around.elapsed().as_micros());

    // A reset restarts the clock.
    system.reset();
    let since_reset = Instant::now();
    let metrics = system.get_metrics();
    assert!(metrics.runtime_seconds as u128 <= outer.elapsed().as_micros());
    assert!((metrics.runtime_seconds as u128) < lower + since_reset.elapsed().as_micros());
}
