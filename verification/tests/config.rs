use env_awareness::config::{ConfigError, SystemConfig, MAX_PREDICTOR_WINDOW};
use env_awareness::EnvironmentalAwarenessSystem;

#[test]
fn standard_configuration_is_valid() {
    let config = SystemConfig::standard();
    assert_eq!(config.anomaly_window, 20);
    assert_eq!(config.predictor_window, 10);
    assert_eq!(config.proximity_threshold, 50_000_000);
    assert_eq!(config.history_capacity, 100);
    assert_eq!(config.prediction_horizon, 5);
    assert_eq!(config.validate(), Ok(()));
}

#[test]
fn each_zero_parameter_is_rejected() {
    let standard = SystemConfig::standard();
    let cases = [
        (SystemConfig { anomaly_window: 0, ..standard }, ConfigError::ZeroAnomalyWindow),
        (SystemConfig { predictor_window: 0, ..standard }, ConfigError::ZeroPredictorWindow),
        (
            SystemConfig { predictor_window: MAX_PREDICTOR_WINDOW + 1, ..standard },
            ConfigError::PredictorWindowTooLarge,
        ),
        (SystemConfig { proximity_threshold: 0, ..standard }, ConfigError::ZeroProximityThreshold),
        (SystemConfig { history_capacity: 0, ..standard }, ConfigError::ZeroHistoryCapacity),
        (SystemConfig { prediction_horizon: 0, ..standard }, ConfigError::ZeroPredictionHorizon),
    ];
    for (config, fault) in cases {
        assert_eq!(config.validate(), Err(fault));
        assert!(matches!(EnvironmentalAwarenessSystem::with_config(config), Err(f) if f == fault));
        assert!(!fault.message().is_empty());
    }
}

#[test]
fn first_fault_is_reported() {
    let config = SystemConfig {
        anomaly_window: 0,
        predictor_window: 0,
        proximity_threshold: 0,
        history_capacity: 0,
        prediction_horizon: 0,
    };
    assert_eq!(config.validate(), Err(ConfigError::ZeroAnomalyWindow));
}

#[test]
fn messages_name_the_parameter() {
    assert_eq!(
        ConfigError::ZeroAnomalyWindow.message(),
        "anomaly window capacity must be positive"
    );
    assert_eq!(
        ConfigError::PredictorWindowTooLarge.message(),
        "predictor window capacity must not exceed 65536"
    );
    assert_eq!(
        ConfigError::ZeroHistoryCapacity.message(),
        "cycle history capacity must be positive"
    );
}
