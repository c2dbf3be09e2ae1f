use env_awareness::config::{ConfigError, MAX_PREDICTOR_WINDOW};
use env_awareness::predictor::Predictor;
use env_awareness::trend_label;

fn fed(capacity: usize, values: &[i32]) -> Predictor {
    let mut predictor = Predictor::new(capacity).unwrap();
    for v in values {
        predictor.add_observation(*v);
    }
    predictor
}

#[test]
fn test_linear_prediction() {
    let mut predictor = Predictor::new(5).unwrap();

    // Add linearly increasing values
    for i in 0..5 {
        predictor.add_observation(i * 100_000);
    }

    let prediction = predictor.predict(3).unwrap();

    assert_eq!(prediction.values.len(), 3);
    assert!(prediction.trend > 0, "Should detect increasing trend");
    assert!(prediction.confidence > 900_000, "Should have high confidence for linear data");
}

#[test]
fn test_constant_prediction() {
    let mut predictor = Predictor::new(5).unwrap();

    // Add constant values
    for _ in 0..5 {
        predictor.add_observation(500_000);
    }

    let prediction = predictor.predict(3).unwrap();

    assert!(prediction.trend.abs() < 1_000, "Should detect no trend");
    for &val in &prediction.values {
        assert!((val - 500_000).abs() < 1_000, "Should predict constant value");
    }
}

#[test]
fn linear_data_is_fitted_exactly() {
    let mut predictor = fed(5, &[0, 100_000, 200_000, 300_000, 400_000]);
    let prediction = predictor.predict(3).unwrap();
    assert_eq!(prediction.trend, 100_000);
    assert_eq!(prediction.values, vec![500_000, 600_000, 700_000]);
    assert_eq!(prediction.confidence, 1_000_000);
}

#[test]
fn constant_data_has_no_trend_and_no_confidence() {
    let mut predictor = fed(5, &[500_000; 5]);
    let prediction = predictor.predict(3).unwrap();
    assert_eq!(prediction.trend, 0);
    assert_eq!(prediction.values, vec![500_000, 500_000, 500_000]);
    assert_eq!(prediction.confidence, 0);
    assert_eq!(trend_label(prediction.trend), "decreasing");
}

#[test]
fn noisy_data_gives_the_least_squares_line() {
    let mut predictor = fed(5, &[100_000, 300_000, 200_000, 500_000, 400_000]);
    let prediction = predictor.predict(4).unwrap();
    assert_eq!(prediction.trend, 80_000);
    assert_eq!(prediction.values, vec![540_000, 620_000, 700_000, 780_000]);
    assert_eq!(prediction.confidence, 640_000);
}

#[test]
fn forecasts_are_clamped_to_the_unit_interval() {
    let mut falling = fed(10, &[900_000, 700_000, 400_000, 200_000]);
    let prediction = falling.predict(3).unwrap();
    assert_eq!(prediction.trend, -240_000);
    assert_eq!(prediction.values, vec![0, 0, 0]);
    assert_eq!(prediction.confidence, 993_104);

    let mut rising = fed(10, &[800_000, 900_000]);
    let prediction = rising.predict(3).unwrap();
    assert_eq!(prediction.trend, 100_000);
    assert_eq!(prediction.values, vec![1_000_000, 1_000_000, 1_000_000]);
    // Two points always lie on a line.
    assert_eq!(prediction.confidence, 1_000_000);
}

#[test]
fn tiny_variation_short_circuits_confidence() {
    let mut predictor = fed(10, &[0, 1]);
    let prediction = predictor.predict(2).unwrap();
    assert_eq!(prediction.trend, 1);
    assert_eq!(prediction.values, vec![2, 3]);
    assert_eq!(prediction.confidence, 0);
    let mut down = fed(10, &[1, 0]);
    let prediction = down.predict(2).unwrap();
    assert_eq!(prediction.trend, -1);
    assert_eq!(prediction.values, vec![0, 0]);
}

#[test]
fn fewer_than_two_observations_predict_nothing() {
    let mut predictor = Predictor::new(5).unwrap();
    assert!(predictor.predict(3).is_none());
    predictor.add_observation(500_000);
    assert!(predictor.predict(3).is_none());
    assert_eq!(predictor.prediction_count(), 0);
    predictor.add_observation(500_000);
    assert!(predictor.predict(3).is_some());
    assert_eq!(predictor.prediction_count(), 1);
}

#[test]
fn zero_steps_give_an_empty_forecast() {
    let mut predictor = fed(5, &[0, 100_000, 200_000]);
    let prediction = predictor.predict(0).unwrap();
    assert!(prediction.values.is_empty());
    assert_eq!(prediction.trend, 100_000);
}

#[test]
fn window_keeps_the_latest_observations() {
    // Only the last three values are fitted: 200000, 300000, 400000.
    let mut predictor = fed(3, &[900_000, 0, 200_000, 300_000, 400_000]);
    assert_eq!(predictor.window_len(), 3);
    let prediction = predictor.predict(1).unwrap();
    assert_eq!(prediction.trend, 100_000);
    assert_eq!(prediction.values, vec![500_000]);
}

#[test]
fn extreme_values_do_not_overflow() {
    let mut predictor = Predictor::new(MAX_PREDICTOR_WINDOW).unwrap();
    for i in 0..2000 {
        predictor.add_observation(if i % 2 == 0 { i32::MAX } else { i32::MIN });
    }
    let prediction = predictor.predict(usize::MAX.min(5)).unwrap();
    assert_eq!(prediction.values.len(), 5);
    for v in prediction.values {
        assert!((0..=1_000_000).contains(&v));
    }
    assert!((0..=1_000_000).contains(&prediction.confidence));
}

#[test]
fn counter_and_clear() {
    let mut predictor = fed(5, &[0, 100_000, 200_000]);
    for _ in 0..4 {
        predictor.predict(2);
    }
    assert_eq!(predictor.prediction_count(), 4);
    predictor.clear();
    assert_eq!(predictor.prediction_count(), 0);
    assert_eq!(predictor.window_len(), 0);
    assert!(predictor.predict(2).is_none());
}

#[test]
fn predictor_capacity_limits() {
    assert!(matches!(Predictor::new(0), Err(ConfigError::ZeroPredictorWindow)));
    assert!(matches!(
        Predictor::new(MAX_PREDICTOR_WINDOW + 1),
        Err(ConfigError::PredictorWindowTooLarge)
    ));
    assert!(Predictor::new(MAX_PREDICTOR_WINDOW).is_ok());
    assert!(Predictor::new(1).is_ok());
}

#[test]
fn trend_words() {
    assert_eq!(trend_label(1), "increasing");
    assert_eq!(trend_label(0), "decreasing");
    assert_eq!(trend_label(-1), "decreasing");
    assert_eq!(trend_label(i64::MAX), "increasing");
}
