//! Construction-time configuration and the errors that reject it.

use vstd::prelude::*;

verus! {

/// The largest window a [`crate::predictor::Predictor`] accepts: the sums of
/// its least-squares fit must fit in 128 bits.
pub const MAX_PREDICTOR_WINDOW: usize = 65_536;

/// Why a configuration was rejected.
#[derive(Debug, Clone, Copy, PartialEq, Eq, Structural)]
pub enum ConfigError {
    /// The anomaly detector's window capacity is zero.
    ZeroAnomalyWindow,
    /// The predictor's window capacity is zero.
    ZeroPredictorWindow,
    /// The predictor's window capacity exceeds [`MAX_PREDICTOR_WINDOW`].
    PredictorWindowTooLarge,
    /// The proximity distance threshold is zero.
    ZeroProximityThreshold,
    /// The cycle-history capacity is zero.
    ZeroHistoryCapacity,
    /// The prediction horizon is zero.
    ZeroPredictionHorizon,
}

impl ConfigError {
    /// The text of [`ConfigError::message`].
    pub open spec fn spec_message(self) -> Seq<char> {
        match self {
            ConfigError::ZeroAnomalyWindow => "anomaly window capacity must be positive"@,
            ConfigError::ZeroPredictorWindow => "predictor window capacity must be positive"@,
            ConfigError::PredictorWindowTooLarge => "predictor window capacity must not exceed 65536"@,
            ConfigError::ZeroProximityThreshold => "proximity threshold must be positive"@,
            ConfigError::ZeroHistoryCapacity => "cycle history capacity must be positive"@,
            ConfigError::ZeroPredictionHorizon => "prediction horizon must be positive"@,
        }
    }

    /// A description of the rejected parameter.
    pub fn message(&self) -> (text: &'static str)
        ensures
            text@ == self.spec_message(),
    {
        match self {
            ConfigError::ZeroAnomalyWindow => "anomaly window capacity must be positive",
            ConfigError::ZeroPredictorWindow => "predictor window capacity must be positive",
            ConfigError::PredictorWindowTooLarge => "predictor window capacity must not exceed 65536",
            ConfigError::ZeroProximityThreshold => "proximity threshold must be positive",
            ConfigError::ZeroHistoryCapacity => "cycle history capacity must be positive",
            ConfigError::ZeroPredictionHorizon => "prediction horizon must be positive",
        }
    }
}

/// What an engine is built from. None of it changes afterwards.
#[derive(Debug, Clone, Copy, PartialEq, Eq, Structural)]
pub struct SystemConfig {
    /// The capacity of the anomaly detector's window.
    pub anomaly_window: usize,
    /// The capacity of the predictor's window.
    pub predictor_window: usize,
    /// The distance, in millionths, below which two nodes are linked.
    pub proximity_threshold: u64,
    /// The number of cycle records that are kept.
    pub history_capacity: usize,
    /// The number of steps that each forecast looks ahead.
    pub prediction_horizon: usize,
}

impl SystemConfig {
    /// What is wrong with the configuration, if anything; of several faults
    /// the first in the order of the fields.
    pub open spec fn fault(self) -> Option<ConfigError> {
        if self.anomaly_window == 0 {
            Some(ConfigError::ZeroAnomalyWindow)
        } else if self.predictor_window == 0 {
            Some(ConfigError::ZeroPredictorWindow)
        } else if self.predictor_window > MAX_PREDICTOR_WINDOW {
            Some(ConfigError::PredictorWindowTooLarge)
        } else if self.proximity_threshold == 0 {
            Some(ConfigError::ZeroProximityThreshold)
        } else if self.history_capacity == 0 {
            Some(ConfigError::ZeroHistoryCapacity)
        } else if self.prediction_horizon == 0 {
            Some(ConfigError::ZeroPredictionHorizon)
        } else {
            None
        }
    }

    /// Whether an engine can be built from the configuration.
    pub open spec fn valid(self) -> bool {
        self.fault() is None
    }

    /// The configuration of [`crate::EnvironmentalAwarenessSystem::new`].
    pub open spec fn spec_standard() -> SystemConfig {
        SystemConfig {
            anomaly_window: 20,
            predictor_window: 10,
            proximity_threshold: 50_000_000,
            history_capacity: 100,
            prediction_horizon: 5,
        }
    }

    /// The standard configuration: windows of 20 and 10 observations, a
    /// threshold of fifty units, a history of 100 records and forecasts
    /// five steps ahead.
    pub fn standard() -> (config: SystemConfig)
        ensures
            config == Self::spec_standard(),
            config.valid(),
    {
        SystemConfig {
            anomaly_window: 20,
            predictor_window: 10,
            proximity_threshold: 50_000_000,
            history_capacity: 100,
            prediction_horizon: 5,
        }
    }

    /// Accepts a configuration whose every parameter is positive and whose
    /// predictor window is within [`MAX_PREDICTOR_WINDOW`].
    pub fn validate(&self) -> (checked: Result<(), ConfigError>)
        ensures
            checked is Ok <==> self.valid(),
            checked is Err ==> self.fault() == Some(checked->Err_0),
    {
        if self.anomaly_window == 0 {
            Err(ConfigError::ZeroAnomalyWindow)
        } else if self.predictor_window == 0 {
            Err(ConfigError::ZeroPredictorWindow)
        } else if self.predictor_window > MAX_PREDICTOR_WINDOW {
            Err(ConfigError::PredictorWindowTooLarge)
        } else if self.proximity_threshold == 0 {
            Err(ConfigError::ZeroProximityThreshold)
        } else if self.history_capacity == 0 {
            Err(ConfigError::ZeroHistoryCapacity)
        } else if self.prediction_horizon == 0 {
            Err(ConfigError::ZeroPredictionHorizon)
        } else {
            Ok(())
        }
    }
}

} // verus!
