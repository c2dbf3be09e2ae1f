//! Streaming analytics over fixed-point observations: sliding-window anomaly
//! detection, least-squares trend forecasting and a proximity graph, driven
//! cycle by cycle with bounded history and latency metrics.
//!
//! Every scalar is an integer count of millionths (see [`fixed::SCALE`]).

pub mod anomaly;
pub mod clock;
pub mod config;
pub mod fixed;
pub mod metrics;
pub mod neural;
pub mod predictor;
pub mod sensors;
pub mod spatial;
pub mod window;

use std::collections::VecDeque;
use std::time::Instant;
use vstd::prelude::*;
use crate::anomaly::{assess, Anomaly, AnomalyDetector};
use crate::clock::elapsed_micros;
use crate::config::{ConfigError, SystemConfig};
use crate::fixed::{scaled_quotient, SCALE};
use crate::metrics::{summarize, summary_of};
use crate::neural::NeuralNetwork;
use crate::predictor::{confidence_of, forecast, slope_of, Prediction, Predictor, MIN_POINTS};
use crate::sensors::{
    features_of, fused, lemma_plausible_confidence, SensorData, SensorProcessor, FUSION_WEIGHTS,
};
use crate::spatial::{degree_sum, expected_adjacency, footprint, position_of, SpatialGraph};
use crate::window::slide;

verus! {

/// The bytes by which the engine itself enters the memory estimate.
pub const BASE_FOOTPRINT: u128 = 512;

/// The bytes by which a cycle record enters the memory estimate.
pub const RECORD_FOOTPRINT: u128 = 96;

/// The bytes by which a logged latency enters the memory estimate.
pub const LATENCY_FOOTPRINT: u128 = 16;

/// The most entries for which room is made ahead of their arrival.
pub const RESERVE_LIMIT: usize = 4096;

/// The number of bytes in a mebibyte.
pub const MEBIBYTE: u128 = 1_048_576;

/// What is kept of one cycle.
#[derive(Debug, Clone)]
pub struct ProcessedData {
    pub cycle: u32,
    pub features: Vec<i32>,
    pub neural_output: Vec<i32>,
    pub fused_confidence: i32,
    pub processing_time_us: u64,
}

/// A forecast as it is reported: the trend as a word.
#[derive(Debug, Clone)]
pub struct PredictionResult {
    pub values: Vec<i32>,
    pub confidence: i32,
    /// `"increasing"` for a positive slope, `"decreasing"` for any other.
    pub trend: String,
}

/// What one cycle reports.
#[derive(Debug, Clone)]
pub struct CycleResult {
    pub cycle: u32,
    pub confidence: i32,
    pub neural_output: Vec<i32>,
    pub node_id: usize,
    pub anomaly_detected: bool,
    pub prediction: Option<PredictionResult>,
    pub processing_us: u64,
}

/// What the three engines made of one observation.
#[derive(Debug, Clone)]
pub struct Analysis {
    /// The number of the cycle.
    pub cycle: u32,
    /// The id of the node added for the observation's features.
    pub node_id: usize,
    /// The anomaly that the observation is, if it is one.
    pub anomaly: Option<Anomaly>,
    /// The forecast from the window that now holds the observation.
    pub prediction: Option<Prediction>,
}

/// A snapshot of the engine. Times in seconds and microseconds, rates in
/// hertz and the memory in mebibytes are all in millionths; latencies are
/// whole microseconds.
#[derive(Debug, Clone, Copy, PartialEq, Eq, Structural)]
pub struct SystemMetrics {
    pub runtime_seconds: u64,
    pub cycles: u32,
    pub processing_rate_hz: u128,
    pub avg_processing_us: u128,
    pub min_processing_us: u64,
    pub max_processing_us: u64,
    pub p50_processing_us: u64,
    pub p95_processing_us: u64,
    pub p99_processing_us: u64,
    pub theoretical_max_hz: u128,
    pub spatial_nodes: usize,
    pub spatial_edges: u128,
    pub anomalies_detected: usize,
    pub predictions_made: usize,
    pub memory_usage_mb: u128,
}

/// The counter `count` after one more cycle; it stops at the largest
/// 32-bit number.
pub open spec fn bump(count: u32) -> u32 {
    if count < u32::MAX {
        (count + 1) as u32
    } else {
        count
    }
}

/// The counter `count` after `more` cycles; it stops at the largest 32-bit
/// number.
pub open spec fn cycles_after(count: u32, more: nat) -> u32 {
    if count + more < u32::MAX {
        (count + more) as u32
    } else {
        u32::MAX
    }
}

/// The counter `count` after one more prediction; it stops at the largest
/// `usize`.
pub open spec fn bump_count(count: nat) -> nat {
    if count < usize::MAX {
        count + 1
    } else {
        count
    }
}

/// The number of records in a history of capacity `capacity` that held
/// `held` records before `more` cycles ran.
pub open spec fn kept_after(held: nat, more: nat, capacity: nat) -> nat {
    if held + more < capacity {
        held + more
    } else {
        capacity
    }
}

/// The word for a trend: `"increasing"` for a positive slope,
/// `"decreasing"` for any other, zero included.
pub open spec fn trend_word(trend: i64) -> Seq<char> {
    if trend > 0 {
        "increasing"@
    } else {
        "decreasing"@
    }
}

/// The cycles per second for `cycles` cycles in `runtime` microseconds, in
/// millionths; zero when no time has passed.
pub open spec fn rate_of(cycles: u32, runtime: u64) -> int {
    if runtime == 0 {
        0
    } else {
        cycles * SCALE * SCALE / (runtime as int)
    }
}

/// The cycles per second that a mean latency of `mean` millionths of a
/// microsecond allows, in millionths; zero for a mean of zero.
pub open spec fn ceiling_of(mean: u128) -> int {
    if mean == 0 {
        0
    } else {
        SCALE * SCALE * SCALE / (mean as int)
    }
}

/// The estimate of the bytes in use: fixed footprints for the engine, for
/// each cycle record and for each logged latency, and the graph's own
/// estimate; at most the largest 128-bit number.
pub open spec fn memory_estimate(records: nat, latencies: nat, graph: nat) -> nat {
    let sum = BASE_FOOTPRINT + records * RECORD_FOOTPRINT + latencies * LATENCY_FOOTPRINT + graph;
    if sum > u128::MAX {
        u128::MAX as nat
    } else {
        sum as nat
    }
}

/// The estimate never decreases as the counts that enter it grow.
pub proof fn lemma_memory_estimate_monotone(
    records: nat,
    latencies: nat,
    graph: nat,
    more_records: nat,
    more_latencies: nat,
    more_graph: nat,
)
    requires
        records <= more_records,
        latencies <= more_latencies,
        graph <= more_graph,
    ensures
        memory_estimate(records, latencies, graph) <= memory_estimate(
            more_records,
            more_latencies,
            more_graph,
        ),
{
}

/// The number of entries to make room for when `wanted` are expected.
fn reserve_for(wanted: usize) -> (room: usize)
    ensures
        room == if wanted < RESERVE_LIMIT {
            wanted
        } else {
            RESERVE_LIMIT
        },
{
    if wanted < RESERVE_LIMIT {
        wanted
    } else {
        RESERVE_LIMIT
    }
}

/// The word for a trend.
pub fn trend_label(trend: i64) -> (word: String)
    ensures
        word@ == trend_word(trend),
{
    if trend > 0 {
        "increasing".to_owned()
    } else {
        "decreasing".to_owned()
    }
}

/// The bytes estimated for `records` cycle records, `latencies` logged
/// latencies and a graph of `graph` bytes.
fn estimate_bytes(records: usize, latencies: usize, graph: u128) -> (bytes: u128)
    ensures
        bytes == memory_estimate(records as nat, latencies as nat, graph as nat),
{
    let own: u128 = BASE_FOOTPRINT + (records as u128) * RECORD_FOOTPRINT + (latencies as u128)
        * LATENCY_FOOTPRINT;
    if graph > u128::MAX - own {
        u128::MAX
    } else {
        own + graph
    }
}

/// The engine: a scorer, the three analytics engines, a bounded history of
/// cycle records and a log of cycle latencies.
pub struct EnvironmentalAwarenessSystem {
    neural_net: NeuralNetwork,
    spatial_graph: SpatialGraph,
    sensor_processor: SensorProcessor,
    anomaly_detector: AnomalyDetector,
    predictor: Predictor,
    sensor_buffer: VecDeque<ProcessedData>,
    processing_times: Vec<u64>,
    cycle_count: u32,
    start_time: Instant,
    config: SystemConfig,
}

impl EnvironmentalAwarenessSystem {
    /// The configuration the engine was built from.
    pub closed spec fn config(&self) -> SystemConfig {
        self.config
    }

    /// The number of cycles run since construction or the last reset.
    pub closed spec fn cycles(&self) -> u32 {
        self.cycle_count
    }

    /// The cycle records that are kept, oldest first.
    pub closed spec fn history(&self) -> Seq<ProcessedData> {
        self.sensor_buffer@
    }

    /// The latency of every cycle run since construction or the last reset,
    /// in microseconds, oldest first.
    pub closed spec fn latencies(&self) -> Seq<u64> {
        self.processing_times@
    }

    /// The proximity graph.
    pub closed spec fn graph(&self) -> SpatialGraph {
        self.spatial_graph
    }

    /// The anomaly detector.
    pub closed spec fn detector(&self) -> AnomalyDetector {
        self.anomaly_detector
    }

    /// The predictor.
    pub closed spec fn forecaster(&self) -> Predictor {
        self.predictor
    }

    /// The scorer.
    pub closed spec fn scorer(&self) -> NeuralNetwork {
        self.neural_net
    }

    /// The engine's invariant: a valid configuration that the three engines
    /// were built from, engines that are well-formed, and a history within
    /// its capacity.
    pub closed spec fn wf(&self) -> bool {
        &&& self.config.valid()
        &&& self.neural_net.wf()
        &&& self.sensor_processor.weights() == FUSION_WEIGHTS@
        &&& self.spatial_graph.wf()
        &&& self.spatial_graph.threshold() == self.config.proximity_threshold
        &&& self.anomaly_detector.wf()
        &&& self.anomaly_detector.capacity() == self.config.anomaly_window
        &&& self.predictor.wf()
        &&& self.predictor.capacity() == self.config.predictor_window
        &&& self.sensor_buffer@.len() <= self.config.history_capacity
    }

    /// What `wf` says, for use outside this module.
    pub proof fn lemma_wf(&self)
        requires
            self.wf(),
        ensures
            self.config().valid(),
            self.scorer().wf(),
            self.graph().wf(),
            self.graph().threshold() == self.config().proximity_threshold,
            self.detector().wf(),
            self.detector().capacity() == self.config().anomaly_window,
            self.forecaster().wf(),
            self.forecaster().capacity() == self.config().predictor_window,
            self.history().len() <= self.config().history_capacity,
    {
    }

    /// Whether nothing has been run since construction or a reset: no
    /// cycle counted, nothing in the history, the log, the graph or the
    /// windows, no anomaly reported and no prediction made.
    pub open spec fn is_fresh(&self) -> bool {
        &&& self.cycles() == 0
        &&& self.history() == Seq::<ProcessedData>::empty()
        &&& self.latencies() == Seq::<u64>::empty()
        &&& self.graph().nodes().len() == 0
        &&& self.detector().window() == Seq::<i32>::empty()
        &&& self.detector().history() == Seq::<Anomaly>::empty()
        &&& self.forecaster().window() == Seq::<i32>::empty()
        &&& self.forecaster().predictions() == 0
    }

    /// How `post` follows from this state when the three engines take in an
    /// observation with the given features and confidence, made at
    /// `observed_at`: the cycle is counted, the graph gains the node of the
    /// features, the detector and the predictor take the confidence into
    /// their windows, and `analysis` holds what they found.
    pub open spec fn analyzed(
        &self,
        post: &Self,
        features: Seq<i32>,
        confidence: i32,
        observed_at: u64,
        analysis: Analysis,
    ) -> bool {
        &&& post.config() == self.config()
        &&& post.scorer() == self.scorer()
        &&& post.history() == self.history()
        &&& post.latencies() == self.latencies()
        &&& post.cycles() == bump(self.cycles())
        &&& analysis.cycle == post.cycles()
        &&& analysis.node_id == self.graph().nodes().len()
        &&& post.graph().positions() == self.graph().positions().push(position_of(features))
        &&& post.graph().nodes().len() == self.graph().nodes().len() + 1
        &&& post.graph().links() == expected_adjacency(
            post.graph().positions(),
            self.config().proximity_threshold,
        )
        &&& post.detector().window() == slide(
            self.detector().window(),
            self.config().anomaly_window as nat,
            confidence,
        )
        &&& analysis.anomaly == assess(post.detector().window(), confidence, observed_at)
        &&& post.detector().history() == match analysis.anomaly {
            Some(anomaly) => self.detector().history().push(anomaly),
            None => self.detector().history(),
        }
        &&& post.forecaster().window() == slide(
            self.forecaster().window(),
            self.config().predictor_window as nat,
            confidence,
        )
        &&& analysis.prediction is Some <==> post.forecaster().window().len() >= MIN_POINTS
        &&& analysis.prediction is None ==> post.forecaster().predictions()
            == self.forecaster().predictions()
        &&& analysis.prediction is Some ==> {
            &&& analysis.prediction->Some_0.values@ == forecast(
                post.forecaster().window(),
                self.config().prediction_horizon as nat,
            )
            &&& analysis.prediction->Some_0.confidence == confidence_of(
                post.forecaster().window(),
            )
            &&& analysis.prediction->Some_0.trend == slope_of(post.forecaster().window())
            &&& post.forecaster().predictions() == bump_count(self.forecaster().predictions())
        }
    }

    /// How `post` follows from this state when a cycle that took
    /// `processing_us` microseconds is recorded: the latency joins the log,
    /// a record of the cycle joins the history, from which the oldest
    /// record leaves if it is full, and `result` reports the cycle.
    pub open spec fn recorded(
        &self,
        post: &Self,
        features: Seq<i32>,
        neural_output: Seq<i32>,
        confidence: i32,
        analysis: Analysis,
        processing_us: u64,
        result: CycleResult,
    ) -> bool {
        &&& post.config() == self.config()
        &&& post.scorer() == self.scorer()
        &&& post.cycles() == self.cycles()
        &&& post.graph() == self.graph()
        &&& post.detector() == self.detector()
        &&& post.forecaster() == self.forecaster()
        &&& post.latencies() == self.latencies().push(processing_us)
        &&& post.history().len() == if self.history().len() < self.config().history_capacity {
            self.history().len() + 1
        } else {
            self.config().history_capacity as nat
        }
        &&& post.history().drop_last() == if self.history().len()
            < self.config().history_capacity {
            self.history()
        } else {
            self.history().skip(1)
        }
        &&& post.history().last().cycle == analysis.cycle
        &&& post.history().last().features@ == features
        &&& post.history().last().neural_output@ == neural_output
        &&& post.history().last().fused_confidence == confidence
        &&& post.history().last().processing_time_us == processing_us
        &&& result.cycle == analysis.cycle
        &&& result.confidence == confidence
        &&& result.neural_output@ == neural_output
        &&& result.node_id == analysis.node_id
        &&& result.anomaly_detected == (analysis.anomaly is Some)
        &&& result.processing_us == processing_us
        &&& result.prediction is Some <==> analysis.prediction is Some
        &&& result.prediction is Some ==> {
            &&& result.prediction->Some_0.values@ == analysis.prediction->Some_0.values@
            &&& result.prediction->Some_0.confidence == analysis.prediction->Some_0.confidence
            &&& result.prediction->Some_0.trend@ == trend_word(
                analysis.prediction->Some_0.trend,
            )
        }
    }

    /// How `post` and `result` follow from this state by one cycle: for
    /// some plausible reading of the sensors and some reading of the
    /// clocks, the confidence is the one fused from the reading's features
    /// and the outputs are their score, the engines take in the
    /// observation, and the cycle is recorded. The confidence and the
    /// outputs lie in the unit interval.
    pub open spec fn cycled(&self, post: &Self, result: CycleResult) -> bool {
        &&& 0 <= result.confidence <= SCALE
        &&& result.neural_output@.len() == self.scorer().output_size()
        &&& forall|j: int|
            0 <= j < result.neural_output@.len() ==> 0 <= #[trigger] result.neural_output@[j]
                <= SCALE
        &&& exists|mid: Self, reading: SensorData, observed_at: u64, analysis: Analysis|
            {
                &&& reading.plausible()
                &&& result.confidence == fused(features_of(reading), FUSION_WEIGHTS@)
                &&& result.neural_output@ == self.scorer().score(features_of(reading))
                &&& mid.wf()
                &&& #[trigger] self.analyzed(
                    &mid,
                    features_of(reading),
                    result.confidence,
                    observed_at,
                    analysis,
                )
                &&& mid.recorded(
                    post,
                    features_of(reading),
                    result.neural_output@,
                    result.confidence,
                    analysis,
                    result.processing_us,
                    result,
                )
            }
    }

    /// How `post` and `results` follow from this state by as many cycles as
    /// there are results: `states` holds the state before the first cycle,
    /// between each two cycles and after the last, and each cycle leads
    /// from one state to the next with its result.
    pub open spec fn chained(
        &self,
        post: &Self,
        states: Seq<Self>,
        results: Seq<CycleResult>,
    ) -> bool {
        &&& states.len() == results.len() + 1
        &&& states[0] == *self
        &&& states[results.len() as int] == *post
        &&& forall|i: int| 0 <= i < states.len() ==> #[trigger] states[i].wf()
        &&& forall|i: int|
            0 <= i < results.len() ==> #[trigger] states[i].cycled(&states[i + 1], results[i])
    }

    /// The metrics of this state after `runtime` microseconds.
    pub open spec fn snapshot(&self, runtime: u64) -> SystemMetrics {
        let summary = summary_of(self.latencies());
        let links = degree_sum(
            self.graph().positions(),
            self.graph().threshold(),
            self.graph().nodes().len(),
        );
        SystemMetrics {
            runtime_seconds: runtime,
            cycles: self.cycles(),
            processing_rate_hz: rate_of(self.cycles(), runtime) as u128,
            avg_processing_us: summary.mean,
            min_processing_us: summary.min,
            max_processing_us: summary.max,
            p50_processing_us: summary.p50,
            p95_processing_us: summary.p95,
            p99_processing_us: summary.p99,
            theoretical_max_hz: ceiling_of(summary.mean) as u128,
            spatial_nodes: self.graph().nodes().len() as usize,
            spatial_edges: (links / 2) as u128,
            anomalies_detected: self.detector().history().len() as usize,
            predictions_made: self.forecaster().predictions() as usize,
            memory_usage_mb: (memory_estimate(
                self.history().len(),
                self.latencies().len(),
                footprint(self.graph().nodes().len(), links),
            ) * SCALE / (MEBIBYTE as int)) as u128,
        }
    }

    /// An engine with the standard configuration.
    pub fn new() -> (system: Self)
        ensures
            system.wf(),
            system.is_fresh(),
            system.config() == SystemConfig::spec_standard(),
    {
        let config = SystemConfig::standard();
        match Self::with_config(config) {
            Ok(system) => system,
            Err(_) => vstd::pervasive::unreached(),
        }
    }

    /// An engine with the standard configuration but a history of
    /// `buffer_capacity` records, which must be positive, and room for
    /// `processing_capacity` latencies, up to [`RESERVE_LIMIT`], before the
    /// log first grows.
    pub fn with_capacity(buffer_capacity: usize, processing_capacity: usize) -> (made: Result<
        Self,
        ConfigError,
    >)
        ensures
            made is Err <==> buffer_capacity == 0,
            made is Err ==> made->Err_0 == ConfigError::ZeroHistoryCapacity,
            made is Ok ==> {
                &&& made->Ok_0.wf()
                &&& made->Ok_0.is_fresh()
                &&& made->Ok_0.config() == SystemConfig {
                    history_capacity: buffer_capacity,
                    ..SystemConfig::spec_standard()
                }
            },
    {
        let mut config = SystemConfig::standard();
        config.history_capacity = buffer_capacity;
        Self::build(config, processing_capacity)
    }

    /// An engine with the given configuration, if it is valid.
    pub fn with_config(config: SystemConfig) -> (made: Result<Self, ConfigError>)
        ensures
            made is Ok <==> config.valid(),
            made is Err ==> config.fault() == Some(made->Err_0),
            made is Ok ==> {
                &&& made->Ok_0.wf()
                &&& made->Ok_0.is_fresh()
                &&& made->Ok_0.config() == config
            },
    {
        Self::build(config, 1000)
    }

    /// An engine with the given configuration, if it is valid, and room
    /// for `processing_capacity` latencies.
    fn build(config: SystemConfig, processing_capacity: usize) -> (made: Result<Self, ConfigError>)
        ensures
            made is Ok <==> config.valid(),
            made is Err ==> config.fault() == Some(made->Err_0),
            made is Ok ==> {
                &&& made->Ok_0.wf()
                &&& made->Ok_0.is_fresh()
                &&& made->Ok_0.config() == config
            },
    {
        match config.validate() {
            Ok(()) => {},
            Err(fault) => {
                return Err(fault);
            },
        }
        let anomaly_detector = match AnomalyDetector::new(config.anomaly_window) {
            Ok(detector) => detector,
            Err(fault) => {
                return Err(fault);
            },
        };
        let predictor = match Predictor::new(config.predictor_window) {
            Ok(predictor) => predictor,
            Err(fault) => {
                return Err(fault);
            },
        };
        let spatial_graph = match SpatialGraph::with_threshold(config.proximity_threshold) {
            Ok(graph) => graph,
            Err(fault) => {
                return Err(fault);
            },
        };
        Ok(
            EnvironmentalAwarenessSystem {
                neural_net: NeuralNetwork::new(4, 8, 2),
                spatial_graph,
                sensor_processor: SensorProcessor::new(),
                anomaly_detector,
                predictor,
                sensor_buffer: VecDeque::with_capacity(reserve_for(config.history_capacity)),
                processing_times: Vec::with_capacity(reserve_for(processing_capacity)),
                cycle_count: 0,
                start_time: Instant::now(),
                config,
            },
        )
    }

    /// Lets the three engines take in one observation: counts the cycle,
    /// adds the node of `features` to the graph, and has the detector and
    /// then the predictor take `confidence` into their windows.
    pub fn analyze(&mut self, features: &[i32], confidence: i32, observed_at: u64) -> (analysis:
        Analysis)
        requires
            old(self).wf(),
        ensures
            final(self).wf(),
            old(self).analyzed(final(self), features@, confidence, observed_at, analysis),
    {
        if self.cycle_count < u32::MAX {
            self.cycle_count = self.cycle_count + 1;
        }
        let node_id = self.spatial_graph.add_node(features);
        let anomaly = self.anomaly_detector.detect(confidence, observed_at);
        self.predictor.add_observation(confidence);
        let prediction = self.predictor.predict(self.config.prediction_horizon);
        Analysis { cycle: self.cycle_count, node_id, anomaly, prediction }
    }

    /// Records a cycle that took `processing_us` microseconds: logs the
    /// latency, keeps a record of the cycle in the history, from which the
    /// oldest record leaves if it is full, and reports the cycle.
    pub fn record(
        &mut self,
        features: Vec<i32>,
        neural_output: Vec<i32>,
        confidence: i32,
        analysis: Analysis,
        processing_us: u64,
    ) -> (result: CycleResult)
        requires
            old(self).wf(),
        ensures
            final(self).wf(),
            old(self).recorded(
                final(self),
                features@,
                neural_output@,
                confidence,
                analysis,
                processing_us,
                result,
            ),
    {
        self.processing_times.push(processing_us);
        if self.sensor_buffer.len() >= self.config.history_capacity {
            let _ = self.sensor_buffer.pop_front();
        }
        let kept = ProcessedData {
            cycle: analysis.cycle,
            features,
            neural_output: vstd::slice::slice_to_vec(neural_output.as_slice()),
            fused_confidence: confidence,
            processing_time_us: processing_us,
        };
        self.sensor_buffer.push_back(kept);
        proof {
            let before = old(self).sensor_buffer@;
            let after = self.sensor_buffer@;
            if before.len() < self.config.history_capacity {
                assert(after.drop_last() =~= before);
            } else {
                assert(after.drop_last() =~= before.skip(1));
            }
        }
        let prediction = match analysis.prediction {
            Some(p) => Some(
                PredictionResult {
                    values: p.values,
                    confidence: p.confidence,
                    trend: trend_label(p.trend),
                },
            ),
            None => None,
        };
        CycleResult {
            cycle: analysis.cycle,
            confidence,
            neural_output,
            node_id: analysis.node_id,
            anomaly_detected: analysis.anomaly.is_some(),
            prediction,
            processing_us,
        }
    }

    /// Runs one cycle: reads the sensors, scores the features, lets the
    /// three engines take in the observation, and records the cycle with
    /// the time it took.
    #[inline]
    pub fn run_cycle(&mut self) -> (result: CycleResult)
        requires
            old(self).wf(),
        ensures
            final(self).wf(),
            old(self).cycled(final(self), result),
    {
        let cycle_start = Instant::now();
        let sensor_data = SensorData::generate();
        let processed = self.sensor_processor.process(&sensor_data);
        proof {
            lemma_plausible_confidence(sensor_data);
        }
        let neural_output = self.neural_net.forward(processed.features.as_slice());
        let observed_at = elapsed_micros(&self.start_time);
        let analysis = self.analyze(
            processed.features.as_slice(),
            processed.fused_confidence,
            observed_at,
        );
        let processing_us = elapsed_micros(&cycle_start);
        let ghost mid = *self;
        let result = self.record(
            processed.features,
            neural_output,
            processed.fused_confidence,
            analysis,
            processing_us,
        );
        proof {
            assert(old(self).analyzed(
                &mid,
                features_of(sensor_data),
                result.confidence,
                observed_at,
                analysis,
            ));
        }
        result
    }

    /// Runs `count` cycles, one after the other, and returns their reports
    /// in order. The history ends up holding the records of the latest
    /// cycles, as many as its capacity allows.
    pub fn run_cycles(&mut self, count: usize) -> (results: Vec<CycleResult>)
        requires
            old(self).wf(),
        ensures
            final(self).wf(),
            final(self).config() == old(self).config(),
            results@.len() == count,
            exists|states: Seq<Self>| #[trigger] old(self).chained(final(self), states, results@),
            final(self).cycles() == cycles_after(old(self).cycles(), count as nat),
            final(self).latencies().len() == old(self).latencies().len() + count,
            final(self).graph().nodes().len() == old(self).graph().nodes().len() + count,
            final(self).history().len() == kept_after(
                old(self).history().len(),
                count as nat,
                old(self).config().history_capacity as nat,
            ),
            forall|i: int|
                0 <= i < count ==> {
                    &&& (#[trigger] results@[i]).cycle == cycles_after(
                        old(self).cycles(),
                        (i + 1) as nat,
                    )
                    &&& results@[i].node_id == old(self).graph().nodes().len() + i
                    &&& results@[i].processing_us == final(self).latencies()[
                        old(self).latencies().len() + i
                    ]
                    &&& 0 <= results@[i].confidence <= SCALE
                },
    {
        let mut results: Vec<CycleResult> = Vec::with_capacity(reserve_for(count));
        let ghost mut states: Seq<Self> = seq![*self];
        let mut done: usize = 0;
        while done < count
            invariant
                done <= count,
                self.wf(),
                old(self).chained(self, states, results@),
                self.config() == old(self).config(),
                results@.len() == done,
                self.cycles() == cycles_after(old(self).cycles(), done as nat),
                self.latencies().len() == old(self).latencies().len() + done,
                self.graph().nodes().len() == old(self).graph().nodes().len() + done,
                self.history().len() == kept_after(
                    old(self).history().len(),
                    done as nat,
                    old(self).config().history_capacity as nat,
                ),
                forall|i: int|
                    0 <= i < done ==> {
                        &&& (#[trigger] results@[i]).cycle == cycles_after(
                            old(self).cycles(),
                            (i + 1) as nat,
                        )
                        &&& results@[i].node_id == old(self).graph().nodes().len() + i
                        &&& results@[i].processing_us == self.latencies()[
                            old(self).latencies().len() + i
                        ]
                        &&& 0 <= results@[i].confidence <= SCALE
                    },
            decreases count - done,
        {
            let ghost before = *self;
            let ghost earlier = states;
            let ghost reported = results@;
            let result = self.run_cycle();
            proof {
                lemma_cycle_effects(before, *self, result);
                states = states.push(*self);
            }
            results.push(result);
            proof {
                assert forall|i: int| 0 <= i < states.len() implies #[trigger] states[i].wf() by {
                    if i <= done {
                        assert(states[i] == earlier[i]);
                    }
                }
                assert forall|i: int| 0 <= i < results@.len() implies #[trigger] states[i].cycled(
                    &states[i + 1],
                    results@[i],
                ) by {
                    if i < done {
                        assert(earlier[i].cycled(&earlier[i + 1], reported[i]));
                        assert(states[i] == earlier[i]);
                        assert(states[i + 1] == earlier[i + 1]);
                        assert(results@[i] == reported[i]);
                    }
                }
            }
            done = done + 1;
        }
        results
    }

    /// Runs `count` cycles like [`Self::run_cycles`]. The cycles depend on
    /// each other through the windows and the graph, so they run in
    /// sequence.
    pub fn run_cycles_parallel(&mut self, count: usize) -> (results: Vec<CycleResult>)
        requires
            old(self).wf(),
        ensures
            final(self).wf(),
            final(self).config() == old(self).config(),
            results@.len() == count,
            exists|states: Seq<Self>| #[trigger] old(self).chained(final(self), states, results@),
            final(self).cycles() == cycles_after(old(self).cycles(), count as nat),
            final(self).latencies().len() == old(self).latencies().len() + count,
            final(self).graph().nodes().len() == old(self).graph().nodes().len() + count,
            final(self).history().len() == kept_after(
                old(self).history().len(),
                count as nat,
                old(self).config().history_capacity as nat,
            ),
            forall|i: int|
                0 <= i < count ==> {
                    &&& (#[trigger] results@[i]).cycle == cycles_after(
                        old(self).cycles(),
                        (i + 1) as nat,
                    )
                    &&& results@[i].node_id == old(self).graph().nodes().len() + i
                    &&& results@[i].processing_us == final(self).latencies()[
                        old(self).latencies().len() + i
                    ]
                    &&& 0 <= results@[i].confidence <= SCALE
                },
    {
        self.run_cycles(count)
    }

    /// A snapshot of the engine: the time since the last reset, the cycle
    /// count and rate, the latency statistics, the sizes of the graph, the
    /// counts of anomalies and predictions, and the memory estimate.
    pub fn get_metrics(&self) -> (metrics: SystemMetrics)
        requires
            self.wf(),
        ensures
            metrics == self.snapshot(metrics.runtime_seconds),
    {
        let runtime = elapsed_micros(&self.start_time);
        let summary = summarize(&self.processing_times);
        let cycles: u128 = self.cycle_count as u128;
        let rate: u128 = if runtime == 0 {
            0
        } else {
            cycles * 1_000_000_000_000 / (runtime as u128)
        };
        let ceiling: u128 = if summary.mean == 0 {
            0
        } else {
            1_000_000_000_000_000_000 / summary.mean
        };
        let bytes = self.estimate_memory_usage();
        proof {
            assert(bytes * 1_000_000 / 1_048_576 <= bytes) by (nonlinear_arith)
                requires
                    bytes >= 0,
            ;
        }
        SystemMetrics {
            runtime_seconds: runtime,
            cycles: self.cycle_count,
            processing_rate_hz: rate,
            avg_processing_us: summary.mean,
            min_processing_us: summary.min,
            max_processing_us: summary.max,
            p50_processing_us: summary.p50,
            p95_processing_us: summary.p95,
            p99_processing_us: summary.p99,
            theoretical_max_hz: ceiling,
            spatial_nodes: self.spatial_graph.node_count(),
            spatial_edges: self.spatial_graph.edge_count(),
            anomalies_detected: self.anomaly_detector.anomaly_count(),
            predictions_made: self.predictor.prediction_count(),
            memory_usage_mb: scaled_quotient(bytes, MEBIBYTE),
        }
    }

    /// The estimate of the bytes in use.
    fn estimate_memory_usage(&self) -> (bytes: u128)
        requires
            self.wf(),
        ensures
            bytes == memory_estimate(
                self.history().len(),
                self.latencies().len(),
                footprint(
                    self.graph().nodes().len(),
                    degree_sum(
                        self.graph().positions(),
                        self.graph().threshold(),
                        self.graph().nodes().len(),
                    ),
                ),
            ),
    {
        estimate_bytes(
            self.sensor_buffer.len(),
            self.processing_times.len(),
            self.spatial_graph.estimate_memory(),
        )
    }

    /// The number of cycles run since construction or the last reset.
    pub fn cycle_count(&self) -> (count: u32)
        ensures
            count == self.cycles(),
    {
        self.cycle_count
    }

    /// The number of cycle records that are kept.
    pub fn history_len(&self) -> (len: usize)
        ensures
            len == self.history().len(),
    {
        self.sensor_buffer.len()
    }

    /// The number of latencies in the log.
    pub fn latency_count(&self) -> (len: usize)
        ensures
            len == self.latencies().len(),
    {
        self.processing_times.len()
    }

    /// Discards everything accumulated: zeroes the cycle counter, empties
    /// the history and the latency log, restarts the clock, and makes the
    /// three engines anew from the configuration, which stays.
    pub fn reset(&mut self)
        requires
            old(self).wf(),
        ensures
            final(self).wf(),
            final(self).is_fresh(),
            final(self).config() == old(self).config(),
            final(self).scorer() == old(self).scorer(),
    {
        self.cycle_count = 0;
        self.sensor_buffer.clear();
        self.processing_times.clear();
        self.start_time = Instant::now();
        match SpatialGraph::with_threshold(self.config.proximity_threshold) {
            Ok(graph) => {
                self.spatial_graph = graph;
            },
            Err(_) => {},
        }
        self.anomaly_detector.clear();
        self.predictor.clear();
    }

    /// Runs `cycles` cycles and then resets, so that they leave no trace in
    /// later metrics.
    pub fn warmup(&mut self, cycles: usize)
        requires
            old(self).wf(),
        ensures
            final(self).wf(),
            final(self).is_fresh(),
            final(self).config() == old(self).config(),
            final(self).scorer() == old(self).scorer(),
    {
        let mut done: usize = 0;
        while done < cycles
            invariant
                self.wf(),
                self.config() == old(self).config(),
                self.scorer() == old(self).scorer(),
            decreases cycles - done,
        {
            let _ = self.run_cycle();
            done = done + 1;
        }
        self.reset();
    }
}

impl Default for EnvironmentalAwarenessSystem {
    fn default() -> (system: Self)
        ensures
            system.wf(),
            system.is_fresh(),
            system.config() == SystemConfig::spec_standard(),
    {
        Self::new()
    }
}

/// Immediately after a reset, or a construction, the metrics report no
/// cycles and nothing measured: every latency statistic, both rates, the
/// sizes of the graph and the counts of anomalies and predictions are
/// zero.
pub proof fn lemma_fresh_metrics(system: EnvironmentalAwarenessSystem, runtime: u64)
    requires
        system.is_fresh(),
    ensures
        system.snapshot(runtime).cycles == 0,
        system.snapshot(runtime).processing_rate_hz == 0,
        system.snapshot(runtime).avg_processing_us == 0,
        system.snapshot(runtime).min_processing_us == 0,
        system.snapshot(runtime).max_processing_us == 0,
        system.snapshot(runtime).p50_processing_us == 0,
        system.snapshot(runtime).p95_processing_us == 0,
        system.snapshot(runtime).p99_processing_us == 0,
        system.snapshot(runtime).theoretical_max_hz == 0,
        system.snapshot(runtime).spatial_nodes == 0,
        system.snapshot(runtime).spatial_edges == 0,
        system.snapshot(runtime).anomalies_detected == 0,
        system.snapshot(runtime).predictions_made == 0,
{
    assert(rate_of(0, runtime) == 0) by (nonlinear_arith)
        requires
            rate_of(0, runtime) == if runtime == 0 {
                0
            } else {
                0 * SCALE * SCALE / (runtime as int)
            },
    ;
}

/// One cycle adds one node and one latency, counts the cycle, and leaves
/// the history one record longer or, if it was full, as long as it was.
pub proof fn lemma_cycle_effects(
    pre: EnvironmentalAwarenessSystem,
    post: EnvironmentalAwarenessSystem,
    result: CycleResult,
)
    requires
        pre.wf(),
        pre.cycled(&post, result),
    ensures
        post.config() == pre.config(),
        post.cycles() == bump(pre.cycles()),
        result.cycle == post.cycles(),
        result.node_id == pre.graph().nodes().len(),
        post.graph().nodes().len() == pre.graph().nodes().len() + 1,
        post.latencies() == pre.latencies().push(result.processing_us),
        post.history().len() == if pre.history().len() < pre.config().history_capacity {
            pre.history().len() + 1
        } else {
            pre.config().history_capacity as nat
        },
        post.history().last().cycle == result.cycle,
        post.history().last().fused_confidence == result.confidence,
        post.history().last().processing_time_us == result.processing_us,
        post.detector().window() == slide(
            pre.detector().window(),
            pre.config().anomaly_window as nat,
            result.confidence,
        ),
        result.anomaly_detected <==> post.detector().history().len()
            == pre.detector().history().len() + 1,
        !result.anomaly_detected <==> post.detector().history() == pre.detector().history(),
        post.forecaster().window() == slide(
            pre.forecaster().window(),
            pre.config().predictor_window as nat,
            result.confidence,
        ),
        result.prediction is Some <==> post.forecaster().window().len() >= MIN_POINTS,
        result.prediction is Some ==> {
            &&& result.prediction->Some_0.values@ == forecast(
                post.forecaster().window(),
                pre.config().prediction_horizon as nat,
            )
            &&& result.prediction->Some_0.confidence == confidence_of(post.forecaster().window())
            &&& result.prediction->Some_0.trend@ == trend_word(
                slope_of(post.forecaster().window()) as i64,
            )
        },
{
    let (mid, reading, observed_at, analysis) = choose|
        mid: EnvironmentalAwarenessSystem,
        reading: SensorData,
        observed_at: u64,
        analysis: Analysis,
    |
        {
            &&& reading.plausible()
            &&& result.confidence == fused(features_of(reading), FUSION_WEIGHTS@)
            &&& result.neural_output@ == pre.scorer().score(features_of(reading))
            &&& mid.wf()
            &&& #[trigger] pre.analyzed(
                &mid,
                features_of(reading),
                result.confidence,
                observed_at,
                analysis,
            )
            &&& mid.recorded(
                &post,
                features_of(reading),
                result.neural_output@,
                result.confidence,
                analysis,
                result.processing_us,
                result,
            )
        };
    mid.lemma_wf();
    pre.lemma_wf();
}

} // verus!
