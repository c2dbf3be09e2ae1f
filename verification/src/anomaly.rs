//! Sliding-window anomaly detection by z-score.
//!
//! The detector keeps the most recent observations together with their
//! running sum and sum of squares, which always equal the exact sums over
//! the window: the arithmetic is done on integers and cannot drift.

use std::collections::VecDeque;
use vstd::prelude::*;
use crate::config::ConfigError;
use crate::fixed::{abs, div_floor, isqrt, lemma_sqrt_floor_is, sqrt_floor, SCALE};
use crate::window::{
    fed_window, lemma_fed_window_constant, lemma_fed_window_len, lemma_sum_bounds,
    lemma_sum_constant, lemma_sum_push, lemma_sum_skip_first, seq_sum, seq_sum_sq, slide,
};

verus! {

/// The fewest observations from which statistics are computed.
pub const MIN_SAMPLES: usize = 3;

/// A standard deviation at or below this is treated as no spread at all.
pub const STDEV_FLOOR: i64 = 100;

/// The z-score above which an observation is anomalous.
pub const Z_LOW: i64 = 2_000_000;

/// The z-score above which an anomaly is of medium severity.
pub const Z_MEDIUM: i64 = 2_500_000;

/// The z-score above which an anomaly is of high severity.
pub const Z_HIGH: i64 = 3_000_000;

/// How far an anomalous observation lies from the window mean.
#[derive(Debug, Clone, Copy, PartialEq, Eq, Structural)]
pub enum Severity {
    Low,
    Medium,
    High,
}

/// One detected anomaly. All scalars are in millionths.
#[derive(Debug, Clone, Copy, PartialEq, Eq, Structural)]
pub struct Anomaly {
    /// Microseconds at which the observation was made.
    pub timestamp: u64,
    /// The observed value.
    pub value: i32,
    /// The absolute deviation from the mean in standard deviations.
    pub z_score: i64,
    pub severity: Severity,
    /// The window mean the z-score was computed from.
    pub mean: i64,
    /// The window standard deviation the z-score was computed from.
    pub stdev: i64,
}

/// The mean of a non-empty window.
pub open spec fn mean_of(w: Seq<i32>) -> int {
    seq_sum(w) / (w.len() as int)
}

/// The variance of a non-empty window: the mean of the squares less the
/// square of the mean, and never negative.
pub open spec fn variance_of(w: Seq<i32>) -> int {
    let raw = seq_sum_sq(w) / (w.len() as int) - mean_of(w) * mean_of(w);
    if raw < 0 {
        0
    } else {
        raw
    }
}

/// The standard deviation of a non-empty window.
pub open spec fn stdev_of(w: Seq<i32>) -> int {
    sqrt_floor(variance_of(w))
}

/// The z-score of `value` against the window `w`; zero when the window has
/// effectively no spread.
pub open spec fn z_score_of(w: Seq<i32>, value: i32) -> int {
    if stdev_of(w) > STDEV_FLOOR {
        abs(value - mean_of(w)) * SCALE / stdev_of(w)
    } else {
        0
    }
}

/// The severity that a z-score carries, if it is anomalous at all.
pub open spec fn severity_of(z: int) -> Option<Severity> {
    if z > Z_HIGH {
        Some(Severity::High)
    } else if z > Z_MEDIUM {
        Some(Severity::Medium)
    } else if z > Z_LOW {
        Some(Severity::Low)
    } else {
        None
    }
}

/// The anomaly, if any, that `value` is against the window `w`, which
/// already holds it.
pub open spec fn assess(w: Seq<i32>, value: i32, timestamp: u64) -> Option<Anomaly> {
    if w.len() < MIN_SAMPLES {
        None
    } else {
        match severity_of(z_score_of(w, value)) {
            Some(severity) => Some(
                Anomaly {
                    timestamp,
                    value,
                    z_score: z_score_of(w, value) as i64,
                    severity,
                    mean: mean_of(w) as i64,
                    stdev: stdev_of(w) as i64,
                },
            ),
            None => None,
        }
    }
}

/// Flags observations that lie far from the mean of a recent window.
pub struct AnomalyDetector {
    window: VecDeque<i32>,
    window_size: usize,
    anomalies: Vec<Anomaly>,
    running_sum: i128,
    running_sum_sq: i128,
}

proof fn lemma_mean_bounds(sum: int, n: int)
    by (nonlinear_arith)
    requires
        n > 0,
        -0x8000_0000 * n <= sum <= 0x7FFF_FFFF * n,
    ensures
        -0x8000_0000 <= sum / n <= 0x7FFF_FFFF,
{
}

proof fn lemma_mean_sq_bounds(sum_sq: int, n: int)
    by (nonlinear_arith)
    requires
        n > 0,
        0 <= sum_sq <= 0x4000_0000_0000_0000 * n,
    ensures
        0 <= sum_sq / n <= 0x4000_0000_0000_0000,
{
}

impl AnomalyDetector {
    /// The observations in the window, oldest first.
    pub closed spec fn window(&self) -> Seq<i32> {
        self.window@
    }

    /// The most observations the window holds.
    pub closed spec fn capacity(&self) -> nat {
        self.window_size as nat
    }

    /// Every anomaly reported since construction or the last `clear`.
    pub closed spec fn history(&self) -> Seq<Anomaly> {
        self.anomalies@
    }

    /// The running sum kept over the window.
    pub closed spec fn running_sum(&self) -> int {
        self.running_sum as int
    }

    /// The running sum of squares kept over the window.
    pub closed spec fn running_sum_sq(&self) -> int {
        self.running_sum_sq as int
    }

    /// The detector's invariant: a positive capacity that the window stays
    /// within, and running sums equal to the exact sums over the window.
    pub closed spec fn wf(&self) -> bool {
        &&& self.window_size >= 1
        &&& self.window@.len() <= self.window_size
        &&& self.running_sum == seq_sum(self.window@)
        &&& self.running_sum_sq == seq_sum_sq(self.window@)
    }

    /// What `wf` says, for use outside this module.
    pub proof fn lemma_wf(&self)
        requires
            self.wf(),
        ensures
            self.capacity() >= 1,
            self.window().len() <= self.capacity(),
            self.running_sum() == seq_sum(self.window()),
            self.running_sum_sq() == seq_sum_sq(self.window()),
    {
    }

    /// A detector with an empty window of the given capacity.
    pub fn new(window_size: usize) -> (made: Result<Self, ConfigError>)
        ensures
            window_size == 0 <==> made is Err,
            made is Err ==> made == Err::<Self, ConfigError>(ConfigError::ZeroAnomalyWindow),
            made is Ok ==> {
                &&& made->Ok_0.wf()
                &&& made->Ok_0.capacity() == window_size
                &&& made->Ok_0.window() == Seq::<i32>::empty()
                &&& made->Ok_0.history() == Seq::<Anomaly>::empty()
            },
    {
        if window_size == 0 {
            return Err(ConfigError::ZeroAnomalyWindow);
        }
        Ok(
            AnomalyDetector {
                window: VecDeque::new(),
                window_size,
                anomalies: Vec::new(),
                running_sum: 0,
                running_sum_sq: 0,
            },
        )
    }

    /// Takes `value` into the window, evicting the oldest observation from a
    /// full one, and reports whether it is anomalous against the window it
    /// is now part of. A reported anomaly is appended to the history.
    pub fn detect(&mut self, value: i32, timestamp: u64) -> (found: Option<Anomaly>)
        requires
            old(self).wf(),
        ensures
            final(self).wf(),
            final(self).capacity() == old(self).capacity(),
            final(self).window() == slide(old(self).window(), old(self).capacity(), value),
            found == assess(final(self).window(), value, timestamp),
            final(self).history() == match found {
                Some(anomaly) => old(self).history().push(anomaly),
                None => old(self).history(),
            },
    {
        if self.window.len() >= self.window_size {
            let evicted = self.window.pop_front();
            if let Some(old_val) = evicted {
                proof {
                    lemma_sum_skip_first(old(self).window@);
                    lemma_sum_bounds(old(self).window@);
                    lemma_sum_bounds(old(self).window@.skip(1));
                    assert(old(self).window@.skip(1) =~= self.window@);
                    assert(-0x8000_0000 <= old_val <= 0x7FFF_FFFF);
                    assert(0 <= old_val * old_val <= 0x4000_0000_0000_0000) by (nonlinear_arith)
                        requires
                            -0x8000_0000 <= old_val <= 0x7FFF_FFFF,
                    ;
                }
                let old_wide: i128 = old_val as i128;
                self.running_sum = self.running_sum - old_wide;
                self.running_sum_sq = self.running_sum_sq - old_wide * old_wide;
            }
        }
        proof {
            lemma_sum_push(self.window@, value);
            lemma_sum_bounds(self.window@);
            lemma_sum_bounds(self.window@.push(value));
            assert(0 <= value * value <= 0x4000_0000_0000_0000) by (nonlinear_arith)
                requires
                    -0x8000_0000 <= value <= 0x7FFF_FFFF,
            ;
        }
        self.window.push_back(value);
        let wide: i128 = value as i128;
        self.running_sum = self.running_sum + wide;
        self.running_sum_sq = self.running_sum_sq + wide * wide;
        assert(self.window@ =~= slide(old(self).window@, old(self).window_size as nat, value));

        let len = self.window.len();
        if len < MIN_SAMPLES {
            return None;
        }
        let n: i128 = len as i128;
        proof {
            lemma_sum_bounds(self.window@);
            lemma_mean_bounds(self.running_sum as int, n as int);
            lemma_mean_sq_bounds(self.running_sum_sq as int, n as int);
        }
        let mean: i128 = div_floor(self.running_sum, n);
        let mean_of_squares: i128 = self.running_sum_sq / n;
        assert(0 <= mean * mean <= 0x4000_0000_0000_0000) by (nonlinear_arith)
            requires
                -0x8000_0000 <= mean <= 0x7FFF_FFFF,
        ;
        let raw_variance: i128 = mean_of_squares - mean * mean;
        let variance: i128 = if raw_variance < 0 {
            0
        } else {
            raw_variance
        };
        let stdev_wide: u64 = isqrt(variance as u128);
        assert(stdev_wide <= 0x8000_0000) by (nonlinear_arith)
            requires
                stdev_wide * stdev_wide <= variance,
                variance <= 0x4000_0000_0000_0000,
        ;
        let stdev: i128 = stdev_wide as i128;
        let deviation: i128 = if wide < mean {
            mean - wide
        } else {
            wide - mean
        };
        let z_score: i128 = if stdev > STDEV_FLOOR as i128 {
            assert(0 <= deviation <= 0x1_0000_0000);
            let scaled: i128 = deviation * 1_000_000;
            assert(scaled == deviation * SCALE);
            assert(0 <= scaled / stdev <= scaled) by (nonlinear_arith)
                requires
                    0 <= scaled,
                    stdev > 0,
            ;
            scaled / stdev
        } else {
            0
        };
        if z_score > Z_LOW as i128 {
            let severity = if z_score > Z_HIGH as i128 {
                Severity::High
            } else if z_score > Z_MEDIUM as i128 {
                Severity::Medium
            } else {
                Severity::Low
            };
            let anomaly = Anomaly {
                timestamp,
                value,
                z_score: z_score as i64,
                severity,
                mean: mean as i64,
                stdev: stdev as i64,
            };
            self.anomalies.push(anomaly);
            Some(anomaly)
        } else {
            None
        }
    }

    /// The number of observations in the window.
    pub fn window_len(&self) -> (len: usize)
        ensures
            len == self.window().len(),
    {
        self.window.len()
    }

    /// The sum of the observations in the window.
    pub fn window_sum(&self) -> (sum: i128)
        requires
            self.wf(),
        ensures
            sum == seq_sum(self.window()),
    {
        self.running_sum
    }

    /// The sum of the squares of the observations in the window.
    pub fn window_sum_sq(&self) -> (sum: i128)
        requires
            self.wf(),
        ensures
            sum == seq_sum_sq(self.window()),
    {
        self.running_sum_sq
    }

    /// The number of anomalies in the history.
    #[inline]
    pub fn anomaly_count(&self) -> (count: usize)
        ensures
            count == self.history().len(),
    {
        self.anomalies.len()
    }

    /// The history of anomalies, oldest first.
    pub fn get_anomalies(&self) -> (all: &[Anomaly])
        ensures
            all@ == self.history(),
    {
        self.anomalies.as_slice()
    }

    /// Empties the window and the history and zeroes the running sums; the
    /// capacity stays.
    pub fn clear(&mut self)
        requires
            old(self).wf(),
        ensures
            final(self).wf(),
            final(self).capacity() == old(self).capacity(),
            final(self).window() == Seq::<i32>::empty(),
            final(self).history() == Seq::<Anomaly>::empty(),
    {
        self.window.clear();
        self.anomalies.clear();
        self.running_sum = 0;
        self.running_sum_sq = 0;
    }
}

/// A window of at least one observation, all of them equal, has no spread:
/// nothing assessed against it is an anomaly, whatever the value.
pub proof fn lemma_constant_window_is_quiet(w: Seq<i32>, c: i32, value: i32, timestamp: u64)
    requires
        w.len() >= 1,
        forall|i: int| 0 <= i < w.len() ==> w[i] == c,
    ensures
        mean_of(w) == c,
        variance_of(w) == 0,
        stdev_of(w) == 0,
        z_score_of(w, value) == 0,
        assess(w, value, timestamp) is None,
{
    lemma_sum_constant(w, c);
    let n = w.len() as int;
    assert((n * c) / n == c) by (nonlinear_arith)
        requires
            n > 0,
    ;
    assert((n * (c * c)) / n == c * c) by (nonlinear_arith)
        requires
            n > 0,
    ;
    assert(crate::fixed::is_sqrt_floor(0, 0));
    lemma_sqrt_floor_is(0, 0);
}

/// A detector fed nothing but one value never reports an anomaly: after
/// any number of observations, all of them `c`, the window holds only `c`,
/// and the latest observation is no anomaly against it.
pub proof fn lemma_constant_stream_is_quiet(cap: nat, fed: Seq<i32>, c: i32, timestamp: u64)
    requires
        cap >= 1,
        fed.len() >= 1,
        forall|i: int| 0 <= i < fed.len() ==> fed[i] == c,
    ensures
        assess(fed_window(cap, fed), c, timestamp) is None,
{
    lemma_fed_window_constant(cap, fed, c);
    lemma_fed_window_len(cap, fed);
    lemma_constant_window_is_quiet(fed_window(cap, fed), c, c, timestamp);
}

} // verus!
