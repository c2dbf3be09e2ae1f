//! Short-horizon forecasting by a least-squares line through a sliding
//! window.
//!
//! The position of an observation in the window is the independent variable
//! and its value the dependent one. The sums of the fit are taken afresh
//! over the window on every call; slope and intercept are quotients rounded
//! toward negative infinity, in millionths.

use std::collections::VecDeque;
use vstd::prelude::*;
use crate::config::{ConfigError, MAX_PREDICTOR_WINDOW};
use crate::fixed::{clamp_unit, div_floor, SCALE};
use crate::window::{lemma_sum_bounds, seq_sum, slide};

verus! {

/// The fewest observations a line is fitted through.
pub const MIN_POINTS: usize = 2;

/// A total sum of squares at or below this is treated as no variation.
pub const SS_FLOOR: i128 = 100_000_000;

/// A forecast. All scalars are in millionths.
#[derive(Debug, Clone)]
pub struct Prediction {
    /// The forecast values, nearest first, each within `[0, SCALE]`.
    pub values: Vec<i32>,
    /// The coefficient of determination of the fit, within `[0, SCALE]`.
    pub confidence: i32,
    /// The slope of the fitted line per step; positive when increasing.
    pub trend: i64,
}

/// The sum of the positions `0, 1, .., n - 1`.
pub open spec fn index_sum(n: nat) -> int
    decreases n,
{
    if n == 0 {
        0
    } else {
        index_sum((n - 1) as nat) + (n - 1)
    }
}

/// The sum of the squares of the positions `0, 1, .., n - 1`.
pub open spec fn index_sq_sum(n: nat) -> int
    decreases n,
{
    if n == 0 {
        0
    } else {
        index_sq_sum((n - 1) as nat) + (n - 1) * (n - 1)
    }
}

/// The sum over the window of position times value.
pub open spec fn cross_sum(w: Seq<i32>) -> int
    decreases w.len(),
{
    if w.len() == 0 {
        0
    } else {
        cross_sum(w.drop_last()) + (w.len() - 1) * w.last()
    }
}

/// The denominator of the slope for a window of `n` observations.
pub open spec fn fit_denominator(n: nat) -> int {
    n * index_sq_sum(n) - index_sum(n) * index_sum(n)
}

/// The numerator of the slope for the window `w`.
pub open spec fn fit_numerator(w: Seq<i32>) -> int {
    w.len() * cross_sum(w) - index_sum(w.len()) * seq_sum(w)
}

/// The slope of the least-squares line through `w`.
pub open spec fn slope_of(w: Seq<i32>) -> int {
    fit_numerator(w) / fit_denominator(w.len())
}

/// The intercept of the least-squares line through `w`.
pub open spec fn intercept_of(w: Seq<i32>) -> int {
    (seq_sum(w) - slope_of(w) * index_sum(w.len())) / (w.len() as int)
}

/// The value of the fitted line at position `x`.
pub open spec fn fitted(w: Seq<i32>, x: int) -> int {
    slope_of(w) * x + intercept_of(w)
}

/// The first `steps` forecasts past the end of the window, each limited to
/// the unit interval.
pub open spec fn forecast(w: Seq<i32>, steps: nat) -> Seq<i32> {
    Seq::new(steps, |i: int| clamp_unit(fitted(w, w.len() + i)) as i32)
}

/// The sum over the first `k` observations of the squared deviation from
/// the window mean.
pub open spec fn total_sq(w: Seq<i32>, k: nat) -> int
    decreases k,
{
    if k == 0 {
        0
    } else {
        let d = w[k - 1] - seq_sum(w) / (w.len() as int);
        total_sq(w, (k - 1) as nat) + d * d
    }
}

/// The sum over the first `k` observations of the squared deviation from
/// the fitted line.
pub open spec fn residual_sq(w: Seq<i32>, k: nat) -> int
    decreases k,
{
    if k == 0 {
        0
    } else {
        let d = w[k - 1] - fitted(w, k - 1);
        residual_sq(w, (k - 1) as nat) + d * d
    }
}

/// The coefficient of determination of the fit through `w`, limited to the
/// unit interval; zero when the window has effectively no variation.
pub open spec fn confidence_of(w: Seq<i32>) -> int {
    let ss_tot = total_sq(w, w.len());
    let ss_res = residual_sq(w, w.len());
    if ss_tot > SS_FLOOR {
        clamp_unit(SCALE - ss_res * SCALE / ss_tot)
    } else {
        0
    }
}

proof fn lemma_index_sums_step(n: int, m: int, sx: int, sxx: int)
    by (nonlinear_arith)
    requires
        m >= 0,
        n == m + 1,
        2 * sx == m * (m - 1),
        6 * sxx == (m - 1) * m * (2 * m - 1),
    ensures
        2 * (sx + m) == n * (n - 1),
        6 * (sxx + m * m) == (n - 1) * n * (2 * n - 1),
        m * m >= 0,
{
}

/// Closed forms of the two position sums.
pub proof fn lemma_index_sums(n: nat)
    ensures
        2 * index_sum(n) == n * (n - 1),
        6 * index_sq_sum(n) == (n - 1) * n * (2 * n - 1),
        0 <= index_sum(n),
        0 <= index_sq_sum(n),
    decreases n,
{
    if n == 0 {
        assert(n * (n - 1) == 0 && (n - 1) * n * (2 * n - 1) == 0) by (nonlinear_arith)
            requires
                n == 0,
        ;
    } else {
        let m = (n - 1) as nat;
        lemma_index_sums(m);
        lemma_index_sums_step(n as int, m as int, index_sum(m), index_sq_sum(m));
    }
}

proof fn lemma_denominator_algebra(n: int, sx: int, sxx: int)
    by (nonlinear_arith)
    requires
        2 * sx == n * (n - 1),
        6 * sxx == (n - 1) * n * (2 * n - 1),
    ensures
        12 * (n * sxx - sx * sx) == n * n * (n - 1) * (n + 1),
{
}

/// The slope's denominator is `n²(n² − 1) / 12`: positive from two
/// observations on, so the fit is never degenerate.
pub proof fn lemma_fit_denominator(n: nat)
    ensures
        12 * fit_denominator(n) == n * n * (n - 1) * (n + 1),
        n >= 2 ==> fit_denominator(n) >= 1,
        n >= 2 ==> 4 * fit_denominator(n) >= n * n * (n - 1),
{
    lemma_index_sums(n);
    lemma_denominator_algebra(n as int, index_sum(n), index_sq_sum(n));
    if n >= 2 {
        let d = fit_denominator(n);
        let p = n * n * (n - 1);
        assert(p >= 4) by (nonlinear_arith)
            requires
                p == n * n * (n - 1),
                n >= 2,
        ;
        assert(n * n * (n - 1) * (n + 1) == p * (n + 1)) by (nonlinear_arith)
            requires
                p == n * n * (n - 1),
        ;
        assert(p * (n + 1) >= 3 * p) by (nonlinear_arith)
            requires
                p >= 0,
                n >= 2,
        ;
    }
}

/// Bounds on the sum of position times value.
pub proof fn lemma_cross_sum_bounds(w: Seq<i32>)
    ensures
        -0x8000_0000 * index_sum(w.len()) <= cross_sum(w) <= 0x8000_0000 * index_sum(w.len()),
    decreases w.len(),
{
    if w.len() > 0 {
        lemma_cross_sum_bounds(w.drop_last());
        let i = w.len() - 1;
        let v = w.last();
        assert(-0x8000_0000 * i <= i * v <= 0x8000_0000 * i) by (nonlinear_arith)
            requires
                0 <= i,
                -0x8000_0000 <= v <= 0x7FFF_FFFF,
        ;
    }
}

proof fn lemma_numerator_bound(n: int, sx: int, sy: int, sxy: int, d: int)
    by (nonlinear_arith)
    requires
        n >= 2,
        2 * sx == n * (n - 1),
        -0x8000_0000 * n <= sy <= 0x8000_0000 * n,
        -0x8000_0000 * sx <= sxy <= 0x8000_0000 * sx,
        4 * d >= n * n * (n - 1),
    ensures
        -0x2_0000_0000 * d <= n * sxy - sx * sy <= 0x2_0000_0000 * d,
{
}

proof fn lemma_quotient_bound(a: int, d: int, bound: int)
    by (nonlinear_arith)
    requires
        d > 0,
        bound >= 0,
        -bound * d <= a <= bound * d,
    ensures
        -bound <= a / d <= bound,
{
}

/// The slope of a fit through 32-bit observations stays within 34 bits.
pub proof fn lemma_slope_bound(w: Seq<i32>)
    requires
        w.len() >= 2,
    ensures
        -0x2_0000_0000 <= slope_of(w) <= 0x2_0000_0000,
{
    let n = w.len();
    lemma_index_sums(n);
    lemma_fit_denominator(n);
    lemma_sum_bounds(w);
    lemma_cross_sum_bounds(w);
    lemma_numerator_bound(n as int, index_sum(n), seq_sum(w), cross_sum(w), fit_denominator(n));
    lemma_quotient_bound(fit_numerator(w), fit_denominator(n), 0x2_0000_0000);
}

/// Whether the observations of `w` lie on the line that starts at `a` and
/// rises by `b` per position.
pub open spec fn on_line(w: Seq<i32>, a: int, b: int) -> bool {
    forall|i: int| 0 <= i < w.len() ==> #[trigger] w[i] == a + b * i
}

proof fn lemma_line_sums_step(a: int, b: int, m: int, sy: int, sxy: int, sx: int, sxx: int)
    by (nonlinear_arith)
    requires
        sy == m * a + b * sx,
        sxy == a * sx + b * sxx,
    ensures
        sy + (a + b * m) == (m + 1) * a + b * (sx + m),
        sxy + m * (a + b * m) == a * (sx + m) + b * (sxx + m * m),
{
}

/// The sums over observations that lie on a line.
proof fn lemma_line_sums(w: Seq<i32>, a: int, b: int)
    requires
        on_line(w, a, b),
    ensures
        seq_sum(w) == w.len() * a + b * index_sum(w.len()),
        cross_sum(w) == a * index_sum(w.len()) + b * index_sq_sum(w.len()),
    decreases w.len(),
{
    if w.len() == 0 {
        assert(0 * a + b * 0 == 0 && a * 0 + b * 0 == 0) by (nonlinear_arith);
    } else {
        let m = (w.len() - 1) as nat;
        assert(on_line(w.drop_last(), a, b)) by {
            assert forall|i: int| 0 <= i < w.drop_last().len() implies #[trigger] w.drop_last()[i]
                == a + b * i by {
                assert(w.drop_last()[i] == w[i]);
            }
        }
        lemma_line_sums(w.drop_last(), a, b);
        assert(w.last() == w[m as int]);
        lemma_line_sums_step(
            a,
            b,
            m as int,
            seq_sum(w.drop_last()),
            cross_sum(w.drop_last()),
            index_sum(m),
            index_sq_sum(m),
        );
    }
}

proof fn lemma_line_fit_algebra(n: int, a: int, b: int, sx: int, sxx: int, sy: int, sxy: int)
    by (nonlinear_arith)
    requires
        sy == n * a + b * sx,
        sxy == a * sx + b * sxx,
    ensures
        n * sxy - sx * sy == b * (n * sxx - sx * sx),
        sy - b * sx == n * a,
{
}

proof fn lemma_exact_quotient(x: int, d: int)
    by (nonlinear_arith)
    requires
        d > 0,
    ensures
        (x * d) / d == x,
        (d * x) / d == x,
{
}

proof fn lemma_line_has_no_residual(w: Seq<i32>, a: int, b: int, k: nat)
    requires
        on_line(w, a, b),
        k <= w.len(),
        slope_of(w) == b,
        intercept_of(w) == a,
    ensures
        residual_sq(w, k) == 0,
    decreases k,
{
    if k > 0 {
        lemma_line_has_no_residual(w, a, b, (k - 1) as nat);
        assert(w[k - 1] == a + b * (k - 1));
        let d = w[k - 1] - fitted(w, k - 1);
        assert(d == 0);
        assert(d * d == 0) by (nonlinear_arith)
            requires
                d == 0,
        ;
    }
}

/// The fit through observations that lie on a line is that line: its slope
/// and its intercept are the line's, nothing is left over, each forecast
/// is the line's value, limited to the unit interval, and the confidence
/// is full unless the observations hardly vary at all. Observations that
/// are all equal lie on a line of slope zero.
pub proof fn lemma_fit_of_a_line(w: Seq<i32>, a: int, b: int, steps: nat)
    requires
        w.len() >= 2,
        on_line(w, a, b),
    ensures
        slope_of(w) == b,
        intercept_of(w) == a,
        residual_sq(w, w.len()) == 0,
        forecast(w, steps) == Seq::new(
            steps,
            |i: int| clamp_unit(a + b * (w.len() + i)) as i32,
        ),
        confidence_of(w) == if total_sq(w, w.len()) > SS_FLOOR {
            SCALE as int
        } else {
            0
        },
{
    let n = w.len();
    lemma_line_sums(w, a, b);
    lemma_fit_denominator(n);
    lemma_line_fit_algebra(
        n as int,
        a,
        b,
        index_sum(n),
        index_sq_sum(n),
        seq_sum(w),
        cross_sum(w),
    );
    lemma_exact_quotient(b, fit_denominator(n));
    lemma_exact_quotient(a, n as int);
    assert(slope_of(w) == b);
    assert(intercept_of(w) == a);
    lemma_line_has_no_residual(w, a, b, n);
    assert forall|i: int| 0 <= i < steps implies #[trigger] forecast(w, steps)[i] == clamp_unit(
        a + b * (n + i),
    ) as i32 by {
        assert(fitted(w, n + i) == b * (n + i) + a);
    }
    assert(forecast(w, steps) =~= Seq::new(steps, |i: int| clamp_unit(a + b * (n + i)) as i32));
    let tot = total_sq(w, n);
    if tot > SS_FLOOR {
        assert(0 * SCALE / tot == 0) by (nonlinear_arith)
            requires
                tot > 0,
        ;
    }
}

proof fn lemma_product_bound(a: int, b: int, ma: int, mb: int)
    by (nonlinear_arith)
    requires
        -ma <= a <= ma,
        -mb <= b <= mb,
    ensures
        -(ma * mb) <= a * b <= ma * mb,
{
}

proof fn lemma_square_bound(a: int, ma: int)
    by (nonlinear_arith)
    requires
        -ma <= a <= ma,
    ensures
        0 <= a * a <= ma * ma,
{
}

proof fn lemma_ratio_at_least_scale(res: int, tot: int)
    by (nonlinear_arith)
    requires
        0 < tot <= res,
    ensures
        res * 1_000_000 / tot >= 1_000_000,
{
}

proof fn lemma_ratio_below_scale(res: int, tot: int)
    by (nonlinear_arith)
    requires
        0 <= res < tot,
    ensures
        0 <= res * 1_000_000 / tot < 1_000_000,
{
}

/// Fits a line through a sliding window of observations and extrapolates it.
pub struct Predictor {
    window: VecDeque<i32>,
    window_size: usize,
    prediction_count: usize,
}

/// The sums that a fit is computed from.
struct FitSums {
    x: i128,
    y: i128,
    xy: i128,
    xx: i128,
}

impl Predictor {
    /// The observations in the window, oldest first.
    pub closed spec fn window(&self) -> Seq<i32> {
        self.window@
    }

    /// The most observations the window holds.
    pub closed spec fn capacity(&self) -> nat {
        self.window_size as nat
    }

    /// The number of predictions made since construction or the last
    /// `clear`.
    pub closed spec fn predictions(&self) -> nat {
        self.prediction_count as nat
    }

    /// The predictor's invariant: a capacity between 1 and
    /// [`MAX_PREDICTOR_WINDOW`] that the window stays within.
    pub closed spec fn wf(&self) -> bool {
        &&& 1 <= self.window_size <= MAX_PREDICTOR_WINDOW
        &&& self.window@.len() <= self.window_size
    }

    /// What `wf` says, for use outside this module.
    pub proof fn lemma_wf(&self)
        requires
            self.wf(),
        ensures
            1 <= self.capacity() <= MAX_PREDICTOR_WINDOW,
            self.window().len() <= self.capacity(),
    {
    }

    /// A predictor with an empty window of the given capacity.
    pub fn new(window_size: usize) -> (made: Result<Self, ConfigError>)
        ensures
            made is Ok <==> 1 <= window_size <= MAX_PREDICTOR_WINDOW,
            window_size == 0 ==> made == Err::<Self, ConfigError>(
                ConfigError::ZeroPredictorWindow,
            ),
            window_size > MAX_PREDICTOR_WINDOW ==> made == Err::<Self, ConfigError>(
                ConfigError::PredictorWindowTooLarge,
            ),
            made is Ok ==> {
                &&& made->Ok_0.wf()
                &&& made->Ok_0.capacity() == window_size
                &&& made->Ok_0.window() == Seq::<i32>::empty()
                &&& made->Ok_0.predictions() == 0
            },
    {
        if window_size == 0 {
            return Err(ConfigError::ZeroPredictorWindow);
        }
        if window_size > MAX_PREDICTOR_WINDOW {
            return Err(ConfigError::PredictorWindowTooLarge);
        }
        Ok(Predictor { window: VecDeque::new(), window_size, prediction_count: 0 })
    }

    /// Takes `value` into the window, evicting the oldest observation from a
    /// full one.
    pub fn add_observation(&mut self, value: i32)
        requires
            old(self).wf(),
        ensures
            final(self).wf(),
            final(self).capacity() == old(self).capacity(),
            final(self).predictions() == old(self).predictions(),
            final(self).window() == slide(old(self).window(), old(self).capacity(), value),
    {
        if self.window.len() >= self.window_size {
            let _ = self.window.pop_front();
        }
        self.window.push_back(value);
        assert(self.window@ =~= slide(old(self).window@, old(self).window_size as nat, value));
    }

    /// The four sums of the fit, taken over the whole window.
    fn fit_sums(&self) -> (sums: FitSums)
        requires
            self.wf(),
        ensures
            sums.x == index_sum(self.window@.len()),
            sums.xx == index_sq_sum(self.window@.len()),
            sums.y == seq_sum(self.window@),
            sums.xy == cross_sum(self.window@),
    {
        let n = self.window.len();
        let ghost w = self.window@;
        let mut sums = FitSums { x: 0, y: 0, xy: 0, xx: 0 };
        let mut i: usize = 0;
        while i < n
            invariant
                i <= n <= MAX_PREDICTOR_WINDOW,
                n == w.len(),
                w == self.window@,
                sums.x == index_sum(i as nat),
                sums.xx == index_sq_sum(i as nat),
                sums.y == seq_sum(w.take(i as int)),
                sums.xy == cross_sum(w.take(i as int)),
                0 <= sums.x <= i * 0x1_0000,
                0 <= sums.xx <= i * 0x1_0000_0000,
                -0x8000_0000 * i <= sums.y <= 0x8000_0000 * i,
                -0x8000_0000_0000 * i <= sums.xy <= 0x8000_0000_0000 * i,
            decreases n - i,
        {
            let y: i128 = self.window[i] as i128;
            let x: i128 = i as i128;
            proof {
                assert(w.take(i + 1).drop_last() =~= w.take(i as int));
                assert(w.take(i + 1).last() == w[i as int]);
                lemma_product_bound(x as int, y as int, 0x1_0000, 0x8000_0000);
                lemma_square_bound(x as int, 0x1_0000);
            }
            sums.x = sums.x + x;
            sums.y = sums.y + y;
            sums.xy = sums.xy + x * y;
            sums.xx = sums.xx + x * x;
            i = i + 1;
        }
        assert(w.take(n as int) =~= w);
        sums
    }

    /// The total and the residual sum of squares of the fit with the given
    /// mean, slope and intercept.
    fn squares(&self, mean: i128, slope: i128, intercept: i128) -> (ss: (i128, i128))
        requires
            self.wf(),
            self.window@.len() >= 1,
            mean == seq_sum(self.window@) / (self.window@.len() as int),
            slope == slope_of(self.window@),
            intercept == intercept_of(self.window@),
            -0x8000_0000 <= mean <= 0x8000_0000,
            -0x2_0000_0000 <= slope <= 0x2_0000_0000,
            -0x4_0000_0000_0000 <= intercept <= 0x4_0000_0000_0000,
        ensures
            ss.0 == total_sq(self.window@, self.window@.len()),
            ss.1 == residual_sq(self.window@, self.window@.len()),
            0 <= ss.0 <= 0x4_0000_0000_0000_0000_0000,
            0 <= ss.1,
    {
        let n = self.window.len();
        let ghost w = self.window@;
        let mut ss_tot: i128 = 0;
        let mut ss_res: i128 = 0;
        let mut i: usize = 0;
        while i < n
            invariant
                i <= n <= MAX_PREDICTOR_WINDOW,
                n == w.len(),
                w == self.window@,
                mean == seq_sum(w) / (w.len() as int),
                slope == slope_of(w),
                intercept == intercept_of(w),
                -0x8000_0000 <= mean <= 0x8000_0000,
                -0x2_0000_0000 <= slope <= 0x2_0000_0000,
                -0x4_0000_0000_0000 <= intercept <= 0x4_0000_0000_0000,
                ss_tot == total_sq(w, i as nat),
                ss_res == residual_sq(w, i as nat),
                0 <= ss_tot <= i * 0x4_0000_0000_0000_0000,
                0 <= ss_res <= i * 0x100_0000_0000_0000_0000_0000_0000,
            decreases n - i,
        {
            let y: i128 = self.window[i] as i128;
            let x: i128 = i as i128;
            proof {
                lemma_product_bound(slope as int, x as int, 0x2_0000_0000, 0x1_0000);
            }
            let y_pred: i128 = slope * x + intercept;
            let from_mean: i128 = y - mean;
            let from_line: i128 = y - y_pred;
            proof {
                lemma_square_bound(from_mean as int, 0x1_0000_0000);
                lemma_square_bound(from_line as int, 0x8_0000_0000_0000);
            }
            ss_tot = ss_tot + from_mean * from_mean;
            ss_res = ss_res + from_line * from_line;
            i = i + 1;
        }
        (ss_tot, ss_res)
    }

    /// Fits a line through the window and extrapolates it `steps_ahead`
    /// positions past the window's end. Nothing is predicted from fewer than
    /// two observations; otherwise the prediction counter goes up by one
    /// (it stops at the largest `usize`).
    pub fn predict(&mut self, steps_ahead: usize) -> (made: Option<Prediction>)
        requires
            old(self).wf(),
        ensures
            final(self).wf(),
            final(self).capacity() == old(self).capacity(),
            final(self).window() == old(self).window(),
            made is Some <==> old(self).window().len() >= MIN_POINTS,
            made is None ==> final(self).predictions() == old(self).predictions(),
            made is Some ==> {
                &&& made->Some_0.values@ == forecast(old(self).window(), steps_ahead as nat)
                &&& made->Some_0.confidence == confidence_of(old(self).window())
                &&& made->Some_0.trend == slope_of(old(self).window())
                &&& made->Some_0.values@.len() == steps_ahead
                &&& forall|i: int|
                    0 <= i < steps_ahead ==> 0 <= #[trigger] made->Some_0.values@[i] <= SCALE
                &&& 0 <= made->Some_0.confidence <= SCALE
                &&& final(self).predictions() == if old(self).predictions() < usize::MAX {
                    old(self).predictions() + 1
                } else {
                    old(self).predictions()
                }
            },
    {
        let len = self.window.len();
        if len < MIN_POINTS {
            return None;
        }
        let ghost w = self.window@;
        let n: i128 = len as i128;
        let sums = self.fit_sums();
        proof {
            lemma_index_sums(len as nat);
            lemma_fit_denominator(len as nat);
            lemma_sum_bounds(w);
            lemma_cross_sum_bounds(w);
            lemma_slope_bound(w);
            assert(0 <= sums.x <= 0x1_0000 * 0x1_0000) by (nonlinear_arith)
                requires
                    2 * sums.x == n * (n - 1),
                    2 <= n <= 0x1_0000,
            ;
            assert(0 <= sums.xx <= 0x1_0000 * 0x1_0000 * 0x1_0000) by (nonlinear_arith)
                requires
                    6 * sums.xx == (n - 1) * n * (2 * n - 1),
                    2 <= n <= 0x1_0000,
            ;
            lemma_product_bound(n as int, sums.xx as int, 0x1_0000, 0x1_0000_0000_0000);
            lemma_product_bound(sums.x as int, sums.x as int, 0x1_0000_0000, 0x1_0000_0000);
            lemma_product_bound(sums.x as int, 0x8000_0000, 0x1_0000_0000, 0x8000_0000);
            lemma_product_bound(n as int, sums.xy as int, 0x1_0000, 0x8000_0000_0000_0000);
            lemma_product_bound(sums.x as int, sums.y as int, 0x1_0000_0000, 0x8000_0000_0000);
        }
        let denominator: i128 = n * sums.xx - sums.x * sums.x;
        let numerator: i128 = n * sums.xy - sums.x * sums.y;
        let slope: i128 = div_floor(numerator, denominator);
        proof {
            lemma_product_bound(slope as int, sums.x as int, 0x2_0000_0000, 0x1_0000_0000);
        }
        let offset: i128 = sums.y - slope * sums.x;
        let intercept: i128 = div_floor(offset, n);
        proof {
            assert(-0x4_0000_0000_0000 * n <= offset <= 0x4_0000_0000_0000 * n)
                by (nonlinear_arith)
                requires
                    offset == sums.y - slope * sums.x,
                    -0x8000_0000 * n <= sums.y <= 0x8000_0000 * n,
                    2 * sums.x == n * (n - 1),
                    -0x2_0000_0000 <= slope <= 0x2_0000_0000,
                    2 <= n <= 0x1_0000,
            ;
            lemma_quotient_bound(offset as int, n as int, 0x4_0000_0000_0000);
            lemma_quotient_bound(sums.y as int, n as int, 0x8000_0000);
        }

        let mut predictions: Vec<i32> = Vec::new();
        let mut i: usize = 0;
        while i < steps_ahead
            invariant
                i <= steps_ahead,
                n == w.len(),
                2 <= n <= 0x1_0000,
                slope == slope_of(w),
                intercept == intercept_of(w),
                -0x2_0000_0000 <= slope <= 0x2_0000_0000,
                -0x4_0000_0000_0000 <= intercept <= 0x4_0000_0000_0000,
                predictions@ == forecast(w, i as nat),
            decreases steps_ahead - i,
        {
            let x: i128 = n + i as i128;
            proof {
                lemma_product_bound(
                    slope as int,
                    x as int,
                    0x2_0000_0000,
                    0x2_0000_0000_0000_0000,
                );
            }
            let pred: i128 = slope * x + intercept;
            let clamped: i32 = if pred < 0 {
                0
            } else if pred > SCALE as i128 {
                SCALE as i32
            } else {
                pred as i32
            };
            predictions.push(clamped);
            i = i + 1;
            assert(predictions@ =~= forecast(w, i as nat));
        }

        let mean: i128 = div_floor(sums.y, n);
        let (ss_tot, ss_res) = self.squares(mean, slope, intercept);
        let confidence: i32 = if ss_tot > SS_FLOOR {
            if ss_res >= ss_tot {
                proof {
                    lemma_ratio_at_least_scale(ss_res as int, ss_tot as int);
                }
                0
            } else {
                proof {
                    lemma_ratio_below_scale(ss_res as int, ss_tot as int);
                    lemma_product_bound(
                        ss_res as int,
                        1_000_000,
                        0x4_0000_0000_0000_0000_0000,
                        1_000_000,
                    );
                }
                let ratio: i128 = ss_res * 1_000_000 / ss_tot;
                (1_000_000 - ratio) as i32
            }
        } else {
            0
        };

        if self.prediction_count < usize::MAX {
            self.prediction_count = self.prediction_count + 1;
        }
        Some(Prediction { values: predictions, confidence, trend: slope as i64 })
    }

    /// The number of observations in the window.
    pub fn window_len(&self) -> (len: usize)
        ensures
            len == self.window().len(),
    {
        self.window.len()
    }

    /// The number of predictions made since construction or the last
    /// `clear`.
    #[inline]
    pub fn prediction_count(&self) -> (count: usize)
        ensures
            count == self.predictions(),
    {
        self.prediction_count
    }

    /// Empties the window and zeroes the prediction counter; the capacity
    /// stays.
    pub fn clear(&mut self)
        requires
            old(self).wf(),
        ensures
            final(self).wf(),
            final(self).capacity() == old(self).capacity(),
            final(self).window() == Seq::<i32>::empty(),
            final(self).predictions() == 0,
    {
        self.window.clear();
        self.prediction_count = 0;
    }
}

} // verus!
