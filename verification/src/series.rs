//! Statistics of one series of fixed-point samples.
//!
//! A series is a sequence of `i32` samples, each a number of millionths. Sums are
//! exact. Every comparison against a threshold is made on the exact rational
//! value, and only the figures that are reported are rounded, once, towards
//! minus infinity.

use crate::fixed::{
    clamp, clamped, floor_div, floor_sqrt, is_floor_sqrt, isqrt, lemma_floor_sqrt_bound,
    lemma_floor_sqrt_unique,
};
use crate::summation::{lemma_spread_not_negative, lemma_sum_of_bounds, sum_of, sum_of_squares};
use vstd::prelude::*;

verus! {

/// The longest series whose statistics fit the machine arithmetic used here.
pub const MAX_SAMPLES: usize = 0xFFFF_FFFF;

/// The longest series for which the lag-one correlation is computed.
pub const MAX_STEPS: usize = 0x10_0000;

/// The samples of `series` as integer terms.
pub open spec fn samples(series: Seq<i32>) -> spec_fn(int) -> int {
    |i: int| series[i] as int
}

/// The sum of all samples.
pub open spec fn series_sum(series: Seq<i32>) -> int {
    sum_of(samples(series), series.len() as int)
}

/// The sum of the squares of all samples.
pub open spec fn series_sum_sq(series: Seq<i32>) -> int {
    sum_of_squares(samples(series), series.len() as int)
}

/// The population variance of the series, times the square of its length:
/// `n * sum(x^2) - sum(x)^2`, in squared millionths.
pub open spec fn series_spread(series: Seq<i32>) -> int {
    series.len() * series_sum_sq(series) - series_sum(series) * series_sum(series)
}

/// The mean of the series, rounded down.
pub open spec fn series_mean(series: Seq<i32>) -> int
    recommends
        series.len() > 0,
{
    series_sum(series) / (series.len() as int)
}

/// Whether the exact mean of the series is greater than `threshold`.
pub open spec fn mean_above(series: Seq<i32>, threshold: int) -> bool {
    series_sum(series) > threshold * series.len()
}

/// The population variance of the series in millionths, rounded down.
pub open spec fn series_variance(series: Seq<i32>) -> int
    recommends
        series.len() > 0,
{
    let count = series.len() as int;
    series_spread(series) / (count * count * 1_000_000)
}

/// Whether the exact population variance of the series is less than `threshold`.
pub open spec fn variance_below(series: Seq<i32>, threshold: int) -> bool {
    let count = series.len() as int;
    series_spread(series) < threshold * 1_000_000 * (count * count)
}

/// The population standard deviation of the series in millionths: the square
/// root, rounded down, of the variance in squared millionths, rounded down.
pub open spec fn series_deviation(series: Seq<i32>) -> int
    recommends
        series.len() > 0,
{
    let count = series.len() as int;
    floor_sqrt(series_spread(series) / (count * count))
}

/// One for each sample greater than `threshold`.
pub open spec fn above_marks(series: Seq<i32>, threshold: int) -> spec_fn(int) -> int {
    |i: int| if series[i] > threshold { 1int } else { 0int }
}

/// The number of samples greater than `threshold`.
pub open spec fn count_above(series: Seq<i32>, threshold: int) -> int {
    sum_of(above_marks(series, threshold), series.len() as int)
}

/// The fraction of samples greater than `threshold`, in millionths, rounded down.
pub open spec fn share_above(series: Seq<i32>, threshold: int) -> int
    recommends
        series.len() > 0,
{
    count_above(series, threshold) * 1_000_000 / (series.len() as int)
}

/// One for each position whose sample is not above `threshold` while the next
/// sample is.
pub open spec fn edge_marks(series: Seq<i32>, threshold: int) -> spec_fn(int) -> int {
    |i: int| if series[i] <= threshold && series[i + 1] > threshold { 1int } else { 0int }
}

/// The number of times the series rises above `threshold`.
pub open spec fn rising_edges(series: Seq<i32>, threshold: int) -> int {
    sum_of(edge_marks(series, threshold), series.len() - 1)
}

/// The rises above `threshold` per sample, in millionths, rounded down.
pub open spec fn edge_rate(series: Seq<i32>, threshold: int) -> int
    recommends
        series.len() > 0,
{
    rising_edges(series, threshold) * 1_000_000 / (series.len() as int)
}

/// The absolute value of `x`.
pub open spec fn magnitude(x: int) -> int {
    if x < 0 {
        -x
    } else {
        x
    }
}

/// The size of the change from each sample to the one `lag` places later.
pub open spec fn step_sizes(series: Seq<i32>, lag: int) -> spec_fn(int) -> int {
    |i: int| magnitude(series[i + lag] - series[i])
}

/// The sum of the sizes of all changes over `lag` places.
pub open spec fn step_total(series: Seq<i32>, lag: int) -> int {
    sum_of(step_sizes(series, lag), series.len() - lag)
}

/// The mean size of a change over `lag` places, rounded down; zero for a series
/// with no such pair of samples.
pub open spec fn mean_step(series: Seq<i32>, lag: int) -> int {
    if lag < series.len() {
        step_total(series, lag) / (series.len() - lag)
    } else {
        0
    }
}

/// The products of the samples at the same place in two series.
pub open spec fn products(left: Seq<i32>, right: Seq<i32>) -> spec_fn(int) -> int {
    |i: int| left[i] * right[i]
}

/// The series without its last sample.
pub open spec fn leading(series: Seq<i32>) -> Seq<i32> {
    series.take(series.len() - 1)
}

/// The series without its first sample.
pub open spec fn trailing(series: Seq<i32>) -> Seq<i32> {
    series.skip(1)
}

/// The covariance of the series with itself one place later, times the square
/// of the number of pairs: `m * sum(a * b) - sum(a) * sum(b)`.
pub open spec fn lag_covariance(series: Seq<i32>) -> int {
    let pairs = series.len() - 1;
    pairs * sum_of(products(leading(series), trailing(series)), pairs) - series_sum(
        leading(series),
    ) * series_sum(trailing(series))
}

/// The product of the rounded-down roots of the spreads of the series without
/// its last and without its first sample: what the covariance is divided by.
pub open spec fn lag_scale(series: Seq<i32>) -> int {
    floor_sqrt(series_spread(leading(series))) * floor_sqrt(series_spread(trailing(series)))
}

/// The Pearson correlation, in millionths, between the series and itself one
/// place later: the covariance over `lag_scale`, rounded down and kept within
/// minus one and one. It is zero for a series of fewer than two samples and
/// where either half does not vary enough for the scale to be positive.
pub open spec fn lag_correlation(series: Seq<i32>) -> int {
    if series.len() < 2 || lag_scale(series) == 0 {
        0
    } else {
        clamped(1_000_000 * lag_covariance(series) / lag_scale(series), -1_000_000, 1_000_000)
    }
}

/// The sum, the sum of squares and the length of a series.
#[derive(Clone, Copy, Debug)]
pub struct Moments {
    pub count: usize,
    pub sum: i128,
    pub sum_sq: i128,
}

impl Moments {
    /// These are the moments of `series`, a series that is not empty and not
    /// longer than `MAX_SAMPLES`.
    pub open spec fn of(self, series: Seq<i32>) -> bool {
        &&& 0 < series.len() <= MAX_SAMPLES
        &&& self.count == series.len()
        &&& self.sum == series_sum(series)
        &&& self.sum_sq == series_sum_sq(series)
    }
}

/// The sum of a series lies within its length times the range of a sample, the
/// sum of squares within its length times the largest square, and the spread is
/// not negative and not above the length times the sum of squares.
pub proof fn lemma_series_bounds(series: Seq<i32>)
    ensures
        -0x8000_0000 * series.len() <= series_sum(series) <= 0x8000_0000 * series.len(),
        0 <= series_sum_sq(series) <= 0x4000_0000_0000_0000 * series.len(),
        0 <= series_spread(series) <= series.len() * series_sum_sq(series),
{
    let count = series.len() as int;
    let squares = |i: int| samples(series)(i) * samples(series)(i);
    lemma_sum_of_bounds(samples(series), count, -0x8000_0000, 0x8000_0000);
    assert forall|i: int| 0 <= i < count implies 0 <= #[trigger] squares(i)
        <= 0x4000_0000_0000_0000 by {
        let x = series[i] as int;
        assert(0 <= x * x <= 0x4000_0000_0000_0000) by (nonlinear_arith)
            requires
                -0x8000_0000 <= x <= 0x8000_0000,
        ;
    }
    lemma_sum_of_bounds(squares, count, 0, 0x4000_0000_0000_0000);
    lemma_spread_not_negative(samples(series), count);
    assert(series_sum(series) * series_sum(series) >= 0) by (nonlinear_arith);
}

/// The share of the samples above a threshold and the rate of rises above it
/// lie between zero and one.
pub proof fn lemma_rates_in_range(series: Seq<i32>, threshold: int)
    requires
        series.len() > 0,
    ensures
        0 <= count_above(series, threshold) <= series.len(),
        0 <= rising_edges(series, threshold) <= series.len() - 1,
        0 <= share_above(series, threshold) <= 1_000_000,
        0 <= edge_rate(series, threshold) <= 1_000_000,
{
    let count = series.len() as int;
    lemma_sum_of_bounds(above_marks(series, threshold), count, 0, 1);
    lemma_sum_of_bounds(edge_marks(series, threshold), count - 1, 0, 1);
    let above = count_above(series, threshold);
    let edges = rising_edges(series, threshold);
    assert(0 <= above * 1_000_000 / count <= 1_000_000) by (nonlinear_arith)
        requires
            0 < count,
            0 <= above <= count,
    ;
    assert(0 <= edges * 1_000_000 / count <= 1_000_000) by (nonlinear_arith)
        requires
            0 < count,
            0 <= edges <= count,
    ;
}

/// The lag-one correlation lies between minus one and one.
pub proof fn lemma_correlation_in_range(series: Seq<i32>)
    ensures
        -1_000_000 <= lag_correlation(series) <= 1_000_000,
{
}

/// A mean that is above a threshold is, rounded down, not below it.
pub proof fn lemma_mean_reaches_level(series: Seq<i32>, threshold: int)
    requires
        series.len() > 0,
        mean_above(series, threshold),
    ensures
        series_mean(series) >= threshold,
{
    let count = series.len() as int;
    let sum = series_sum(series);
    assert(sum / count >= threshold) by (nonlinear_arith)
        requires
            0 < count,
            sum > threshold * count,
    ;
}

/// The mean lies within the range of a sample, and the variance is not
/// negative and not above the square of the width of that range.
pub proof fn lemma_figures_in_range(series: Seq<i32>)
    requires
        series.len() > 0,
    ensures
        -0x8000_0000 <= series_mean(series) <= 0x8000_0000,
        0 <= series_variance(series) <= 0x4000_0000_0000,
{
    lemma_series_bounds(series);
    let n = series.len() as int;
    let sum = series_sum(series);
    let sp = series_spread(series);
    let sq = series_sum_sq(series);
    assert(-0x8000_0000 <= sum / n <= 0x8000_0000) by (nonlinear_arith)
        requires
            0 < n,
            -0x8000_0000 * n <= sum <= 0x8000_0000 * n,
    ;
    assert(n * sq <= 0x4000_0000_0000_0000 * (n * n)) by (nonlinear_arith)
        requires
            0 < n,
            0 <= sq <= 0x4000_0000_0000_0000 * n,
    ;
    assert(0 <= sp / (n * n * 1_000_000) <= 0x4000_0000_0000) by (nonlinear_arith)
        requires
            0 < n,
            0 <= sp <= 0x4000_0000_0000_0000 * (n * n),
    ;
}

/// Whether every sample of the series is `value`.
pub open spec fn constant_at(series: Seq<i32>, value: i32) -> bool {
    forall|i: int| 0 <= i < series.len() ==> series[i] == value
}

/// Of a series whose every sample is `value`: the sum is the length times
/// `value`, the mean is `value`, the spread is zero, every sample is above a
/// threshold or none is, and the series never rises above a threshold.
pub proof fn lemma_constant_series(series: Seq<i32>, value: i32, threshold: int)
    requires
        series.len() > 0,
        constant_at(series, value),
    ensures
        series_sum(series) == series.len() * value,
        series_mean(series) == value,
        series_spread(series) == 0,
        series_variance(series) == 0,
        mean_above(series, threshold) == (value > threshold),
        share_above(series, threshold) == (if value > threshold {
            1_000_000int
        } else {
            0int
        }),
        edge_rate(series, threshold) == 0,
{
    let count = series.len() as int;
    let v = value as int;
    let squares = |i: int| samples(series)(i) * samples(series)(i);
    lemma_sum_of_bounds(samples(series), count, v, v);
    assert forall|i: int| 0 <= i < count implies v * v <= #[trigger] squares(i) <= v * v by {
        assert(series[i] == value);
    }
    lemma_sum_of_bounds(squares, count, v * v, v * v);
    let sum = series_sum(series);
    let sum_sq = series_sum_sq(series);
    assert(sum == count * v);
    assert(sum_sq == count * (v * v));
    assert(count * (count * (v * v)) - (count * v) * (count * v) == 0) by (nonlinear_arith);
    assert((count * v) / count == v) by (nonlinear_arith)
        requires
            count > 0,
    ;
    assert((count * v > threshold * count) == (v > threshold)) by (nonlinear_arith)
        requires
            count > 0,
    ;
    assert(0int / (count * count * 1_000_000) == 0) by (nonlinear_arith)
        requires
            count > 0,
    ;
    if value > threshold {
        lemma_sum_of_bounds(above_marks(series, threshold), count, 1, 1);
        assert((count * 1) * 1_000_000 / count == 1_000_000) by (nonlinear_arith)
            requires
                count > 0,
        ;
    } else {
        lemma_sum_of_bounds(above_marks(series, threshold), count, 0, 0);
        assert(count * 0 == 0);
        assert(0int * 1_000_000 / count == 0) by (nonlinear_arith)
            requires
                count > 0,
        ;
    }
    lemma_sum_of_bounds(edge_marks(series, threshold), count - 1, 0, 0);
    assert(rising_edges(series, threshold) == 0) by (nonlinear_arith)
        requires
            (count - 1) * 0 <= rising_edges(series, threshold) <= (count - 1) * 0,
    ;
    assert(0int * 1_000_000 / count == 0) by (nonlinear_arith)
        requires
            count > 0,
    ;
}

/// A series whose every sample is the same has no correlation with itself
/// one place later: it is reported as zero.
pub proof fn lemma_constant_series_uncorrelated(series: Seq<i32>, value: i32)
    requires
        constant_at(series, value),
    ensures
        lag_correlation(series) == 0,
{
    if series.len() >= 2 {
        let head = leading(series);
        assert(constant_at(head, value));
        lemma_constant_series(head, value, 0);
        assert(is_floor_sqrt(0, 0));
        assert(is_floor_sqrt(0, floor_sqrt(0)));
        lemma_floor_sqrt_unique(0, 0, floor_sqrt(0));
        assert(lag_scale(series) == 0) by (nonlinear_arith)
            requires
                lag_scale(series) == 0 * floor_sqrt(series_spread(trailing(series))),
        ;
    }
}

/// The sum, the sum of squares and the length of `series`.
pub fn moments(series: &Vec<i32>) -> (m: Moments)
    requires
        0 < series.len() <= MAX_SAMPLES,
    ensures
        m.of(series@),
{
    let mut sum: i128 = 0;
    let mut sum_sq: i128 = 0;
    let mut i: usize = 0;
    while i < series.len()
        invariant
            i <= series.len() <= MAX_SAMPLES,
            sum == sum_of(samples(series@), i as int),
            sum_sq == sum_of_squares(samples(series@), i as int),
            -0x8000_0000 * i <= sum <= 0x8000_0000 * i,
            0 <= sum_sq <= 0x4000_0000_0000_0000 * i,
        decreases series.len() - i,
    {
        let x: i128 = series[i] as i128;
        assert(0 <= x * x <= 0x4000_0000_0000_0000) by (nonlinear_arith)
            requires
                -0x8000_0000 <= x <= 0x8000_0000,
        ;
        sum = sum + x;
        sum_sq = sum_sq + x * x;
        i = i + 1;
    }
    Moments { count: series.len(), sum, sum_sq }
}

/// The spread of the series whose moments are `m`.
fn spread_of(m: Moments, Ghost(series): Ghost<Seq<i32>>) -> (spread: i128)
    requires
        m.of(series),
    ensures
        spread == series_spread(series),
        0 <= spread <= 0x4000_0000_0000_0000 * (series.len() * series.len()),
        spread <= 0x3FFF_FFFF_8000_0000_4000_0000_0000_0000,
{
    let count: i128 = m.count as i128;
    proof {
        lemma_series_bounds(series);
        let sum = m.sum as int;
        let sum_sq = m.sum_sq as int;
        let n = count as int;
        assert(n * sum_sq <= 0x4000_0000_0000_0000 * (n * n)) by (nonlinear_arith)
            requires
                0 < n,
                0 <= sum_sq <= 0x4000_0000_0000_0000 * n,
        ;
        assert(0x4000_0000_0000_0000 * (n * n) <= 0x3FFF_FFFF_8000_0000_4000_0000_0000_0000)
            by (nonlinear_arith)
            requires
                0 < n <= 0xFFFF_FFFF,
        ;
        assert(0 <= n * sum_sq) by (nonlinear_arith)
            requires
                0 < n,
                0 <= sum_sq,
        ;
        assert(sum * sum >= 0) by (nonlinear_arith);
    }
    count * m.sum_sq - m.sum * m.sum
}

/// The mean of `series`, rounded down.
pub fn mean(series: &Vec<i32>) -> (r: i64)
    requires
        0 < series.len() <= MAX_SAMPLES,
    ensures
        r == series_mean(series@),
        -0x8000_0000 <= r <= 0x8000_0000,
{
    let m = moments(series);
    proof {
        lemma_series_bounds(series@);
    }
    let q: i128 = floor_div(m.sum, m.count as i128);
    proof {
        let n = series.len() as int;
        let sum = m.sum as int;
        assert(-0x8000_0000 <= sum / n <= 0x8000_0000) by (nonlinear_arith)
            requires
                0 < n,
                -0x8000_0000 * n <= sum <= 0x8000_0000 * n,
        ;
    }
    q as i64
}

/// Whether the exact mean of `series` is greater than `threshold`.
pub fn mean_exceeds(series: &Vec<i32>, threshold: i32) -> (r: bool)
    requires
        0 < series.len() <= MAX_SAMPLES,
    ensures
        r == mean_above(series@, threshold as int),
{
    let m = moments(series);
    proof {
        let n = series.len() as int;
        let t = threshold as int;
        assert(-0x8000_0000 * 0xFFFF_FFFF <= t * n <= 0x8000_0000 * 0xFFFF_FFFF)
            by (nonlinear_arith)
            requires
                0 < n <= 0xFFFF_FFFF,
                -0x8000_0000 <= t <= 0x8000_0000,
        ;
    }
    m.sum > (threshold as i128) * (m.count as i128)
}

/// The population variance of `series` in millionths, rounded down.
pub fn variance(series: &Vec<i32>) -> (r: i64)
    requires
        0 < series.len() <= MAX_SAMPLES,
    ensures
        r == series_variance(series@),
        0 <= r <= 0x4000_0000_0000,
{
    let m = moments(series);
    let spread: i128 = spread_of(m, Ghost(series@));
    let count: i128 = m.count as i128;
    proof {
        let n = count as int;
        assert(0 < n * n <= 0xFFFF_FFFF * 0xFFFF_FFFF) by (nonlinear_arith)
            requires
                0 < n <= 0xFFFF_FFFF,
        ;
    }
    let square: i128 = count * count;
    let divisor: i128 = square * 1_000_000;
    let q: i128 = spread / divisor;
    proof {
        let sp = spread as int;
        let sq = square as int;
        assert(0 <= sp / (sq * 1_000_000) <= 0x4000_0000_0000) by (nonlinear_arith)
            requires
                0 < sq,
                0 <= sp <= 0x4000_0000_0000_0000 * sq,
        ;
    }
    q as i64
}

/// Whether the exact population variance of `series` is less than `threshold`.
pub fn variance_under(series: &Vec<i32>, threshold: i32) -> (r: bool)
    requires
        0 < series.len() <= MAX_SAMPLES,
    ensures
        r == variance_below(series@, threshold as int),
{
    let m = moments(series);
    let spread: i128 = spread_of(m, Ghost(series@));
    let count: i128 = m.count as i128;
    proof {
        let n = count as int;
        assert(0 < n * n <= 0xFFFF_FFFF * 0xFFFF_FFFF) by (nonlinear_arith)
            requires
                0 < n <= 0xFFFF_FFFF,
        ;
    }
    let square: i128 = count * count;
    let level: i128 = (threshold as i128) * 1_000_000;
    proof {
        let l = level as int;
        let sq = square as int;
        assert(-0x1000_0000_0000_0000_0000_0000_0000_0000 <= l * sq
            <= 0x1000_0000_0000_0000_0000_0000_0000_0000) by (nonlinear_arith)
            requires
                0 < sq <= 0x1_0000_0000_0000_0000,
                -0x1000_0000_0000_0000 <= l <= 0x1000_0000_0000_0000,
        ;
    }
    spread < level * square
}

/// The population standard deviation of `series` in millionths, rounded down.
pub fn deviation(series: &Vec<i32>) -> (r: i64)
    requires
        0 < series.len() <= MAX_SAMPLES,
    ensures
        r == series_deviation(series@),
        0 <= r <= 0x8000_0000,
{
    let m = moments(series);
    let spread: i128 = spread_of(m, Ghost(series@));
    let count: i128 = m.count as i128;
    proof {
        let n = count as int;
        assert(0 < n * n <= 0xFFFF_FFFF * 0xFFFF_FFFF) by (nonlinear_arith)
            requires
                0 < n <= 0xFFFF_FFFF,
        ;
    }
    let square: i128 = count * count;
    let q: i128 = spread / square;
    proof {
        let sp = spread as int;
        let sq = square as int;
        assert(0 <= sp / sq <= 0x4000_0000_0000_0000) by (nonlinear_arith)
            requires
                0 < sq,
                0 <= sp <= 0x4000_0000_0000_0000 * sq,
        ;
    }
    let root: u64 = isqrt(q as u128);
    proof {
        assert(0x8000_0000int * 0x8000_0000int == 0x4000_0000_0000_0000int) by (nonlinear_arith);
        lemma_floor_sqrt_bound(q as int, root as int, 0x8000_0000);
    }
    root as i64
}

/// The fraction of the samples of `series` that are greater than `threshold`,
/// in millionths, rounded down.
pub fn fraction_above(series: &Vec<i32>, threshold: i32) -> (r: i64)
    requires
        0 < series.len() <= MAX_SAMPLES,
    ensures
        r == share_above(series@, threshold as int),
        0 <= r <= 1_000_000,
{
    let mut count: i128 = 0;
    let mut i: usize = 0;
    while i < series.len()
        invariant
            i <= series.len() <= MAX_SAMPLES,
            count == sum_of(above_marks(series@, threshold as int), i as int),
            0 <= count <= i,
        decreases series.len() - i,
    {
        if series[i] > threshold {
            count = count + 1;
        }
        i = i + 1;
    }
    let q: i128 = count * 1_000_000 / (series.len() as i128);
    proof {
        let n = series.len() as int;
        let c = count as int;
        assert(0 <= c * 1_000_000 / n <= 1_000_000) by (nonlinear_arith)
            requires
                0 < n,
                0 <= c <= n,
        ;
    }
    q as i64
}

/// The number of times `series` rises above `threshold`, per sample, in
/// millionths, rounded down.
pub fn crossing_rate(series: &Vec<i32>, threshold: i32) -> (r: i64)
    requires
        0 < series.len() <= MAX_SAMPLES,
    ensures
        r == edge_rate(series@, threshold as int),
        0 <= r <= 1_000_000,
{
    let mut count: i128 = 0;
    let mut i: usize = 0;
    let last: usize = series.len() - 1;
    while i < last
        invariant
            i <= last,
            last == series.len() - 1,
            series.len() <= MAX_SAMPLES,
            count == sum_of(edge_marks(series@, threshold as int), i as int),
            0 <= count <= i,
        decreases last - i,
    {
        if series[i] <= threshold && series[i + 1] > threshold {
            count = count + 1;
        }
        i = i + 1;
    }
    let q: i128 = count * 1_000_000 / (series.len() as i128);
    proof {
        let n = series.len() as int;
        let c = count as int;
        assert(0 <= c * 1_000_000 / n <= 1_000_000) by (nonlinear_arith)
            requires
                0 < n,
                0 <= c <= n,
        ;
    }
    q as i64
}

/// The mean size of the change from a sample of `series` to the one `lag`
/// places later, rounded down; zero where there is no such pair.
pub fn mean_change(series: &Vec<i32>, lag: usize) -> (r: i64)
    requires
        series.len() <= MAX_SAMPLES,
    ensures
        r == mean_step(series@, lag as int),
        0 <= r <= 0xFFFF_FFFF,
{
    if lag >= series.len() {
        return 0;
    }
    let pairs: usize = series.len() - lag;
    let mut total: i128 = 0;
    let mut i: usize = 0;
    while i < pairs
        invariant
            i <= pairs,
            pairs == series.len() - lag,
            series.len() <= MAX_SAMPLES,
            total == sum_of(step_sizes(series@, lag as int), i as int),
            0 <= total <= 0xFFFF_FFFF * i,
        decreases pairs - i,
    {
        let change: i64 = series[i + lag] as i64 - series[i] as i64;
        if change < 0 {
            total = total + (-change) as i128;
        } else {
            total = total + change as i128;
        }
        i = i + 1;
    }
    let q: i128 = total / (pairs as i128);
    proof {
        let n = pairs as int;
        let t = total as int;
        assert(0 <= t / n <= 0xFFFF_FFFF) by (nonlinear_arith)
            requires
                0 < n,
                0 <= t <= 0xFFFF_FFFF * n,
        ;
    }
    q as i64
}

/// The Pearson correlation, in millionths, between `series` and itself one
/// place later.
pub fn correlation_with_next(series: &Vec<i32>) -> (r: i64)
    requires
        series.len() <= MAX_STEPS,
    ensures
        r == lag_correlation(series@),
        -1_000_000 <= r <= 1_000_000,
{
    if series.len() < 2 {
        return 0;
    }
    let pairs: usize = series.len() - 1;
    let ghost head = leading(series@);
    let ghost tail = trailing(series@);
    let mut sum_a: i128 = 0;
    let mut sum_b: i128 = 0;
    let mut sq_a: i128 = 0;
    let mut sq_b: i128 = 0;
    let mut cross: i128 = 0;
    let mut i: usize = 0;
    while i < pairs
        invariant
            i <= pairs,
            pairs == series.len() - 1,
            series.len() <= MAX_STEPS,
            head == leading(series@),
            tail == trailing(series@),
            sum_a == sum_of(samples(head), i as int),
            sum_b == sum_of(samples(tail), i as int),
            sq_a == sum_of_squares(samples(head), i as int),
            sq_b == sum_of_squares(samples(tail), i as int),
            cross == sum_of(products(head, tail), i as int),
            -0x8000_0000 * i <= sum_a <= 0x8000_0000 * i,
            -0x8000_0000 * i <= sum_b <= 0x8000_0000 * i,
            0 <= sq_a <= 0x4000_0000_0000_0000 * i,
            0 <= sq_b <= 0x4000_0000_0000_0000 * i,
            -0x4000_0000_0000_0000 * i <= cross <= 0x4000_0000_0000_0000 * i,
        decreases pairs - i,
    {
        let a: i128 = series[i] as i128;
        let b: i128 = series[i + 1] as i128;
        assert(head[i as int] == series@[i as int]);
        assert(tail[i as int] == series@[i + 1]);
        assert(0 <= a * a <= 0x4000_0000_0000_0000 && 0 <= b * b <= 0x4000_0000_0000_0000
            && -0x4000_0000_0000_0000 <= a * b <= 0x4000_0000_0000_0000) by (nonlinear_arith)
            requires
                -0x8000_0000 <= a <= 0x8000_0000,
                -0x8000_0000 <= b <= 0x8000_0000,
        ;
        sum_a = sum_a + a;
        sum_b = sum_b + b;
        sq_a = sq_a + a * a;
        sq_b = sq_b + b * b;
        cross = cross + a * b;
        i = i + 1;
    }
    let first = Moments { count: pairs, sum: sum_a, sum_sq: sq_a };
    let second = Moments { count: pairs, sum: sum_b, sum_sq: sq_b };
    let spread_a: i128 = spread_of(first, Ghost(head));
    let spread_b: i128 = spread_of(second, Ghost(tail));
    let root_a: u64 = isqrt(spread_a as u128);
    let root_b: u64 = isqrt(spread_b as u128);
    let count: i128 = pairs as i128;
    proof {
        let n = pairs as int;
        assert(0x4000_0000_0000_0000 * (n * n) == (0x8000_0000 * n) * (0x8000_0000 * n))
            by (nonlinear_arith);
        lemma_floor_sqrt_bound(spread_a as int, root_a as int, 0x8000_0000 * n);
        lemma_floor_sqrt_bound(spread_b as int, root_b as int, 0x8000_0000 * n);
        let ra = root_a as int;
        let rb = root_b as int;
        assert(0 <= ra * rb <= 0x8_0000_0000_0000 * 0x8_0000_0000_0000) by (nonlinear_arith)
            requires
                0 <= ra <= 0x8_0000_0000_0000,
                0 <= rb <= 0x8_0000_0000_0000,
        ;
    }
    let scale: i128 = (root_a as i128) * (root_b as i128);
    if scale == 0 {
        return 0;
    }
    proof {
        let n = pairs as int;
        let c = cross as int;
        let sa = sum_a as int;
        let sb = sum_b as int;
        assert(-0x4000_0000_0000_0000 * 0x10_0000 * 0x10_0000 <= n * c <= 0x4000_0000_0000_0000
            * 0x10_0000 * 0x10_0000) by (nonlinear_arith)
            requires
                0 < n <= 0x10_0000,
                -0x4000_0000_0000_0000 * n <= c <= 0x4000_0000_0000_0000 * n,
        ;
        assert(-0x8_0000_0000_0000 * 0x8_0000_0000_0000 <= sa * sb <= 0x8_0000_0000_0000
            * 0x8_0000_0000_0000) by (nonlinear_arith)
            requires
                -0x8_0000_0000_0000 <= sa <= 0x8_0000_0000_0000,
                -0x8_0000_0000_0000 <= sb <= 0x8_0000_0000_0000,
        ;
    }
    let covariance: i128 = count * cross - sum_a * sum_b;
    let scaled: i128 = 1_000_000 * covariance;
    let q: i128 = floor_div(scaled, scale);
    let kept: i128 = clamp(q, -1_000_000, 1_000_000);
    kept as i64
}

} // verus!
