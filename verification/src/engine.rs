//! The temporal risk engine: from the assessed frames of a drive to the
//! features fed to the sequence model, and from the model's scores to risk
//! factors, temporal patterns, behavioural metrics and an overall safety score.

use crate::error::AppError;
use crate::fixed::{clamp, clamped, floor_div, Micro};
use crate::grid::OutputGrid;
use crate::series::{
    constant_at, correlation_with_next, crossing_rate, deviation, edge_rate, fraction_above, lag_correlation,
    lemma_constant_series, lemma_constant_series_uncorrelated, lemma_correlation_in_range,
    lemma_figures_in_range, lemma_mean_reaches_level,
    lemma_rates_in_range, lemma_series_bounds, mean, mean_above, mean_change, mean_exceeds,
    mean_step, moments, series_deviation, series_mean, series_sum, series_variance, share_above,
    variance, variance_below, variance_under,
};
use crate::types::{
    BehavioralMetrics, FrameAnalysis, LSTMOutput, RiskFactor, RiskFactorType, SafetyStatus,
    TemporalPattern,
};
use vstd::prelude::*;

verus! {

/// The number of features that describe one frame.
pub const INPUT_SIZE: usize = 8;

/// The frames that one second of video holds.
pub const FRAMES_PER_SECOND: i64 = 30;

/// The score above which a behaviour counts as pronounced: 0.7.
pub const HIGH_SCORE: i32 = 700_000;

/// The mean score above which following distance is reported as a risk: 0.6.
pub const FOLLOWING_RISK_LEVEL: i32 = 600_000;

/// The variance below which a score counts as steady: 0.1.
pub const STEADY_VARIANCE: i32 = 100_000;

/// One as a feature value.
pub open spec fn flag(set: bool) -> i64 {
    if set {
        1_000_000
    } else {
        0
    }
}

/// The feature value of a following-distance judgement: one for safe, zero for
/// unsafe, a half for anything else.
pub open spec fn safety_level(status: SafetyStatus) -> i64 {
    match status {
        SafetyStatus::Safe => 1_000_000,
        SafetyStatus::Unsafe => 0,
        _ => 500_000,
    }
}

/// The composite score of a frame: the mean, rounded down, of its scores for
/// lane centering, following distance, traffic-light compliance, merging,
/// pedestrian yielding and intersection behaviour.
pub open spec fn frame_score(frame: FrameAnalysis) -> int {
    (frame.lane_centering.score + frame.following_distance.score
        + frame.signal_compliance.traffic_light.score + frame.merging_lane_change.score
        + frame.pedestrian_yielding.score + frame.intersection_behavior.score) / 6
}

/// The eight features of a frame, scores on the scale from zero to a hundred
/// brought to the scale from zero to one.
pub open spec fn frame_features(frame: FrameAnalysis) -> Seq<i64> {
    seq![
        flag(frame.lane_centering.following_lane_discipline),
        (frame.lane_centering.score / 100) as i64,
        safety_level(frame.following_distance.safe_distance),
        (frame.following_distance.score / 100) as i64,
        (frame.signal_compliance.traffic_light.score / 100) as i64,
        flag(frame.merging_lane_change.safe_merging),
        flag(frame.pedestrian_yielding.pedestrian_present),
        frame_score(frame) as i64,
    ]
}

/// The composite score of a frame.
pub fn calculate_frame_score(analysis: &FrameAnalysis) -> (score: Micro)
    ensures
        score == frame_score(*analysis),
{
    let total: i128 = analysis.lane_centering.score as i128
        + analysis.following_distance.score as i128
        + analysis.signal_compliance.traffic_light.score as i128
        + analysis.merging_lane_change.score as i128 + analysis.pedestrian_yielding.score as i128
        + analysis.intersection_behavior.score as i128;
    let q: i128 = floor_div(total, 6);
    q as i64
}

/// A score on the scale from zero to a hundred, on the scale from zero to one.
fn normalized(score: Micro) -> (r: Micro)
    ensures
        r == score / 100,
{
    let q: i128 = floor_div(score as i128, 100);
    q as i64
}

/// The eight features of one frame.
pub fn frame_feature_vector(analysis: &FrameAnalysis) -> (features: [Micro; 8])
    ensures
        features@ == frame_features(*analysis),
{
    let lane: Micro = if analysis.lane_centering.following_lane_discipline {
        1_000_000
    } else {
        0
    };
    let distance: Micro = match analysis.following_distance.safe_distance {
        SafetyStatus::Safe => 1_000_000,
        SafetyStatus::Unsafe => 0,
        _ => 500_000,
    };
    let merging: Micro = if analysis.merging_lane_change.safe_merging {
        1_000_000
    } else {
        0
    };
    let pedestrian: Micro = if analysis.pedestrian_yielding.pedestrian_present {
        1_000_000
    } else {
        0
    };
    let features: [Micro; 8] = [
        lane,
        normalized(analysis.lane_centering.score),
        distance,
        normalized(analysis.following_distance.score),
        normalized(analysis.signal_compliance.traffic_light.score),
        merging,
        pedestrian,
        calculate_frame_score(analysis),
    ];
    assert(features@ =~= frame_features(*analysis));
    features
}

/// Whether `rows` holds the features of `frames`, frame by frame.
pub open spec fn features_match(rows: Seq<[Micro; 8]>, frames: Seq<FrameAnalysis>) -> bool {
    &&& rows.len() == frames.len()
    &&& forall|i: int| 0 <= i < frames.len() ==> (#[trigger] rows[i])@ == frame_features(frames[i])
}

/// The description of the failure on an empty sequence of frames.
pub open spec fn empty_sequence_error(error: AppError) -> bool {
    error matches AppError::InvalidInput(text) && text@ == "no frames to analyze"@
}

/// The features of a sequence of frames, one row of eight per frame, in the
/// order of the frames. An empty sequence is refused.
pub fn extract_features(analyses: &Vec<FrameAnalysis>) -> (features: Result<
    Vec<[Micro; 8]>,
    AppError,
>)
    ensures
        analyses@.len() == 0 ==> (features matches Err(error) && empty_sequence_error(error)),
        analyses@.len() > 0 ==> (features matches Ok(rows) && features_match(rows@, analyses@)),
{
    if analyses.len() == 0 {
        return Err(AppError::InvalidInput(String::from_str("no frames to analyze")));
    }
    let mut rows: Vec<[Micro; 8]> = Vec::new();
    let mut i: usize = 0;
    while i < analyses.len()
        invariant
            i <= analyses.len(),
            rows@.len() == i,
            forall|k: int| 0 <= k < i ==> (#[trigger] rows@[k])@ == frame_features(analyses@[k]),
        decreases analyses.len() - i,
    {
        let row: [Micro; 8] = frame_feature_vector(&analyses[i]);
        rows.push(row);
        i = i + 1;
    }
    Ok(rows)
}

/// The fraction of the time steps at which column `feature_idx` is above
/// `HIGH_SCORE`.
pub fn calculate_frequency(output: &OutputGrid, feature_idx: usize) -> (frequency: Micro)
    requires
        feature_idx < output.spec_width(),
    ensures
        frequency == share_above(output.spec_column(feature_idx as int), HIGH_SCORE as int),
        0 <= frequency <= 1_000_000,
{
    let scores = output.column(feature_idx);
    fraction_above(&scores, HIGH_SCORE)
}

/// The correlation of column `feature_idx` with itself one time step later.
pub fn calculate_temporal_correlation(output: &OutputGrid, feature_idx: usize) -> (correlation:
    Micro)
    requires
        feature_idx < output.spec_width(),
    ensures
        correlation == lag_correlation(output.spec_column(feature_idx as int)),
        -1_000_000 <= correlation <= 1_000_000,
{
    let scores = output.column(feature_idx);
    correlation_with_next(&scores)
}

/// The risk factor of kind `kind` that column `column` gives rise to: none
/// where the grid has no such column or where the exact mean of the column is
/// not above `level`; otherwise one whose severity is that mean, whose
/// frequency is the share of time steps above `HIGH_SCORE`, and whose
/// temporal correlation is that of the column with itself one step later.
pub open spec fn risk_in(grid: OutputGrid, column: int, level: int, kind: RiskFactorType) -> Seq<
    RiskFactor,
> {
    if column < grid.spec_width() && mean_above(grid.spec_column(column), level) {
        seq![
            RiskFactor {
                factor_type: kind,
                severity: series_mean(grid.spec_column(column)) as i64,
                frequency: share_above(grid.spec_column(column), HIGH_SCORE as int) as i64,
                temporal_correlation: lag_correlation(grid.spec_column(column)) as i64,
            },
        ]
    } else {
        Seq::empty()
    }
}

/// The risk factors of a grid: lane deviation from column 0 against
/// `HIGH_SCORE`, then following distance from column 1 against
/// `FOLLOWING_RISK_LEVEL`.
pub open spec fn detected_risks(grid: OutputGrid) -> Seq<RiskFactor> {
    risk_in(grid, 0, HIGH_SCORE as int, RiskFactorType::LaneDeviation) + risk_in(
        grid,
        1,
        FOLLOWING_RISK_LEVEL as int,
        RiskFactorType::FollowingDistance,
    )
}

/// The figures of a risk factor are in their ranges: the severity is not below
/// the lower of the two levels that a mean must exceed, the frequency lies
/// between zero and one, and the temporal correlation between minus one and
/// one.
pub open spec fn risk_in_range(risk: RiskFactor) -> bool {
    &&& risk.severity >= FOLLOWING_RISK_LEVEL
    &&& 0 <= risk.frequency <= 1_000_000
    &&& -1_000_000 <= risk.temporal_correlation <= 1_000_000
}

/// A grid has at most two risk factors, and each has its figures in their
/// ranges.
pub proof fn lemma_risks_in_range(grid: OutputGrid)
    requires
        grid.well_formed(),
    ensures
        detected_risks(grid).len() <= 2,
        forall|i: int|
            0 <= i < detected_risks(grid).len() ==> risk_in_range(#[trigger] detected_risks(grid)[i]),
{
    lemma_column_risk_in_range(grid, 0, HIGH_SCORE as int, RiskFactorType::LaneDeviation);
    lemma_column_risk_in_range(
        grid,
        1,
        FOLLOWING_RISK_LEVEL as int,
        RiskFactorType::FollowingDistance,
    );
}

/// The risk factor that a column gives rise to has its figures in their ranges.
proof fn lemma_column_risk_in_range(grid: OutputGrid, column: int, level: int, kind: RiskFactorType)
    requires
        grid.well_formed(),
        0 <= column,
        FOLLOWING_RISK_LEVEL <= level <= HIGH_SCORE,
    ensures
        risk_in(grid, column, level, kind).len() <= 1,
        forall|i: int|
            0 <= i < risk_in(grid, column, level, kind).len() ==> risk_in_range(
                #[trigger] risk_in(grid, column, level, kind)[i],
            ),
{
    if column < grid.spec_width() {
        let scores = grid.spec_column(column);
        if mean_above(scores, level) {
            lemma_mean_reaches_level(scores, level);
            lemma_figures_in_range(scores);
            lemma_rates_in_range(scores, HIGH_SCORE as int);
            lemma_correlation_in_range(scores);
        }
    }
}

/// Scores that stay at one value above `HIGH_SCORE` in column 0, and at one
/// value not above `FOLLOWING_RISK_LEVEL` in column 1, give exactly one risk
/// factor: lane deviation, as severe as that value, at every time step, with
/// no temporal correlation.
pub proof fn lemma_steady_lane_risk(grid: OutputGrid, lane: i32, following: i32)
    requires
        grid.well_formed(),
        grid.spec_width() >= 2,
        constant_at(grid.spec_column(0), lane),
        constant_at(grid.spec_column(1), following),
        lane > HIGH_SCORE,
        following <= FOLLOWING_RISK_LEVEL,
    ensures
        detected_risks(grid) == seq![
            RiskFactor {
                factor_type: RiskFactorType::LaneDeviation,
                severity: lane as i64,
                frequency: 1_000_000,
                temporal_correlation: 0,
            },
        ],
{
    lemma_constant_series(grid.spec_column(0), lane, HIGH_SCORE as int);
    lemma_constant_series(grid.spec_column(1), following, FOLLOWING_RISK_LEVEL as int);
    lemma_constant_series_uncorrelated(grid.spec_column(0), lane);
    assert(detected_risks(grid) =~= seq![
        RiskFactor {
            factor_type: RiskFactorType::LaneDeviation,
            severity: lane as i64,
            frequency: 1_000_000,
            temporal_correlation: 0,
        },
    ]);
}

/// Adds to `found` the risk factor that column `column` gives rise to, if any.
fn note_risk(
    grid: &OutputGrid,
    column: usize,
    level: i32,
    kind: RiskFactorType,
    found: &mut Vec<RiskFactor>,
)
    ensures
        final(found)@ == old(found)@ + risk_in(*grid, column as int, level as int, kind),
{
    if column < grid.width() {
        let scores = grid.column(column);
        if mean_exceeds(&scores, level) {
            let factor = RiskFactor {
                factor_type: kind,
                severity: mean(&scores),
                frequency: fraction_above(&scores, HIGH_SCORE),
                temporal_correlation: correlation_with_next(&scores),
            };
            found.push(factor);
            assert(found@ =~= old(found)@ + risk_in(*grid, column as int, level as int, kind));
            return;
        }
    }
    assert(found@ =~= old(found)@ + risk_in(*grid, column as int, level as int, kind));
}

/// The risk factors that the scores of a sequence show.
pub fn analyze_risks(lstm_output: &OutputGrid) -> (risk_factors: Vec<RiskFactor>)
    ensures
        risk_factors@ == detected_risks(*lstm_output),
{
    let mut risk_factors: Vec<RiskFactor> = Vec::new();
    note_risk(lstm_output, 0, HIGH_SCORE, RiskFactorType::LaneDeviation, &mut risk_factors);
    note_risk(
        lstm_output,
        1,
        FOLLOWING_RISK_LEVEL,
        RiskFactorType::FollowingDistance,
        &mut risk_factors,
    );
    assert(risk_factors@ =~= detected_risks(*lstm_output));
    risk_factors
}

/// What a temporal pattern says, as mathematical values.
pub struct PatternView {
    pub pattern_type: Seq<char>,
    pub duration: int,
    pub frequency: int,
    pub risk_contribution: int,
}

impl View for TemporalPattern {
    type V = PatternView;

    open spec fn view(&self) -> PatternView {
        PatternView {
            pattern_type: self.pattern_type@,
            duration: self.duration as int,
            frequency: self.frequency as int,
            risk_contribution: self.risk_contribution as int,
        }
    }
}

/// What each of a sequence of temporal patterns says.
pub open spec fn pattern_views(patterns: Seq<TemporalPattern>) -> Seq<PatternView> {
    Seq::new(patterns.len(), |i: int| patterns[i]@)
}

/// The name of the behaviour that column `feature_idx` stands for.
pub open spec fn pattern_label(feature_idx: int) -> Seq<char> {
    if feature_idx == 0 {
        "Lane Discipline"@
    } else if feature_idx == 1 {
        "Following Distance"@
    } else if feature_idx == 2 {
        "Signal Compliance"@
    } else if feature_idx == 3 {
        "Merging Behavior"@
    } else if feature_idx == 4 {
        "Pedestrian Awareness"@
    } else {
        "General Driving"@
    }
}

/// The name of the behaviour that column `feature_idx` stands for.
pub fn get_pattern_type(feature_idx: usize) -> (label: String)
    ensures
        label@ == pattern_label(feature_idx as int),
{
    if feature_idx == 0 {
        String::from_str("Lane Discipline")
    } else if feature_idx == 1 {
        String::from_str("Following Distance")
    } else if feature_idx == 2 {
        String::from_str("Signal Compliance")
    } else if feature_idx == 3 {
        String::from_str("Merging Behavior")
    } else if feature_idx == 4 {
        String::from_str("Pedestrian Awareness")
    } else {
        String::from_str("General Driving")
    }
}

/// The weight of a steady behaviour: its mean times one plus its variance,
/// rounded down.
pub open spec fn risk_contribution(scores: Seq<i32>) -> int {
    series_mean(scores) * (1_000_000 + series_variance(scores)) / 1_000_000
}

/// The rises of `scores` above `HIGH_SCORE` per time step.
pub fn calculate_pattern_frequency(scores: &Vec<i32>) -> (frequency: Micro)
    requires
        0 < scores@.len() <= crate::series::MAX_SAMPLES,
    ensures
        frequency == edge_rate(scores@, HIGH_SCORE as int),
        0 <= frequency <= 1_000_000,
{
    crossing_rate(scores, HIGH_SCORE)
}

/// The weight of the behaviour whose scores are `scores`.
pub fn calculate_risk_contribution(scores: &Vec<i32>) -> (weight: Micro)
    requires
        0 < scores@.len() <= crate::series::MAX_SAMPLES,
    ensures
        weight == risk_contribution(scores@),
        series_mean(scores@) >= 0 ==> weight >= 0,
{
    let mean_score: i128 = mean(scores) as i128;
    let spread: i128 = variance(scores) as i128;
    proof {
        let m = mean_score as int;
        let v = spread as int;
        assert(-0x8000_0000 * 0x4000_000F_4240 <= m * (1_000_000 + v) <= 0x8000_0000
            * 0x4000_000F_4240) by (nonlinear_arith)
            requires
                -0x8000_0000 <= m <= 0x8000_0000,
                0 <= v <= 0x4000_0000_0000,
        ;
        assert(-0x8000_0000 * 0x4000_000F_4240 <= m * (1_000_000 + v) / 1_000_000 <= 0x8000_0000
            * 0x4000_000F_4240) by (nonlinear_arith)
            requires
                -0x8000_0000 * 0x4000_000F_4240 <= m * (1_000_000 + v) <= 0x8000_0000
                    * 0x4000_000F_4240,
        ;
        assert(m >= 0 ==> m * (1_000_000 + v) / 1_000_000 >= 0) by (nonlinear_arith)
            requires
                0 <= v,
        ;
    }
    let q: i128 = floor_div(mean_score * (1_000_000 + spread), 1_000_000);
    q as i64
}

/// Whether column `column` shows a temporal pattern: its exact variance is
/// below `STEADY_VARIANCE` and its exact mean is above `HIGH_SCORE`.
pub open spec fn shows_pattern(grid: OutputGrid, column: int) -> bool {
    &&& variance_below(grid.spec_column(column), STEADY_VARIANCE as int)
    &&& mean_above(grid.spec_column(column), HIGH_SCORE as int)
}

/// The pattern that column `column` shows: named after the column, lasting
/// the length of the sequence at `FRAMES_PER_SECOND`, as frequent as the
/// column rises above `HIGH_SCORE`, and weighted by `risk_contribution`.
pub open spec fn pattern_in(grid: OutputGrid, column: int) -> PatternView {
    PatternView {
        pattern_type: pattern_label(column),
        duration: grid.spec_steps() * 1_000_000 / 30,
        frequency: edge_rate(grid.spec_column(column), HIGH_SCORE as int),
        risk_contribution: risk_contribution(grid.spec_column(column)),
    }
}

/// The patterns that the columns before `limit` show, in the order of the
/// columns.
pub open spec fn patterns_before(grid: OutputGrid, limit: int) -> Seq<PatternView>
    decreases limit,
{
    if limit <= 0 {
        Seq::empty()
    } else if shows_pattern(grid, limit - 1) {
        patterns_before(grid, limit - 1).push(pattern_in(grid, limit - 1))
    } else {
        patterns_before(grid, limit - 1)
    }
}

/// The number of columns that are examined for patterns: the width of the
/// grid, but no more than `INPUT_SIZE`.
pub open spec fn examined_columns(grid: OutputGrid) -> int {
    if grid.spec_width() < INPUT_SIZE {
        grid.spec_width()
    } else {
        INPUT_SIZE as int
    }
}

/// The temporal patterns of a grid.
pub open spec fn detected_patterns(grid: OutputGrid) -> Seq<PatternView> {
    patterns_before(grid, examined_columns(grid))
}

/// The figures of a pattern are in their ranges: the duration and the risk
/// contribution are not negative, and the frequency lies between zero and one.
pub open spec fn pattern_in_range(pattern: PatternView) -> bool {
    &&& pattern.duration >= 0
    &&& 0 <= pattern.frequency <= 1_000_000
    &&& pattern.risk_contribution >= 0
}

/// Every pattern found in the columns before `limit` has its figures in their
/// ranges, and there are no more patterns than columns.
pub proof fn lemma_patterns_in_range(grid: OutputGrid, limit: int)
    requires
        grid.well_formed(),
        0 <= limit <= grid.spec_width(),
    ensures
        patterns_before(grid, limit).len() <= limit,
        forall|i: int|
            0 <= i < patterns_before(grid, limit).len() ==> pattern_in_range(
                #[trigger] patterns_before(grid, limit)[i],
            ),
    decreases limit,
{
    if limit > 0 {
        lemma_patterns_in_range(grid, limit - 1);
        let scores = grid.spec_column(limit - 1);
        if shows_pattern(grid, limit - 1) {
            lemma_mean_reaches_level(scores, HIGH_SCORE as int);
            lemma_figures_in_range(scores);
            lemma_rates_in_range(scores, HIGH_SCORE as int);
            let m = series_mean(scores);
            let v = series_variance(scores);
            let steps = grid.spec_steps();
            assert(m * (1_000_000 + v) / 1_000_000 >= 0) by (nonlinear_arith)
                requires
                    m >= 0,
                    v >= 0,
            ;
            assert(steps * 1_000_000 / 30 >= 0) by (nonlinear_arith)
                requires
                    steps >= 0,
            ;
            assert(pattern_in_range(pattern_in(grid, limit - 1)));
        }
    }
}

/// The temporal patterns that the scores of a sequence show.
pub fn detect_patterns(lstm_output: &OutputGrid) -> (patterns: Vec<TemporalPattern>)
    ensures
        pattern_views(patterns@) == detected_patterns(*lstm_output),
{
    let mut patterns: Vec<TemporalPattern> = Vec::new();
    let sequence_length: usize = lstm_output.steps();
    let width: usize = lstm_output.width();
    let limit: usize = if width < INPUT_SIZE {
        width
    } else {
        INPUT_SIZE
    };
    let mut feature_idx: usize = 0;
    assert(pattern_views(patterns@) =~= patterns_before(*lstm_output, 0));
    while feature_idx < limit
        invariant
            feature_idx <= limit,
            limit == examined_columns(*lstm_output),
            limit <= lstm_output.spec_width(),
            sequence_length == lstm_output.spec_steps(),
            0 < sequence_length <= crate::series::MAX_STEPS,
            pattern_views(patterns@) == patterns_before(*lstm_output, feature_idx as int),
        decreases limit - feature_idx,
    {
        let feature_scores = lstm_output.column(feature_idx);
        let ghost earlier = patterns@;
        if variance_under(&feature_scores, STEADY_VARIANCE) && mean_exceeds(
            &feature_scores,
            HIGH_SCORE,
        ) {
            let duration: i64 = (sequence_length as i64) * 1_000_000 / FRAMES_PER_SECOND;
            let pattern = TemporalPattern {
                pattern_type: get_pattern_type(feature_idx),
                duration,
                frequency: calculate_pattern_frequency(&feature_scores),
                risk_contribution: calculate_risk_contribution(&feature_scores),
            };
            patterns.push(pattern);
            assert(pattern_views(patterns@) =~= pattern_views(earlier).push(
                pattern_in(*lstm_output, feature_idx as int),
            ));
        }
        feature_idx = feature_idx + 1;
    }
    patterns
}

/// The mean size of the change of a score from one time step to the next,
/// over all columns.
pub open spec fn mean_movement(grid: OutputGrid) -> int {
    mean_step(grid.spec_cells(), grid.spec_width())
}

/// The behavioural metrics of a grid, each over all its cells: aggression is
/// the mean movement, attention is one minus the variance, consistency is
/// one minus the standard deviation, both kept within zero and one, and
/// anticipation is one minus the mean movement.
pub open spec fn metrics_of(grid: OutputGrid) -> BehavioralMetrics {
    BehavioralMetrics {
        aggression_index: mean_movement(grid) as i64,
        attention_score: clamped(1_000_000 - series_variance(grid.spec_cells()), 0, 1_000_000)
            as i64,
        consistency_rating: clamped(1_000_000 - series_deviation(grid.spec_cells()), 0, 1_000_000)
            as i64,
        anticipation_level: (1_000_000 - mean_movement(grid)) as i64,
    }
}

/// How abruptly the scores move: the mean movement.
pub fn calculate_aggression_index(output: &OutputGrid) -> (index: Micro)
    ensures
        index == mean_movement(*output),
        0 <= index <= 0xFFFF_FFFF,
{
    mean_change(output.cells(), output.width())
}

/// How little the scores vary: one minus their variance, within zero and one.
pub fn calculate_attention_score(output: &OutputGrid) -> (score: Micro)
    ensures
        score == clamped(1_000_000 - series_variance(output.spec_cells()), 0, 1_000_000),
        0 <= score <= 1_000_000,
{
    let spread: i128 = variance(output.cells()) as i128;
    let kept: i128 = clamp(1_000_000 - spread, 0, 1_000_000);
    kept as i64
}

/// How steady the scores are: one minus their standard deviation, within
/// zero and one.
pub fn calculate_consistency_rating(output: &OutputGrid) -> (rating: Micro)
    ensures
        rating == clamped(1_000_000 - series_deviation(output.spec_cells()), 0, 1_000_000),
        0 <= rating <= 1_000_000,
{
    let spread: i128 = deviation(output.cells()) as i128;
    let kept: i128 = clamp(1_000_000 - spread, 0, 1_000_000);
    kept as i64
}

/// How smoothly the scores move: one minus the mean movement.
pub fn calculate_anticipation_level(output: &OutputGrid) -> (level: Micro)
    ensures
        level == 1_000_000 - mean_movement(*output),
        level <= 1_000_000,
{
    1_000_000 - mean_change(output.cells(), output.width())
}

/// The behavioural metrics that the scores of a sequence show.
pub fn calculate_metrics(lstm_output: &OutputGrid) -> (metrics: BehavioralMetrics)
    ensures
        metrics == metrics_of(*lstm_output),
        0 <= metrics.attention_score <= 1_000_000,
        0 <= metrics.consistency_rating <= 1_000_000,
{
    BehavioralMetrics {
        aggression_index: calculate_aggression_index(lstm_output),
        attention_score: calculate_attention_score(lstm_output),
        consistency_rating: calculate_consistency_rating(lstm_output),
        anticipation_level: calculate_anticipation_level(lstm_output),
    }
}

/// The overall safety score of a grid: a hundred times the mean of all its
/// cells, rounded down and kept within zero and a hundred.
pub open spec fn safety_score(grid: OutputGrid) -> int {
    clamped(
        100 * series_sum(grid.spec_cells()) / (grid.spec_cells().len() as int),
        0,
        100_000_000,
    )
}

/// The overall safety score that the scores of a sequence give. It lies
/// between zero and a hundred whatever the scores are.
pub fn calculate_safety_score(lstm_output: &OutputGrid) -> (score: Micro)
    ensures
        score == safety_score(*lstm_output),
        0 <= score <= 100_000_000,
{
    let cells = lstm_output.cells();
    let m = moments(cells);
    proof {
        lemma_series_bounds(cells@);
    }
    let q: i128 = floor_div(100 * m.sum, m.count as i128);
    let kept: i128 = clamp(q, 0, 100_000_000);
    kept as i64
}

/// Whether `output` is what the engine derives from `grid`.
pub open spec fn derived_from(output: LSTMOutput, grid: OutputGrid) -> bool {
    &&& output.overall_safety_score == safety_score(grid)
    &&& output.risk_factors@ == detected_risks(grid)
    &&& pattern_views(output.temporal_patterns@) == detected_patterns(grid)
    &&& output.behavioral_metrics == metrics_of(grid)
}

/// The description of the failure on scores that do not have one row per frame.
pub open spec fn shape_error(error: AppError) -> bool {
    error matches AppError::ProcessingError(text) && text@
        == "model output does not match the frames"@
}

/// What the engine derives for a sequence of frames from the scores that the
/// sequence model gave for their features. The scores must have one row per
/// frame.
pub fn process_sequence(analyses: &Vec<FrameAnalysis>, lstm_out: &OutputGrid) -> (result: Result<
    LSTMOutput,
    AppError,
>)
    ensures
        analyses@.len() != lstm_out.spec_steps() ==> (result matches Err(error) && shape_error(
            error,
        )),
        analyses@.len() == lstm_out.spec_steps() ==> (result matches Ok(output) && derived_from(
            output,
            *lstm_out,
        ) && 0 <= output.overall_safety_score <= 100_000_000),
{
    if analyses.len() != lstm_out.steps() {
        return Err(
            AppError::ProcessingError(String::from_str("model output does not match the frames")),
        );
    }
    let risk_factors = analyze_risks(lstm_out);
    let temporal_patterns = detect_patterns(lstm_out);
    let behavioral_metrics = calculate_metrics(lstm_out);
    let overall_score = calculate_safety_score(lstm_out);
    Ok(
        LSTMOutput {
            overall_safety_score: overall_score,
            risk_factors,
            temporal_patterns,
            behavioral_metrics,
        },
    )
}

} // verus!
