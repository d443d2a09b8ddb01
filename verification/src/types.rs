//! The data model: per-frame assessments, the figures derived from them, the
//! report, and the state of an analysis.
//!
//! Numbers that are fractional by nature (scores, confidences, distances,
//! durations in seconds) are held as `Micro`, a count of millionths. Points in
//! time are whole seconds since the Unix epoch, and an analysis is identified by
//! a 128-bit number.

use crate::fixed::Micro;
use vstd::prelude::*;

verus! {

/// Where an analysis stands.
#[derive(Debug, Clone, PartialEq, Eq)]
pub enum AnalysisStatus {
    Queued,
    Processing { start_time: u64, frames_processed: u32, total_frames: u32 },
    Complete { analysis: DrivingAnalysis, completion_time: u64 },
    Failed { error: String, timestamp: u64 },
}

#[derive(Debug, Clone, PartialEq, Eq)]
pub struct AnalysisMetadata {
    pub id: u128,
    pub filename: String,
    pub upload_time: u64,
    pub video_duration: Micro,
    pub frame_count: u32,
    pub fps: Micro,
}

/// The report of a finished analysis.
#[derive(Debug, Clone, PartialEq, Eq)]
pub struct DrivingAnalysis {
    pub metadata: AnalysisMetadata,
    pub frame_analyses: Vec<FrameAnalysis>,
    pub lstm_output: LSTMOutput,
    pub summary: AnalysisSummary,
}

/// The assessment of one frame.
#[derive(Debug, Clone, PartialEq, Eq)]
pub struct FrameAnalysis {
    pub frame_number: u32,
    pub timestamp: Micro,
    pub lane_centering: LaneCentering,
    pub following_distance: FollowingDistance,
    pub signal_compliance: SignalCompliance,
    pub merging_lane_change: MergingLaneChange,
    pub pedestrian_yielding: PedestrianYielding,
    pub intersection_behavior: IntersectionBehavior,
    pub road_sign_awareness: RoadSignAwareness,
    pub shoulder_use: ShoulderUse,
}

#[derive(Debug, Clone, PartialEq, Eq)]
pub struct LaneCentering {
    pub following_lane_discipline: bool,
    pub deviation_from_center: Micro,
    pub score: Micro,
    pub confidence: Micro,
}

#[derive(Debug, Clone, PartialEq, Eq)]
pub struct FollowingDistance {
    pub safe_distance: SafetyStatus,
    pub distance_meters: Micro,
    pub time_to_collision: Micro,
    pub score: Micro,
    pub confidence: Micro,
}

#[derive(Debug, Clone, PartialEq, Eq)]
pub struct SignalCompliance {
    pub traffic_light: TrafficLightStatus,
    pub stop_sign: StopSignStatus,
    pub score: Micro,
    pub confidence: Micro,
}

#[derive(Debug, Clone, PartialEq, Eq)]
pub struct MergingLaneChange {
    pub safe_merging: bool,
    pub signal_used: bool,
    pub blind_spot_check: bool,
    pub speed_adjustment: Micro,
    pub score: Micro,
    pub confidence: Micro,
}

#[derive(Debug, Clone, PartialEq, Eq)]
pub struct PedestrianYielding {
    pub pedestrian_present: bool,
    pub proper_yielding: bool,
    pub distance_to_pedestrian: Option<Micro>,
    pub score: Micro,
    pub confidence: Micro,
}

#[derive(Debug, Clone, PartialEq, Eq)]
pub struct IntersectionBehavior {
    pub stop_line_observance: bool,
    pub complete_stop: bool,
    pub right_of_way_compliance: bool,
    pub score: Micro,
    pub confidence: Micro,
}

#[derive(Debug, Clone, PartialEq, Eq)]
pub struct RoadSignAwareness {
    pub speed_limit: SpeedLimitStatus,
    pub yield_sign: YieldSignStatus,
    pub other_signs: Vec<RoadSign>,
    pub score: Micro,
    pub confidence: Micro,
}

#[derive(Debug, Clone, PartialEq, Eq)]
pub struct ShoulderUse {
    pub using_shoulder: bool,
    pub emergency_situation: bool,
    pub score: Micro,
    pub confidence: Micro,
}

/// What the temporal risk engine derives from a sequence of frames.
#[derive(Debug, Clone, PartialEq, Eq)]
pub struct LSTMOutput {
    pub overall_safety_score: Micro,
    pub risk_factors: Vec<RiskFactor>,
    pub temporal_patterns: Vec<TemporalPattern>,
    pub behavioral_metrics: BehavioralMetrics,
}

#[derive(Debug, Clone, PartialEq, Eq)]
pub struct AnalysisSummary {
    pub overall_score: Micro,
    pub risk_level: RiskLevel,
    pub critical_events: Vec<CriticalEvent>,
    pub improvement_areas: Vec<ImprovementArea>,
    pub stats: DrivingStats,
}

#[derive(Debug, Clone, Copy, PartialEq, Eq)]
pub enum SafetyStatus {
    Safe,
    Marginal,
    Unsafe,
    Unknown,
}

#[derive(Debug, Clone, PartialEq, Eq)]
pub struct TrafficLightStatus {
    pub status: SignalColor,
    pub compliance: bool,
    pub distance: Micro,
    pub score: Micro,
}

#[derive(Debug, Clone, PartialEq, Eq)]
pub struct StopSignStatus {
    pub present: bool,
    pub compliance: Option<bool>,
    pub stop_duration: Option<Micro>,
}

#[derive(Debug, Clone, PartialEq, Eq)]
pub struct SpeedLimitStatus {
    pub visible: bool,
    pub limit: Option<u32>,
    pub current_speed: Option<Micro>,
    pub compliance: Option<bool>,
}

#[derive(Debug, Clone, PartialEq, Eq)]
pub struct YieldSignStatus {
    pub visible: bool,
    pub compliance: Option<bool>,
}

#[derive(Debug, Clone, PartialEq, Eq)]
pub struct RoadSign {
    pub sign_type: String,
    pub confidence: Micro,
    pub distance: Micro,
    pub compliance: Option<bool>,
}

/// A kind of elevated risk found in a sequence, with how severe, how frequent
/// and how persistent it is.
#[derive(Debug, Clone, PartialEq, Eq)]
pub struct RiskFactor {
    pub factor_type: RiskFactorType,
    pub severity: Micro,
    pub frequency: Micro,
    pub temporal_correlation: Micro,
}

/// A sustained behaviour found in a sequence.
#[derive(Debug, Clone, PartialEq, Eq)]
pub struct TemporalPattern {
    pub pattern_type: String,
    pub duration: Micro,
    pub frequency: Micro,
    pub risk_contribution: Micro,
}

#[derive(Debug, Clone, Copy, PartialEq, Eq)]
pub struct BehavioralMetrics {
    pub aggression_index: Micro,
    pub attention_score: Micro,
    pub consistency_rating: Micro,
    pub anticipation_level: Micro,
}

/// An event worth pointing out, with what is known of its circumstances: a
/// list of keys with their values, in which no key occurs twice.
#[derive(Debug, Clone, PartialEq, Eq)]
pub struct CriticalEvent {
    pub event_type: String,
    pub timestamp: Micro,
    pub severity: Micro,
    pub context: Vec<(String, String)>,
}

/// No key occurs twice among `entries`.
pub open spec fn keys_distinct(entries: Seq<(String, String)>) -> bool {
    forall|i: int, j: int| 0 <= i < j < entries.len() ==> entries[i].0@ != entries[j].0@
}

/// The place of the first entry at or after `from` whose key is `key`; the
/// length where there is none.
pub open spec fn key_place(entries: Seq<(String, String)>, key: Seq<char>, from: int) -> int
    decreases entries.len() - from,
{
    if 0 <= from < entries.len() && entries[from].0@ != key {
        key_place(entries, key, from + 1)
    } else {
        from
    }
}

/// `entries` with `value` under `key`: in the place of the entry that had the
/// key, or at the end where none had it.
pub open spec fn with_entry(entries: Seq<(String, String)>, key: String, value: String) -> Seq<
    (String, String),
> {
    if key_place(entries, key@, 0) < entries.len() {
        entries.update(key_place(entries, key@, 0), (key, value))
    } else {
        entries.push((key, value))
    }
}

/// The place that `key_place` gives lies between `from` and the length, no
/// entry between `from` and it has the key, and the entry at it, if there is
/// one, has the key.
pub proof fn lemma_key_place(entries: Seq<(String, String)>, key: Seq<char>, from: int)
    requires
        0 <= from <= entries.len(),
    ensures
        from <= key_place(entries, key, from) <= entries.len(),
        forall|k: int| from <= k < key_place(entries, key, from) ==> entries[k].0@ != key,
        key_place(entries, key, from) < entries.len() ==> entries[key_place(
            entries,
            key,
            from,
        )].0@ == key,
    decreases entries.len() - from,
{
    if from < entries.len() && entries[from].0@ != key {
        lemma_key_place(entries, key, from + 1);
    }
}

/// Putting a value under a key leaves the keys distinct.
pub proof fn lemma_with_entry_distinct(entries: Seq<(String, String)>, key: String, value: String)
    requires
        keys_distinct(entries),
    ensures
        keys_distinct(with_entry(entries, key, value)),
{
    lemma_key_place(entries, key@, 0);
    let place = key_place(entries, key@, 0);
    let after = with_entry(entries, key, value);
    assert forall|i: int, j: int| 0 <= i < j < after.len() implies after[i].0@ != after[j].0@ by {
        if place < entries.len() {
            assert(after[i].0@ == entries[i].0@);
            assert(after[j].0@ == entries[j].0@);
        } else if j == entries.len() {
            assert(after[i].0@ == entries[i].0@);
        } else {
            assert(after[i] == entries[i] && after[j] == entries[j]);
        }
    }
}

impl CriticalEvent {
    /// What holds of an event that was made with an empty context and filled
    /// by `set_context`: no key occurs twice in its context.
    pub open spec fn well_formed(self) -> bool {
        keys_distinct(self.context@)
    }

    /// Whether no key occurs twice in the context.
    pub fn has_distinct_keys(&self) -> (distinct: bool)
        ensures
            distinct == self.well_formed(),
    {
        let mut j: usize = 0;
        while j < self.context.len()
            invariant
                j <= self.context.len(),
                forall|a: int, b: int| 0 <= a < b < j ==> self.context@[a].0@ != self.context@[b].0@,
            decreases self.context.len() - j,
        {
            let mut i: usize = 0;
            while i < j
                invariant
                    i <= j < self.context.len(),
                    forall|a: int| 0 <= a < i ==> self.context@[a].0@ != self.context@[j as int].0@,
                decreases j - i,
            {
                if self.context[i].0 == self.context[j].0 {
                    return false;
                }
                i = i + 1;
            }
            j = j + 1;
        }
        true
    }

    /// Puts `value` under `key` in the context, in the place of the value that
    /// the key had, if it had one.
    pub fn set_context(&mut self, key: String, value: String)
        requires
            old(self).well_formed(),
        ensures
            final(self).well_formed(),
            final(self).context@ == with_entry(old(self).context@, key, value),
            final(self).event_type == old(self).event_type,
            final(self).timestamp == old(self).timestamp,
            final(self).severity == old(self).severity,
    {
        let mut place: usize = 0;
        while place < self.context.len() && !(self.context[place].0 == key)
            invariant
                place <= self.context.len(),
                self.context@ == old(self).context@,
                key_place(self.context@, key@, 0) == key_place(self.context@, key@, place as int),
            decreases self.context.len() - place,
        {
            place = place + 1;
        }
        proof {
            lemma_with_entry_distinct(self.context@, key, value);
        }
        if place < self.context.len() {
            self.context.set(place, (key, value));
        } else {
            self.context.push((key, value));
        }
    }
}

#[derive(Debug, Clone, PartialEq, Eq)]
pub struct ImprovementArea {
    pub area: String,
    pub current_score: Micro,
    pub target_score: Micro,
    pub suggestions: Vec<String>,
}

#[derive(Debug, Clone, PartialEq, Eq)]
pub struct DrivingStats {
    pub total_duration: Micro,
    pub distance_covered: Micro,
    pub average_speed: Micro,
    pub max_speed: Micro,
    pub harsh_braking_count: u32,
    pub rapid_acceleration_count: u32,
    pub traffic_light_encounters: u32,
    pub stop_sign_encounters: u32,
    pub lane_changes: u32,
}

#[derive(Debug, Clone, Copy, PartialEq, Eq)]
pub enum SignalColor {
    Red,
    Yellow,
    Green,
    Unknown,
}

#[derive(Debug, Clone, Copy, PartialEq, Eq)]
pub enum RiskLevel {
    Low,
    Medium,
    High,
    Critical,
}

#[derive(Debug, Clone, PartialEq, Eq)]
pub enum RiskFactorType {
    FollowingDistance,
    SpeedControl,
    LaneDeviation,
    SignalCompliance,
    PedestrianAwareness,
    IntersectionBehavior,
    MergingTechnique,
    Other(String),
}

} // verus!
