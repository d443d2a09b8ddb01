use vglnt::api::{get_analysis_result, AnalysisResult};
use vglnt::error::AppError;
use vglnt::store::JobStore;
use vglnt::types::{
    AnalysisMetadata, AnalysisStatus, AnalysisSummary, BehavioralMetrics, CriticalEvent,
    DrivingAnalysis,
    DrivingStats, FollowingDistance, FrameAnalysis, IntersectionBehavior, LSTMOutput,
    LaneCentering, MergingLaneChange, PedestrianYielding, RiskLevel, RoadSignAwareness,
    SafetyStatus, ShoulderUse, SignalColor, SignalCompliance, SpeedLimitStatus, StopSignStatus,
    TrafficLightStatus, YieldSignStatus,
};

fn numbered_frame(frame_number: u32) -> FrameAnalysis {
    FrameAnalysis {
        frame_number,
        timestamp: 0,
        lane_centering: LaneCentering {
            following_lane_discipline: true,
            deviation_from_center: 0,
            score: 0,
            confidence: 0,
        },
        following_distance: FollowingDistance {
            safe_distance: SafetyStatus::Safe,
            distance_meters: 0,
            time_to_collision: 0,
            score: 0,
            confidence: 0,
        },
        signal_compliance: SignalCompliance {
            traffic_light: TrafficLightStatus {
                status: SignalColor::Unknown,
                compliance: true,
                distance: 0,
                score: 0,
            },
            stop_sign: StopSignStatus { present: false, compliance: None, stop_duration: None },
            score: 0,
            confidence: 0,
        },
        merging_lane_change: MergingLaneChange {
            safe_merging: true,
            signal_used: true,
            blind_spot_check: true,
            speed_adjustment: 0,
            score: 0,
            confidence: 0,
        },
        pedestrian_yielding: PedestrianYielding {
            pedestrian_present: false,
            proper_yielding: false,
            distance_to_pedestrian: None,
            score: 0,
            confidence: 0,
        },
        intersection_behavior: IntersectionBehavior {
            stop_line_observance: true,
            complete_stop: true,
            right_of_way_compliance: true,
            score: 0,
            confidence: 0,
        },
        road_sign_awareness: RoadSignAwareness {
            speed_limit: SpeedLimitStatus {
                visible: false,
                limit: None,
                current_speed: None,
                compliance: None,
            },
            yield_sign: YieldSignStatus { visible: false, compliance: None },
            other_signs: Vec::new(),
            score: 0,
            confidence: 0,
        },
        shoulder_use: ShoulderUse {
            using_shoulder: false,
            emergency_situation: false,
            score: 0,
            confidence: 0,
        },
    }
}

fn report_with(numbers: &[u32]) -> DrivingAnalysis {
    DrivingAnalysis {
        metadata: AnalysisMetadata {
            id: 1,
            filename: "drive.mp4".to_string(),
            upload_time: 10,
            video_duration: 2_000_000,
            frame_count: numbers.len() as u32,
            fps: 30_000_000,
        },
        frame_analyses: numbers.iter().map(|number| numbered_frame(*number)).collect(),
        lstm_output: LSTMOutput {
            overall_safety_score: 50_000_000,
            risk_factors: Vec::new(),
            temporal_patterns: Vec::new(),
            behavioral_metrics: BehavioralMetrics {
                aggression_index: 0,
                attention_score: 0,
                consistency_rating: 0,
                anticipation_level: 0,
            },
        },
        summary: AnalysisSummary {
            overall_score: 50_000_000,
            risk_level: RiskLevel::Low,
            critical_events: Vec::new(),
            improvement_areas: Vec::new(),
            stats: DrivingStats {
                total_duration: 0,
                distance_covered: 0,
                average_speed: 0,
                max_speed: 0,
                harsh_braking_count: 0,
                rapid_acceleration_count: 0,
                traffic_light_encounters: 0,
                stop_sign_encounters: 0,
                lane_changes: 0,
            },
        },
    }
}

fn processing(start_time: u64, frames_processed: u32, total_frames: u32) -> AnalysisStatus {
    AnalysisStatus::Processing { start_time, frames_processed, total_frames }
}

fn failed(error: &str) -> AnalysisStatus {
    AnalysisStatus::Failed { error: error.to_string(), timestamp: 99 }
}

fn not_found() -> AppError {
    AppError::NotFound("Analysis not found".to_string())
}

#[test]
fn new_store_is_empty() {
    let store = JobStore::new();
    assert_eq!(store.list(), Vec::new());
    assert_eq!(store.get(7), Err(not_found()));
}

#[test]
fn created_analysis_is_found_processing_at_once() {
    let mut store = JobStore::new();
    assert_eq!(store.create(7, 1000, 12), Ok(()));
    assert_eq!(store.get(7), Ok(processing(1000, 0, 12)));
}

#[test]
fn taken_identifier_is_refused() {
    let mut store = JobStore::new();
    store.create(7, 1000, 12).unwrap();
    store.update(7, processing(1000, 3, 12)).unwrap();
    assert_eq!(
        store.create(7, 2000, 5),
        Err(AppError::Internal("Analysis already exists".to_string()))
    );
    assert_eq!(store.get(7), Ok(processing(1000, 3, 12)));
}

#[test]
fn update_replaces_the_state() {
    let mut store = JobStore::new();
    store.create(1, 5, 4).unwrap();
    assert_eq!(store.update(1, processing(5, 2, 4)), Ok(()));
    assert_eq!(store.get(1), Ok(processing(5, 2, 4)));
    assert_eq!(store.update(1, failed("decode error")), Ok(()));
    assert_eq!(store.get(1), Ok(failed("decode error")));
}

#[test]
fn update_of_an_unknown_analysis_is_not_found() {
    let mut store = JobStore::new();
    assert_eq!(store.update(1, processing(5, 2, 4)), Err(not_found()));
    assert_eq!(store.list().len(), 0);
}

#[test]
fn terminal_states_are_never_left() {
    let mut store = JobStore::new();
    store.create(1, 5, 4).unwrap();
    store.create(2, 5, 4).unwrap();
    store.update(1, failed("no frames analyzed")).unwrap();
    let complete =
        AnalysisStatus::Complete { analysis: report_with(&[1, 2]), completion_time: 50 };
    store.update(2, complete.clone()).unwrap();
    let refused = Err(AppError::Internal("State change not allowed".to_string()));
    assert_eq!(store.update(1, processing(5, 1, 4)), refused);
    assert_eq!(store.update(1, complete.clone()), refused);
    assert_eq!(store.update(1, failed("again")), refused);
    assert_eq!(store.update(1, AnalysisStatus::Queued), refused);
    assert_eq!(store.update(2, processing(5, 4, 4)), refused);
    assert_eq!(store.update(2, failed("late")), refused);
    assert_eq!(store.update(2, complete.clone()), refused);
    assert!(store.create(1, 6, 4).is_err());
    assert_eq!(store.get(1), Ok(failed("no frames analyzed")));
    assert_eq!(store.get(2), Ok(complete));
}

#[test]
fn progress_never_falls_and_never_exceeds_the_total() {
    let mut store = JobStore::new();
    store.create(1, 5, 4).unwrap();
    store.update(1, processing(5, 3, 4)).unwrap();
    assert_eq!(
        store.update(1, processing(5, 2, 4)),
        Err(AppError::Internal("State change not allowed".to_string()))
    );
    assert_eq!(
        store.update(1, processing(5, 5, 4)),
        Err(AppError::Internal("Malformed analysis state".to_string()))
    );
    assert_eq!(
        store.update(1, processing(6, 4, 4)),
        Err(AppError::Internal("State change not allowed".to_string()))
    );
    assert_eq!(store.get(1), Ok(processing(5, 3, 4)));
    assert_eq!(store.update(1, processing(5, 3, 4)), Ok(()));
    assert_eq!(store.update(1, processing(5, 4, 4)), Ok(()));
    assert_eq!(store.update(1, processing(5, 4, 9)), Ok(()));
    assert_eq!(store.get(1), Ok(processing(5, 4, 9)));
}

#[test]
fn nothing_returns_to_the_queue() {
    let mut store = JobStore::new();
    store.create(1, 5, 4).unwrap();
    assert_eq!(
        store.update(1, AnalysisStatus::Queued),
        Err(AppError::Internal("State change not allowed".to_string()))
    );
    assert_eq!(store.get(1), Ok(processing(5, 0, 4)));
}

#[test]
fn report_out_of_order_is_refused() {
    let mut store = JobStore::new();
    store.create(1, 5, 4).unwrap();
    let malformed = Err(AppError::Internal("Malformed analysis state".to_string()));
    let unordered =
        AnalysisStatus::Complete { analysis: report_with(&[2, 1]), completion_time: 50 };
    assert_eq!(store.update(1, unordered), malformed);
    let repeated =
        AnalysisStatus::Complete { analysis: report_with(&[1, 1]), completion_time: 50 };
    assert_eq!(store.update(1, repeated), malformed);
    let empty = AnalysisStatus::Complete { analysis: report_with(&[]), completion_time: 50 };
    assert_eq!(store.update(1, empty), malformed);
    let gaps = AnalysisStatus::Complete { analysis: report_with(&[1, 4, 9]), completion_time: 50 };
    assert_eq!(store.update(1, gaps.clone()), Ok(()));
    assert_eq!(store.get(1), Ok(gaps));
}

#[test]
fn deleted_analysis_is_not_found() {
    let mut store = JobStore::new();
    store.create(1, 5, 4).unwrap();
    store.create(2, 6, 4).unwrap();
    assert_eq!(store.delete(1), Ok(()));
    assert_eq!(store.get(1), Err(not_found()));
    assert_eq!(store.get(2), Ok(processing(6, 0, 4)));
    assert_eq!(store.delete(1), Err(not_found()));
    assert_eq!(store.update(1, processing(5, 1, 4)), Err(not_found()));
}

#[test]
fn deleted_identifier_can_be_created_again() {
    let mut store = JobStore::new();
    store.create(1, 5, 4).unwrap();
    store.update(1, failed("decode error")).unwrap();
    store.delete(1).unwrap();
    assert_eq!(store.create(1, 8, 2), Ok(()));
    assert_eq!(store.get(1), Ok(processing(8, 0, 2)));
}

#[test]
fn list_names_every_analysis_once_with_its_state() {
    let mut store = JobStore::new();
    for id in 0..20u128 {
        store.create(id, id as u64, 10).unwrap();
    }
    store.update(3, processing(3, 7, 10)).unwrap();
    store.update(4, failed("decode error")).unwrap();
    store.delete(5).unwrap();
    store.delete(19).unwrap();
    let mut listing = store.list();
    assert_eq!(listing.len(), 18);
    listing.sort_by_key(|entry| entry.0);
    let ids: Vec<u128> = listing.iter().map(|entry| entry.0).collect();
    let expected: Vec<u128> = (0..19u128).filter(|id| *id != 5).collect();
    assert_eq!(ids, expected);
    for (id, status) in listing {
        assert_eq!(store.get(id), Ok(status.clone()));
        if id == 3 {
            assert_eq!(status, processing(3, 7, 10));
        } else if id == 4 {
            assert_eq!(status, failed("decode error"));
        } else {
            assert_eq!(status, processing(id as u64, 0, 10));
        }
    }
}

#[test]
fn identifiers_span_the_whole_range() {
    let mut store = JobStore::new();
    store.create(0, 1, 1).unwrap();
    store.create(u128::MAX, 2, 1).unwrap();
    assert_eq!(store.get(u128::MAX), Ok(processing(2, 0, 1)));
    assert_eq!(store.get(0), Ok(processing(1, 0, 1)));
    assert_eq!(store.list().len(), 2);
}

#[test]
fn states_know_whether_they_are_final_and_valid() {
    assert!(!AnalysisStatus::Queued.terminal());
    assert!(!processing(1, 0, 0).terminal());
    assert!(failed("x").terminal());
    assert!(AnalysisStatus::Complete { analysis: report_with(&[1]), completion_time: 2 }.terminal());
    assert!(AnalysisStatus::Queued.is_well_formed());
    assert!(processing(1, 4, 4).is_well_formed());
    assert!(!processing(1, 5, 4).is_well_formed());
    assert!(failed("").is_well_formed());
    assert!(AnalysisStatus::Queued.can_become(&processing(1, 0, 0)));
    assert!(AnalysisStatus::Queued.can_become(&failed("x")));
    assert!(!AnalysisStatus::Queued.can_become(&AnalysisStatus::Queued));
    assert!(processing(1, 1, 4).can_become(&processing(1, 1, 4)));
    assert!(!processing(1, 1, 4).can_become(&processing(1, 0, 4)));
    assert!(!processing(1, 1, 4).can_become(&processing(2, 1, 4)));
    assert!(processing(1, 1, 4).can_become(&failed("x")));
    assert!(!failed("x").can_become(&failed("x")));
}

#[test]
fn result_of_an_unknown_analysis_is_not_found() {
    let store = JobStore::new();
    assert_eq!(get_analysis_result(&store, 1), Err(not_found()));
}

#[test]
fn result_of_a_running_analysis_says_processing() {
    let mut store = JobStore::new();
    store.create(1, 5, 4).unwrap();
    assert_eq!(get_analysis_result(&store, 1), Ok(AnalysisResult::Processing));
}

#[test]
fn result_of_a_complete_analysis_is_its_report() {
    let mut store = JobStore::new();
    store.create(1, 5, 4).unwrap();
    let report = report_with(&[1, 2, 3]);
    store
        .update(1, AnalysisStatus::Complete { analysis: report.clone(), completion_time: 9 })
        .unwrap();
    assert_eq!(get_analysis_result(&store, 1), Ok(AnalysisResult::Report(report)));
}

#[test]
fn result_of_a_failed_analysis_is_a_processing_error() {
    let mut store = JobStore::new();
    store.create(1, 5, 4).unwrap();
    store.update(1, failed("no frames analyzed")).unwrap();
    let reply = get_analysis_result(&store, 1);
    assert_eq!(reply, Err(AppError::ProcessingError("no frames analyzed".to_string())));
    assert_eq!(reply.unwrap_err().status_code(), 500);
}

#[test]
fn errors_map_to_status_codes() {
    assert_eq!(AppError::InvalidInput("a".to_string()).status_code(), 400);
    assert_eq!(AppError::NotFound("a".to_string()).status_code(), 404);
    assert_eq!(AppError::ProcessingError("a".to_string()).status_code(), 500);
    assert_eq!(AppError::Internal("a".to_string()).status_code(), 500);
}

#[test]
fn errors_are_put_in_words() {
    assert_eq!(AppError::InvalidInput("bad form".to_string()).message(), "Invalid input: bad form");
    assert_eq!(
        AppError::ProcessingError("decode error".to_string()).message(),
        "Processing error: decode error"
    );
    assert_eq!(AppError::Internal("disk".to_string()).message(), "Internal error: disk");
    assert_eq!(
        AppError::NotFound("Analysis not found".to_string()).message(),
        "Not found: Analysis not found"
    );
    assert_eq!(AppError::NotFound(String::new()).message(), "Not found: ");
}

fn event_with(context: &[(&str, &str)]) -> CriticalEvent {
    CriticalEvent {
        event_type: "harsh braking".to_string(),
        timestamp: 1_500_000,
        severity: 800_000,
        context: context.iter().map(|(k, v)| (k.to_string(), v.to_string())).collect(),
    }
}

#[test]
fn context_keys_are_checked_for_repeats() {
    assert!(event_with(&[]).has_distinct_keys());
    assert!(event_with(&[("road", "wet")]).has_distinct_keys());
    assert!(event_with(&[("road", "wet"), ("light", "dusk"), ("lane", "wet")]).has_distinct_keys());
    assert!(!event_with(&[("road", "wet"), ("road", "dry")]).has_distinct_keys());
    assert!(!event_with(&[("a", "1"), ("b", "2"), ("a", "1")]).has_distinct_keys());
    assert!(!event_with(&[("b", "1"), ("a", "2"), ("a", "3")]).has_distinct_keys());
}

#[test]
fn context_holds_one_value_under_each_key() {
    let mut event = event_with(&[]);
    event.set_context("road".to_string(), "wet".to_string());
    event.set_context("light".to_string(), "dusk".to_string());
    assert_eq!(event, event_with(&[("road", "wet"), ("light", "dusk")]));
    event.set_context("road".to_string(), "dry".to_string());
    assert_eq!(event, event_with(&[("road", "dry"), ("light", "dusk")]));
    event.set_context("light".to_string(), "dusk".to_string());
    event.set_context("".to_string(), "".to_string());
    assert_eq!(event, event_with(&[("road", "dry"), ("light", "dusk"), ("", "")]));
    assert!(event.has_distinct_keys());
}
