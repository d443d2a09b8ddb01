//! The life of an analysis: which states are valid and which state may follow
//! which.
//!
//! An analysis is queued or processing until it is complete or has failed.
//! Complete and failed are final: nothing follows them. While an analysis is
//! processing, the count of processed frames never falls and never exceeds the
//! total.

use crate::frames::{is_strictly_ordered, strictly_ordered};
use crate::types::AnalysisStatus;
use vstd::prelude::*;

verus! {

impl AnalysisStatus {
    /// Whether the state is final: complete or failed.
    pub open spec fn is_terminal(self) -> bool {
        self is Complete || self is Failed
    }

    /// How far the analysis has come: 0 queued, 1 processing, 2 at its end.
    pub open spec fn stage(self) -> int {
        match self {
            AnalysisStatus::Queued => 0,
            AnalysisStatus::Processing { .. } => 1,
            _ => 2,
        }
    }

    /// Whether the state is one that an analysis can be in: while processing,
    /// no more frames are processed than there are; a report holds at least one
    /// frame, and its frames are strictly ordered by frame number.
    pub open spec fn well_formed(self) -> bool {
        match self {
            AnalysisStatus::Processing { frames_processed, total_frames, .. } => frames_processed
                <= total_frames,
            AnalysisStatus::Complete { analysis, .. } => {
                &&& analysis.frame_analyses@.len() > 0
                &&& strictly_ordered(analysis.frame_analyses@)
            },
            _ => true,
        }
    }

    /// Whether `next` may follow this state: nothing follows a final state,
    /// nothing returns to the queue, and processing is followed by processing
    /// only with the same start time and no fewer processed frames.
    pub open spec fn may_become(self, next: AnalysisStatus) -> bool {
        &&& !self.is_terminal()
        &&& !(next is Queued)
        &&& (self matches AnalysisStatus::Processing { start_time, frames_processed, .. } ==> (
        next matches AnalysisStatus::Processing {
            start_time: next_start,
            frames_processed: next_processed,
            ..
        } ==> next_start == start_time && next_processed >= frames_processed))
    }

    /// Whether the state is final.
    pub fn terminal(&self) -> (r: bool)
        ensures
            r == self.is_terminal(),
    {
        match self {
            AnalysisStatus::Complete { .. } => true,
            AnalysisStatus::Failed { .. } => true,
            _ => false,
        }
    }

    /// Whether the state is one that an analysis can be in.
    pub fn is_well_formed(&self) -> (r: bool)
        ensures
            r == self.well_formed(),
    {
        match self {
            AnalysisStatus::Processing { frames_processed, total_frames, .. } => *frames_processed
                <= *total_frames,
            AnalysisStatus::Complete { analysis, .. } => analysis.frame_analyses.len() > 0
                && is_strictly_ordered(&analysis.frame_analyses),
            _ => true,
        }
    }

    /// Whether `next` may follow this state.
    pub fn can_become(&self, next: &AnalysisStatus) -> (r: bool)
        ensures
            r == self.may_become(*next),
    {
        match self {
            AnalysisStatus::Queued => match next {
                AnalysisStatus::Queued => false,
                _ => true,
            },
            AnalysisStatus::Processing { start_time, frames_processed, .. } => match next {
                AnalysisStatus::Queued => false,
                AnalysisStatus::Processing {
                    start_time: next_start,
                    frames_processed: next_processed,
                    ..
                } => *next_start == *start_time && *next_processed >= *frames_processed,
                _ => true,
            },
            _ => false,
        }
    }
}

/// A change of state never goes back: the state that follows is at the same
/// stage or a later one, and it follows a state that is not final.
pub proof fn lemma_transitions_one_way(before: AnalysisStatus, after: AnalysisStatus)
    requires
        before.may_become(after),
    ensures
        !before.is_terminal(),
        before.stage() <= after.stage(),
        after.stage() >= 1,
{
}

/// No state follows a final state.
pub proof fn lemma_terminal_is_final(state: AnalysisStatus, next: AnalysisStatus)
    requires
        state.is_terminal(),
    ensures
        !state.may_become(next),
{
}

/// From one valid processing state to the next, the count of processed frames
/// does not fall and does not exceed the total.
pub proof fn lemma_progress_monotonic(before: AnalysisStatus, after: AnalysisStatus)
    requires
        before.may_become(after),
        after.well_formed(),
        before is Processing,
        after is Processing,
    ensures
        before->frames_processed <= after->frames_processed <= after->total_frames,
{
}

} // verus!
