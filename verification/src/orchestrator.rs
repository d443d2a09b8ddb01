//! The course of one analysis, from submission to its final state.
//!
//! The work that takes time (decoding the video, assessing each frame, running
//! the sequence model) is done by the caller. What is decided here is what each
//! outcome of that work means: how far the analysis has come, which assessed
//! frames count and in what order, and in which state the analysis ends.

use crate::error::AppError;
use crate::frames::{holds_number, insert_frame, strictly_ordered, with_frame};
use crate::store::{
    accepts, created, is_not_found, is_refused, is_taken, lookup, update_answer, updated, JobStore,
};
use crate::types::{
    AnalysisMetadata, AnalysisStatus, AnalysisSummary, DrivingAnalysis, FrameAnalysis, LSTMOutput,
};
use uuid::Uuid;
use vstd::prelude::*;

verus! {

/// The bits of an identifier that say how it was made.
pub const ID_KIND_BITS: u128 = 0x0000_0000_0000_F000_C000_0000_0000_0000;

/// What those bits hold in an identifier that was drawn at random.
pub const ID_RANDOM_KIND: u128 = 0x0000_0000_0000_4000_8000_0000_0000_0000;

/// `Uuid::new_v4`, as a number by `Uuid::as_u128`: an identifier drawn at
/// random. All that is known of it is that it is marked as a random one. The
/// call panics where the operating system can give no random numbers.
#[verifier::external_body]
fn random_id() -> (id: u128)
    ensures
        id & ID_KIND_BITS == ID_RANDOM_KIND,
{
    Uuid::new_v4().as_u128()
}

/// What the task that works on one analysis keeps: the progress made and the
/// frames assessed so far, in the order of their frame numbers.
#[derive(Debug)]
pub struct Pipeline {
    id: u128,
    start_time: u64,
    total_frames: u32,
    frames_processed: u32,
    frames: Vec<FrameAnalysis>,
}

/// The count of processed frames after one more has come back: one more than
/// before, but never more than the total.
pub open spec fn advanced(processed: u32, total: u32) -> u32 {
    if processed < total {
        (processed + 1) as u32
    } else {
        processed
    }
}

/// The frames that are kept after the analysis of one frame has come back:
/// a frame that was assessed is put at its place, unless all expected frames
/// had come back before; a frame whose analysis failed leaves no trace.
pub open spec fn collected(
    frames: Seq<FrameAnalysis>,
    outcome: Option<FrameAnalysis>,
    processed: u32,
    total: u32,
) -> Seq<FrameAnalysis> {
    match outcome {
        Some(frame) => if processed < total {
            with_frame(frames, frame)
        } else {
            frames
        },
        None => frames,
    }
}

/// The state in which an analysis ends at the time `now`: failed where no
/// frame was assessed or where the engine failed, complete with the engine's
/// output otherwise.
pub open spec fn is_conclusion(
    state: AnalysisStatus,
    frames: Seq<FrameAnalysis>,
    outcome: Result<LSTMOutput, AppError>,
    metadata: AnalysisMetadata,
    summary: AnalysisSummary,
    now: u64,
) -> bool {
    if frames.len() == 0 {
        state matches AnalysisStatus::Failed { error, timestamp } && error@
            == "no frames analyzed"@ && timestamp == now
    } else {
        match outcome {
            Err(failure) => state matches AnalysisStatus::Failed { error, timestamp } && error@
                == failure.heading() + failure.detail() && timestamp == now,
            Ok(output) => state matches AnalysisStatus::Complete { analysis, completion_time }
                && analysis.metadata == metadata && analysis.frame_analyses@ == frames
                && analysis.lstm_output == output && analysis.summary == summary
                && completion_time == now,
        }
    }
}

/// The state of an analysis whose video could not be decoded.
pub open spec fn is_decode_failure(state: AnalysisStatus, now: u64) -> bool {
    state matches AnalysisStatus::Failed { error, timestamp } && error@ == "decode error"@
        && timestamp == now
}

/// Whether `pipeline` is that of the analysis `id`, started at `start_time` on
/// a video of `total_frames` frames, of which none has come back yet.
pub open spec fn starts(pipeline: Pipeline, id: u128, start_time: u64, total_frames: u32) -> bool {
    &&& pipeline.well_formed()
    &&& pipeline.spec_id() == id
    &&& pipeline.spec_start_time() == start_time
    &&& pipeline.spec_total_frames() == total_frames
    &&& pipeline.spec_frames_processed() == 0
    &&& pipeline.spec_frames() == Seq::<FrameAnalysis>::empty()
}

impl Pipeline {
    /// The identifier of the analysis.
    pub closed spec fn spec_id(self) -> u128 {
        self.id
    }

    /// When the analysis started.
    pub closed spec fn spec_start_time(self) -> u64 {
        self.start_time
    }

    /// The number of frames that the video holds.
    pub closed spec fn spec_total_frames(self) -> u32 {
        self.total_frames
    }

    /// The number of frames whose analysis has come back.
    pub closed spec fn spec_frames_processed(self) -> u32 {
        self.frames_processed
    }

    /// The frames assessed so far.
    pub closed spec fn spec_frames(self) -> Seq<FrameAnalysis> {
        self.frames@
    }

    /// What holds of every pipeline: no more frames have come back than there
    /// are, no more are kept than have come back, and the frames kept are
    /// strictly ordered by frame number.
    pub open spec fn well_formed(self) -> bool {
        &&& self.spec_frames_processed() <= self.spec_total_frames()
        &&& self.spec_frames().len() <= self.spec_frames_processed()
        &&& strictly_ordered(self.spec_frames())
    }

    /// The state that the pipeline stands for while it runs.
    pub open spec fn spec_status(self) -> AnalysisStatus {
        AnalysisStatus::Processing {
            start_time: self.spec_start_time(),
            frames_processed: self.spec_frames_processed(),
            total_frames: self.spec_total_frames(),
        }
    }

    /// The pipeline of an analysis that starts at `start_time` on a video of
    /// `total_frames` frames.
    pub fn begin(id: u128, start_time: u64, total_frames: u32) -> (pipeline: Pipeline)
        ensures
            starts(pipeline, id, start_time, total_frames),
    {
        Pipeline { id, start_time, total_frames, frames_processed: 0, frames: Vec::new() }
    }

    /// The identifier of the analysis.
    pub fn id(&self) -> (id: u128)
        ensures
            id == self.spec_id(),
    {
        self.id
    }

    /// The state that the pipeline stands for while it runs.
    pub fn status(&self) -> (state: AnalysisStatus)
        requires
            self.well_formed(),
        ensures
            state == self.spec_status(),
            state.well_formed(),
    {
        AnalysisStatus::Processing {
            start_time: self.start_time,
            frames_processed: self.frames_processed,
            total_frames: self.total_frames,
        }
    }

    /// The frames assessed so far, in the order of their frame numbers.
    pub fn frames(&self) -> (frames: &Vec<FrameAnalysis>)
        requires
            self.well_formed(),
        ensures
            frames@ == self.spec_frames(),
            strictly_ordered(frames@),
    {
        &self.frames
    }

    /// Sets the number of frames that the video holds, once it is known. A
    /// total below the number of frames that have already come back is not
    /// accepted, and the pipeline stays as it is.
    pub fn expect_frames(&mut self, total_frames: u32) -> (accepted: bool)
        requires
            old(self).well_formed(),
        ensures
            final(self).well_formed(),
            accepted == (total_frames >= old(self).spec_frames_processed()),
            final(self).spec_total_frames() == (if accepted {
                total_frames
            } else {
                old(self).spec_total_frames()
            }),
            final(self).spec_id() == old(self).spec_id(),
            final(self).spec_start_time() == old(self).spec_start_time(),
            final(self).spec_frames_processed() == old(self).spec_frames_processed(),
            final(self).spec_frames() == old(self).spec_frames(),
            old(self).spec_status().may_become(final(self).spec_status()),
    {
        if total_frames < self.frames_processed {
            return false;
        }
        self.total_frames = total_frames;
        true
    }

    /// Takes note that the analysis of one frame has come back, with the
    /// assessment or without one where it failed. Says whether a frame was
    /// added to those kept.
    pub fn record_frame(&mut self, outcome: Option<FrameAnalysis>) -> (kept: bool)
        requires
            old(self).well_formed(),
        ensures
            final(self).well_formed(),
            final(self).spec_id() == old(self).spec_id(),
            final(self).spec_start_time() == old(self).spec_start_time(),
            final(self).spec_total_frames() == old(self).spec_total_frames(),
            final(self).spec_frames_processed() == advanced(
                old(self).spec_frames_processed(),
                old(self).spec_total_frames(),
            ),
            final(self).spec_frames() == collected(
                old(self).spec_frames(),
                outcome,
                old(self).spec_frames_processed(),
                old(self).spec_total_frames(),
            ),
            kept == (outcome matches Some(frame) && old(self).spec_frames_processed() < old(
                self,
            ).spec_total_frames() && !holds_number(old(self).spec_frames(), frame.frame_number)),
            old(self).spec_status().may_become(final(self).spec_status()),
    {
        if self.frames_processed >= self.total_frames {
            return false;
        }
        self.frames_processed = self.frames_processed + 1;
        match outcome {
            Some(frame) => insert_frame(&mut self.frames, frame),
            None => false,
        }
    }

    /// The state in which the analysis ends, given what the engine made of the
    /// frames kept.
    pub fn conclude(
        self,
        outcome: Result<LSTMOutput, AppError>,
        metadata: AnalysisMetadata,
        summary: AnalysisSummary,
        now: u64,
    ) -> (state: AnalysisStatus)
        requires
            self.well_formed(),
        ensures
            is_conclusion(state, self.spec_frames(), outcome, metadata, summary, now),
            state.is_terminal(),
            state.well_formed(),
            self.spec_status().may_become(state),
    {
        if self.frames.len() == 0 {
            return AnalysisStatus::Failed {
                error: String::from_str("no frames analyzed"),
                timestamp: now,
            };
        }
        match outcome {
            Err(failure) => AnalysisStatus::Failed { error: failure.message(), timestamp: now },
            Ok(output) => AnalysisStatus::Complete {
                analysis: DrivingAnalysis {
                    metadata,
                    frame_analyses: self.frames,
                    lstm_output: output,
                    summary,
                },
                completion_time: now,
            },
        }
    }
}

/// Accepts an analysis under the identifier `id`: registers it in the store
/// as processing, before the caller is answered, and hands back the pipeline
/// for the task that will work on it. An identifier that is already in the
/// store is refused.
pub fn submit_with_id(store: &mut JobStore, id: u128, now: u64, total_frames: u32) -> (result:
    Result<Pipeline, AppError>)
    requires
        old(store).well_formed(),
    ensures
        final(store).well_formed(),
        final(store)@ == created(old(store)@, id, now, total_frames),
        old(store)@.contains_key(id) ==> (result matches Err(error) && is_taken(error)),
        !old(store)@.contains_key(id) ==> (result matches Ok(pipeline) && starts(
            pipeline,
            id,
            now,
            total_frames,
        ) && lookup(final(store)@, id) == Some(pipeline.spec_status())),
{
    match store.create(id, now, total_frames) {
        Ok(()) => Ok(Pipeline::begin(id, now, total_frames)),
        Err(error) => Err(error),
    }
}

/// Whether no identifier among `entries` is marked as drawn at random.
pub open spec fn no_random_ids(entries: Map<u128, AnalysisStatus>) -> bool {
    forall|id: u128| #[trigger] entries.contains_key(id) ==> id & ID_KIND_BITS != ID_RANDOM_KIND
}

/// Accepts an analysis under an identifier drawn at random. Where the
/// identifier drawn is free, the analysis is registered as by
/// `submit_with_id`, and is found in the store, processing, from then on. In
/// the event that the identifier is taken, the store stays as it is and the
/// submission is refused. That cannot happen on a store that holds no
/// identifier marked as drawn at random, an empty store among them: there
/// the submission is accepted whatever is drawn.
pub fn submit(store: &mut JobStore, now: u64, total_frames: u32) -> (result: Result<
    Pipeline,
    AppError,
>)
    requires
        old(store).well_formed(),
    ensures
        final(store).well_formed(),
        result matches Ok(pipeline) ==> {
            &&& !old(store)@.contains_key(pipeline.spec_id())
            &&& pipeline.spec_id() & ID_KIND_BITS == ID_RANDOM_KIND
            &&& starts(pipeline, pipeline.spec_id(), now, total_frames)
            &&& final(store)@ == old(store)@.insert(pipeline.spec_id(), pipeline.spec_status())
            &&& lookup(final(store)@, pipeline.spec_id()) == Some(
                AnalysisStatus::Processing { start_time: now, frames_processed: 0, total_frames },
            )
        },
        result matches Err(error) ==> is_taken(error) && final(store)@ == old(store)@,
        no_random_ids(old(store)@) ==> result is Ok,
{
    let id = random_id();
    submit_with_id(store, id, now, total_frames)
}

/// Takes note that the video was decoded into `total_frames` frames, and
/// writes the total to the store. The result says whether the store took it.
pub fn frames_decoded(store: &mut JobStore, pipeline: &mut Pipeline, total_frames: u32) -> (result:
    Result<(), AppError>)
    requires
        old(store).well_formed(),
        old(pipeline).well_formed(),
    ensures
        final(store).well_formed(),
        final(pipeline).well_formed(),
        final(pipeline).spec_id() == old(pipeline).spec_id(),
        final(pipeline).spec_start_time() == old(pipeline).spec_start_time(),
        final(pipeline).spec_frames_processed() == old(pipeline).spec_frames_processed(),
        final(pipeline).spec_frames() == old(pipeline).spec_frames(),
        final(pipeline).spec_total_frames() == (if total_frames >= old(
            pipeline,
        ).spec_frames_processed() {
            total_frames
        } else {
            old(pipeline).spec_total_frames()
        }),
        final(store)@ == updated(
            old(store)@,
            old(pipeline).spec_id(),
            final(pipeline).spec_status(),
        ),
        update_answer(
            old(store)@,
            old(pipeline).spec_id(),
            final(pipeline).spec_status(),
            result,
        ),
{
    let _ = pipeline.expect_frames(total_frames);
    store.update(pipeline.id(), pipeline.status())
}

/// Takes note that the analysis of one frame has come back, and writes the
/// progress made to the store. The result says whether the store took it; the
/// pipeline goes on either way.
pub fn frame_done(
    store: &mut JobStore,
    pipeline: &mut Pipeline,
    outcome: Option<FrameAnalysis>,
) -> (result: Result<(), AppError>)
    requires
        old(store).well_formed(),
        old(pipeline).well_formed(),
    ensures
        final(store).well_formed(),
        final(pipeline).well_formed(),
        final(pipeline).spec_id() == old(pipeline).spec_id(),
        final(pipeline).spec_start_time() == old(pipeline).spec_start_time(),
        final(pipeline).spec_total_frames() == old(pipeline).spec_total_frames(),
        final(pipeline).spec_frames_processed() == advanced(
            old(pipeline).spec_frames_processed(),
            old(pipeline).spec_total_frames(),
        ),
        final(pipeline).spec_frames() == collected(
            old(pipeline).spec_frames(),
            outcome,
            old(pipeline).spec_frames_processed(),
            old(pipeline).spec_total_frames(),
        ),
        final(store)@ == updated(
            old(store)@,
            old(pipeline).spec_id(),
            final(pipeline).spec_status(),
        ),
        result is Ok <==> accepts(
            old(store)@,
            old(pipeline).spec_id(),
            final(pipeline).spec_status(),
        ),
        update_answer(
            old(store)@,
            old(pipeline).spec_id(),
            final(pipeline).spec_status(),
            result,
        ),
{
    let _ = pipeline.record_frame(outcome);
    store.update(pipeline.id(), pipeline.status())
}

/// Ends an analysis: decides its final state from what the engine made of
/// the frames kept, and writes it to the store.
pub fn finish(
    store: &mut JobStore,
    pipeline: Pipeline,
    outcome: Result<LSTMOutput, AppError>,
    metadata: AnalysisMetadata,
    summary: AnalysisSummary,
    now: u64,
) -> (result: Result<(), AppError>)
    requires
        old(store).well_formed(),
        pipeline.well_formed(),
    ensures
        final(store).well_formed(),
        forall|id: u128|
            id != pipeline.spec_id() ==> lookup(final(store)@, id) == lookup(old(store)@, id),
        result is Ok ==> (final(store)@.contains_key(pipeline.spec_id()) && is_conclusion(
            final(store)@[pipeline.spec_id()],
            pipeline.spec_frames(),
            outcome,
            metadata,
            summary,
            now,
        )),
        result is Err ==> final(store)@ == old(store)@,
        result is Ok <==> (old(store)@.contains_key(pipeline.spec_id()) && !old(
            store,
        )@[pipeline.spec_id()].is_terminal()),
        !old(store)@.contains_key(pipeline.spec_id()) ==> (result matches Err(error)
            && is_not_found(error)),
        old(store)@.contains_key(pipeline.spec_id()) && old(
            store,
        )@[pipeline.spec_id()].is_terminal() ==> (result matches Err(error) && is_refused(error)),
{
    let id = pipeline.id();
    let state = pipeline.conclude(outcome, metadata, summary, now);
    store.update(id, state)
}

/// Ends an analysis whose video could not be decoded: it has failed.
pub fn decode_failed(store: &mut JobStore, id: u128, now: u64) -> (result: Result<(), AppError>)
    requires
        old(store).well_formed(),
    ensures
        final(store).well_formed(),
        forall|other: u128| other != id ==> lookup(final(store)@, other) == lookup(old(store)@, other),
        result is Ok ==> (final(store)@.contains_key(id) && is_decode_failure(
            final(store)@[id],
            now,
        )),
        result is Err ==> final(store)@ == old(store)@,
        result is Ok <==> (old(store)@.contains_key(id) && !old(store)@[id].is_terminal()),
        !old(store)@.contains_key(id) ==> (result matches Err(error) && is_not_found(error)),
        old(store)@.contains_key(id) && old(store)@[id].is_terminal() ==> (result matches Err(
            error,
        ) && is_refused(error)),
{
    let state = AnalysisStatus::Failed { error: String::from_str("decode error"), timestamp: now };
    store.update(id, state)
}

/// A store without entries holds no identifier marked as drawn at random, so
/// the first submission to a new store is accepted.
pub proof fn lemma_empty_store_accepts()
    ensures
        no_random_ids(Map::<u128, AnalysisStatus>::empty()),
{
}

/// An analysis of which no frame was assessed ends as failed, whatever the
/// engine would have said, and the failure is described in words.
pub proof fn lemma_no_frames_means_failure(
    state: AnalysisStatus,
    frames: Seq<FrameAnalysis>,
    outcome: Result<LSTMOutput, AppError>,
    metadata: AnalysisMetadata,
    summary: AnalysisSummary,
    now: u64,
)
    requires
        is_conclusion(state, frames, outcome, metadata, summary, now),
        frames.len() == 0,
    ensures
        state is Failed,
        state->error@.len() > 0,
{
    reveal_strlit("no frames analyzed");
}

/// The frames of a report are at least one, strictly ordered by frame number,
/// and exactly those that the pipeline kept.
pub proof fn lemma_report_is_ordered(
    state: AnalysisStatus,
    pipeline: Pipeline,
    outcome: Result<LSTMOutput, AppError>,
    metadata: AnalysisMetadata,
    summary: AnalysisSummary,
    now: u64,
)
    requires
        pipeline.well_formed(),
        is_conclusion(state, pipeline.spec_frames(), outcome, metadata, summary, now),
        state is Complete,
    ensures
        state->analysis.frame_analyses@ == pipeline.spec_frames(),
        state->analysis.frame_analyses@.len() > 0,
        strictly_ordered(state->analysis.frame_analyses@),
{
}

} // verus!
