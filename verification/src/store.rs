//! The job store: the one place that says where each analysis stands.
//!
//! The store maps the identifier of an analysis to its state. It accepts a
//! change of state only where the lifecycle allows it, so a final state, once
//! stored, stays until the analysis is deleted. The entries are kept in a
//! `DashMap`; every method of the store that changes it takes the store by
//! exclusive reference.

use crate::error::AppError;
use crate::types::AnalysisStatus;
use dashmap::DashMap;
use std::collections::hash_map::RandomState;
use vstd::prelude::*;

verus! {

/// `dashmap::DashMap`, of which nothing is known but what the functions below
/// say of the entries it holds.
#[verifier::external_type_specification]
#[verifier::external_body]
#[verifier::reject_recursive_types(K)]
#[verifier::reject_recursive_types(V)]
#[verifier::reject_recursive_types(S)]
pub struct ExDashMap<K, V, S>(DashMap<K, V, S>);

/// The entries that a map of jobs holds: the state stored under each
/// identifier.
pub uninterp spec fn job_entries(jobs: DashMap<u128, AnalysisStatus, RandomState>) -> Map<
    u128,
    AnalysisStatus,
>;

/// `listing` names every entry of `entries` once, each with its state, and
/// nothing else.
pub open spec fn lists_entries(
    listing: Seq<(u128, AnalysisStatus)>,
    entries: Map<u128, AnalysisStatus>,
) -> bool {
    &&& forall|i: int|
        0 <= i < listing.len() ==> entries.contains_key((#[trigger] listing[i]).0)
            && entries[listing[i].0] == listing[i].1
    &&& forall|i: int, j: int|
        0 <= i < j < listing.len() ==> (#[trigger] listing[i]).0 != (#[trigger] listing[j]).0
    &&& forall|id: u128| #[trigger]
        entries.contains_key(id) ==> exists|i: int|
            0 <= i < listing.len() && (#[trigger] listing[i]).0 == id
}

/// The state under `id`, if there is one.
pub open spec fn lookup(entries: Map<u128, AnalysisStatus>, id: u128) -> Option<AnalysisStatus> {
    if entries.contains_key(id) {
        Some(entries[id])
    } else {
        None
    }
}

/// `DashMap::new`: the map that it returns holds no entry.
#[verifier::external_body]
fn jobs_new() -> (made: DashMap<u128, AnalysisStatus, RandomState>)
    ensures
        job_entries(made) =~= Map::empty(),
{
    DashMap::new()
}

/// `DashMap::insert`: afterwards the map holds `status` under `id`, and every
/// other entry as before. The value that was under `id` before is dropped.
#[verifier::external_body]
fn jobs_insert(jobs: &mut DashMap<u128, AnalysisStatus, RandomState>, id: u128, status: AnalysisStatus)
    ensures
        job_entries(*final(jobs)) == job_entries(*old(jobs)).insert(id, status),
{
    jobs.insert(id, status);
}

/// `DashMap::get`: a copy of the state held under `id`, or nothing where the
/// map holds no such entry.
#[verifier::external_body]
fn jobs_get(jobs: &DashMap<u128, AnalysisStatus, RandomState>, id: u128) -> (found: Option<
    AnalysisStatus,
>)
    ensures
        found == lookup(job_entries(*jobs), id),
{
    jobs.get(&id).map(|entry| entry.value().clone())
}

/// `DashMap::remove`: afterwards the map holds no entry under `id`, and every
/// other entry as before. The result is the state that was held under `id`.
#[verifier::external_body]
fn jobs_remove(jobs: &mut DashMap<u128, AnalysisStatus, RandomState>, id: u128) -> (removed: Option<
    AnalysisStatus,
>)
    ensures
        job_entries(*final(jobs)) == job_entries(*old(jobs)).remove(id),
        removed == lookup(job_entries(*old(jobs)), id),
{
    jobs.remove(&id).map(|pair| pair.1)
}

/// `DashMap::iter`: the identifier and a copy of the state of every entry,
/// each entry once, in the order in which the map happens to hand them out.
#[verifier::external_body]
fn jobs_list(jobs: &DashMap<u128, AnalysisStatus, RandomState>) -> (listing: Vec<
    (u128, AnalysisStatus),
>)
    ensures
        lists_entries(listing@, job_entries(*jobs)),
{
    jobs.iter().map(|entry| (*entry.key(), entry.value().clone())).collect()
}

/// The entries after an analysis is created under `id`: a processing state
/// with no frame processed yet, unless the identifier is taken.
pub open spec fn created(
    entries: Map<u128, AnalysisStatus>,
    id: u128,
    start_time: u64,
    total_frames: u32,
) -> Map<u128, AnalysisStatus> {
    if entries.contains_key(id) {
        entries
    } else {
        entries.insert(
            id,
            AnalysisStatus::Processing { start_time, frames_processed: 0, total_frames },
        )
    }
}

/// Whether the state under `id` may be replaced by `next`.
pub open spec fn accepts(entries: Map<u128, AnalysisStatus>, id: u128, next: AnalysisStatus) -> bool {
    &&& entries.contains_key(id)
    &&& next.well_formed()
    &&& entries[id].may_become(next)
}

/// The entries after the state under `id` is replaced by `next`, where that
/// is accepted; the entries as they are where it is not.
pub open spec fn updated(entries: Map<u128, AnalysisStatus>, id: u128, next: AnalysisStatus) -> Map<
    u128,
    AnalysisStatus,
> {
    if accepts(entries, id, next) {
        entries.insert(id, next)
    } else {
        entries
    }
}

/// The entries after the analysis under `id` is deleted.
pub open spec fn deleted(entries: Map<u128, AnalysisStatus>, id: u128) -> Map<u128, AnalysisStatus> {
    entries.remove(id)
}

/// Every state among the entries is a valid one, and there are finitely many.
pub open spec fn entries_valid(entries: Map<u128, AnalysisStatus>) -> bool {
    &&& entries.dom().finite()
    &&& forall|id: u128| #[trigger] entries.contains_key(id) ==> entries[id].well_formed()
}

/// The failure that names an unknown analysis.
pub open spec fn is_not_found(error: AppError) -> bool {
    error matches AppError::NotFound(text) && text@ == "Analysis not found"@
}

/// The failure on an identifier that is already taken.
pub open spec fn is_taken(error: AppError) -> bool {
    error matches AppError::Internal(text) && text@ == "Analysis already exists"@
}

/// The failure on a state that is not valid.
pub open spec fn is_malformed(error: AppError) -> bool {
    error matches AppError::Internal(text) && text@ == "Malformed analysis state"@
}

/// The failure on a change of state that the lifecycle does not allow.
pub open spec fn is_refused(error: AppError) -> bool {
    error matches AppError::Internal(text) && text@ == "State change not allowed"@
}

/// What an update of the state under `id` to `next` answers: an unknown
/// analysis is not found, a state that is not valid is malformed, a change that
/// the lifecycle does not allow is refused, and anything else is accepted.
pub open spec fn update_answer(
    entries: Map<u128, AnalysisStatus>,
    id: u128,
    next: AnalysisStatus,
    result: Result<(), AppError>,
) -> bool {
    if !entries.contains_key(id) {
        result matches Err(error) && is_not_found(error)
    } else if !next.well_formed() {
        result matches Err(error) && is_malformed(error)
    } else if !entries[id].may_become(next) {
        result matches Err(error) && is_refused(error)
    } else {
        result is Ok
    }
}

/// The store of all analyses.
pub struct JobStore {
    jobs: DashMap<u128, AnalysisStatus, RandomState>,
}

impl View for JobStore {
    type V = Map<u128, AnalysisStatus>;

    closed spec fn view(&self) -> Map<u128, AnalysisStatus> {
        job_entries(self.jobs)
    }
}

impl JobStore {
    /// What holds of every store that `new` made, whatever was done with it
    /// since: its states are valid.
    pub open spec fn well_formed(self) -> bool {
        entries_valid(self@)
    }

    /// A store without entries.
    pub fn new() -> (store: JobStore)
        ensures
            store@ == Map::<u128, AnalysisStatus>::empty(),
            store.well_formed(),
    {
        JobStore { jobs: jobs_new() }
    }

    /// Registers the analysis `id` as processing since `start_time`, with no
    /// frame processed yet. An identifier that is already in the store is
    /// refused, and the store stays as it is.
    pub fn create(&mut self, id: u128, start_time: u64, total_frames: u32) -> (result: Result<
        (),
        AppError,
    >)
        requires
            old(self).well_formed(),
        ensures
            final(self)@ == created(old(self)@, id, start_time, total_frames),
            final(self).well_formed(),
            !old(self)@.contains_key(id) ==> result is Ok,
            old(self)@.contains_key(id) ==> (result matches Err(error) && is_taken(error)),
    {
        match jobs_get(&self.jobs, id) {
            Some(_) => Err(AppError::Internal(String::from_str("Analysis already exists"))),
            None => {
                jobs_insert(
                    &mut self.jobs,
                    id,
                    AnalysisStatus::Processing { start_time, frames_processed: 0, total_frames },
                );
                Ok(())
            },
        }
    }

    /// The state of the analysis `id`.
    pub fn get(&self, id: u128) -> (result: Result<AnalysisStatus, AppError>)
        requires
            self.well_formed(),
        ensures
            self@.contains_key(id) ==> (result matches Ok(status) && status == self@[id]
                && status.well_formed()),
            !self@.contains_key(id) ==> (result matches Err(error) && is_not_found(error)),
    {
        match jobs_get(&self.jobs, id) {
            Some(status) => Ok(status),
            None => Err(AppError::NotFound(String::from_str("Analysis not found"))),
        }
    }

    /// Replaces the state of the analysis `id` by `next`, where `next` is valid
    /// and may follow the current state. Otherwise the store stays as it is
    /// and the result says why.
    pub fn update(&mut self, id: u128, next: AnalysisStatus) -> (result: Result<(), AppError>)
        requires
            old(self).well_formed(),
        ensures
            final(self)@ == updated(old(self)@, id, next),
            final(self).well_formed(),
            result is Ok <==> accepts(old(self)@, id, next),
            update_answer(old(self)@, id, next, result),
    {
        match jobs_get(&self.jobs, id) {
            None => Err(AppError::NotFound(String::from_str("Analysis not found"))),
            Some(current) => {
                if !next.is_well_formed() {
                    Err(AppError::Internal(String::from_str("Malformed analysis state")))
                } else if !current.can_become(&next) {
                    Err(AppError::Internal(String::from_str("State change not allowed")))
                } else {
                    jobs_insert(&mut self.jobs, id, next);
                    Ok(())
                }
            },
        }
    }

    /// Removes the analysis `id` from the store.
    pub fn delete(&mut self, id: u128) -> (result: Result<(), AppError>)
        requires
            old(self).well_formed(),
        ensures
            final(self)@ == deleted(old(self)@, id),
            final(self).well_formed(),
            old(self)@.contains_key(id) ==> result is Ok,
            !old(self)@.contains_key(id) ==> (result matches Err(error) && is_not_found(error)),
    {
        match jobs_remove(&mut self.jobs, id) {
            Some(_) => Ok(()),
            None => Err(AppError::NotFound(String::from_str("Analysis not found"))),
        }
    }

    /// Every analysis in the store with its state, each once, in no
    /// particular order.
    pub fn list(&self) -> (listing: Vec<(u128, AnalysisStatus)>)
        requires
            self.well_formed(),
        ensures
            lists_entries(listing@, self@),
            listing@.len() == self@.len(),
    {
        let listing = jobs_list(&self.jobs);
        proof {
            lemma_listing_length(listing@, self@);
        }
        listing
    }
}

/// A listing of the entries has as many items as there are entries.
pub proof fn lemma_listing_length(
    listing: Seq<(u128, AnalysisStatus)>,
    entries: Map<u128, AnalysisStatus>,
)
    requires
        lists_entries(listing, entries),
        entries.dom().finite(),
    ensures
        listing.len() == entries.len(),
{
    let ids = Seq::new(listing.len(), |i: int| listing[i].0);
    assert(ids.no_duplicates()) by {
        assert forall|i: int, j: int| 0 <= i < ids.len() && 0 <= j < ids.len() && i != j implies ids[i]
            != ids[j] by {
            if i < j {
                assert(listing[i].0 != listing[j].0);
            } else {
                assert(listing[j].0 != listing[i].0);
            }
        }
    }
    ids.unique_seq_to_set();
    assert(ids.to_set() =~= entries.dom()) by {
        assert forall|id: u128| ids.to_set().contains(id) == entries.dom().contains(id) by {
            if ids.contains(id) {
                let i = choose|i: int| 0 <= i < ids.len() && ids[i] == id;
                assert(entries.contains_key(listing[i].0));
            }
            if entries.contains_key(id) {
                let i = choose|i: int| 0 <= i < listing.len() && (#[trigger] listing[i]).0 == id;
                assert(ids[i] == id);
            }
        }
    }
}

/// An analysis created under a free identifier is found at once, processing,
/// with no frame processed yet.
pub proof fn lemma_created_is_found(
    entries: Map<u128, AnalysisStatus>,
    id: u128,
    start_time: u64,
    total_frames: u32,
)
    requires
        !entries.contains_key(id),
    ensures
        lookup(created(entries, id, start_time, total_frames), id) == Some(
            AnalysisStatus::Processing { start_time, frames_processed: 0, total_frames },
        ),
{
}

/// Neither creating nor updating changes an analysis that is complete or has
/// failed: a final state is left only by deleting the analysis.
pub proof fn lemma_terminal_state_stays(
    entries: Map<u128, AnalysisStatus>,
    id: u128,
    next: AnalysisStatus,
    start_time: u64,
    total_frames: u32,
)
    requires
        entries.contains_key(id),
        entries[id].is_terminal(),
    ensures
        updated(entries, id, next) == entries,
        created(entries, id, start_time, total_frames) == entries,
{
}

/// Whatever an update does to the state of an analysis, the state does not
/// go back to an earlier stage.
pub proof fn lemma_update_never_goes_back(
    entries: Map<u128, AnalysisStatus>,
    id: u128,
    next: AnalysisStatus,
)
    requires
        entries.contains_key(id),
    ensures
        updated(entries, id, next).contains_key(id),
        entries[id].stage() <= updated(entries, id, next)[id].stage(),
{
}

/// While an analysis is processing, an update never lowers its count of
/// processed frames, and the count never exceeds the total.
pub proof fn lemma_progress_never_falls(
    entries: Map<u128, AnalysisStatus>,
    id: u128,
    next: AnalysisStatus,
)
    requires
        entries_valid(entries),
        entries.contains_key(id),
        entries[id] is Processing,
        updated(entries, id, next)[id] is Processing,
    ensures
        entries[id]->frames_processed <= updated(entries, id, next)[id]->frames_processed
            <= updated(entries, id, next)[id]->total_frames,
{
}

/// Creating, updating and deleting leave every stored state valid.
pub proof fn lemma_steps_keep_entries_valid(
    entries: Map<u128, AnalysisStatus>,
    id: u128,
    next: AnalysisStatus,
    start_time: u64,
    total_frames: u32,
)
    requires
        entries_valid(entries),
    ensures
        entries_valid(created(entries, id, start_time, total_frames)),
        entries_valid(updated(entries, id, next)),
        entries_valid(deleted(entries, id)),
{
}

/// A deleted analysis is not found any more, and every other analysis is
/// found as before.
pub proof fn lemma_deleted_is_gone(entries: Map<u128, AnalysisStatus>, id: u128, other: u128)
    ensures
        lookup(deleted(entries, id), id) is None,
        other != id ==> lookup(deleted(entries, id), other) == lookup(entries, other),
{
}

/// The store holds one analysis more after one is created under a free
/// identifier, one less after one that it holds is deleted, and as many as
/// before after an update.
pub proof fn lemma_count_follows_steps(
    entries: Map<u128, AnalysisStatus>,
    id: u128,
    next: AnalysisStatus,
    start_time: u64,
    total_frames: u32,
)
    requires
        entries.dom().finite(),
    ensures
        !entries.contains_key(id) ==> created(entries, id, start_time, total_frames).len()
            == entries.len() + 1,
        entries.contains_key(id) ==> deleted(entries, id).len() == entries.len() - 1,
        updated(entries, id, next).len() == entries.len(),
{
    if accepts(entries, id, next) {
        assert(entries.insert(id, next).dom() =~= entries.dom());
    }
}

} // verus!
