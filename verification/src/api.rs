//! What a client is told: the result of an analysis, and word of an upload.

use crate::error::AppError;
use crate::prompt::{decimal, decimal_text};
use crate::store::{is_not_found, JobStore};
use crate::types::{AnalysisStatus, DrivingAnalysis};
use vstd::prelude::*;

verus! {

/// The answer to a request for the result of an analysis that has not failed.
#[derive(Debug, Clone, PartialEq, Eq)]
pub enum AnalysisResult {
    /// The analysis is complete: here is its report.
    Report(DrivingAnalysis),
    /// The analysis has not come to its end yet.
    Processing,
}

/// The answer that the state of an analysis calls for: its report where it is
/// complete, the stored description as a processing error where it has
/// failed, and word that it is still processing otherwise.
pub open spec fn answers(state: AnalysisStatus, reply: Result<AnalysisResult, AppError>) -> bool {
    match state {
        AnalysisStatus::Complete { analysis, .. } => reply == Ok::<AnalysisResult, AppError>(
            AnalysisResult::Report(analysis),
        ),
        AnalysisStatus::Failed { error, .. } => reply == Err::<AnalysisResult, AppError>(
            AppError::ProcessingError(error),
        ),
        _ => reply == Ok::<AnalysisResult, AppError>(AnalysisResult::Processing),
    }
}

/// The answer to a request for the result of the analysis `analysis_id`.
pub fn get_analysis_result(store: &JobStore, analysis_id: u128) -> (reply: Result<
    AnalysisResult,
    AppError,
>)
    requires
        store.well_formed(),
    ensures
        store@.contains_key(analysis_id) ==> answers(store@[analysis_id], reply),
        !store@.contains_key(analysis_id) ==> (reply matches Err(error) && is_not_found(error)),
{
    match store.get(analysis_id) {
        Err(error) => Err(error),
        Ok(status) => match status {
            AnalysisStatus::Complete { analysis, .. } => Ok(AnalysisResult::Report(analysis)),
            AnalysisStatus::Failed { error, .. } => Err(AppError::ProcessingError(error)),
            _ => Ok(AnalysisResult::Processing),
        },
    }
}

/// Word that the file named `name`, of `size` bytes, has been uploaded.
pub open spec fn upload_notice_text(name: Seq<char>, size: nat) -> Seq<char> {
    "Uploaded file "@ + name + ", with size: "@ + decimal_text(size)
}

/// Word that the file named `name`, of `size` bytes, has been uploaded.
pub fn upload_notice(name: &str, size: u64) -> (notice: String)
    ensures
        notice@ == upload_notice_text(name@, size as nat),
{
    let digits = decimal(size);
    String::from_str("Uploaded file ").concat(name).concat(", with size: ").concat(
        digits.as_str(),
    )
}

} // verus!
