//! The report of persisting when a sample was last played.
//!
//! Paths are held as their UTF-8 text.
use vstd::prelude::*;

verus! {

/// When a file was last played, to be written to its source database.
#[derive(Clone, Debug, PartialEq, Eq)]
pub struct LastPlayedPersistRequest {
    pub file_id: String,
    pub source_root: String,
    pub source_database_root: String,
    pub relative_path: String,
    pub played_at: i64,
}

/// How writing a last-played time went, for the file it concerns.
#[derive(Debug, PartialEq, Eq)]
pub struct LastPlayedPersistResult {
    pub file_id: String,
    pub result: Result<(), String>,
}

/// The report of a last-played write: the request's file and the write's outcome.
pub fn persist_last_played_result(request: LastPlayedPersistRequest, result: Result<(), String>) -> (report:
    LastPlayedPersistResult)
    ensures
        report.file_id == request.file_id,
        report.result == result,
{
    LastPlayedPersistResult { file_id: request.file_id, result }
}

} // verus!
