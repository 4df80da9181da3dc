use crate::types::event::HistoryEventEntry;
use crate::types::proxy::ApiError;
use vstd::prelude::*;

verus! {

/// The answer of the remote log to a request for the events from a position
/// on.
#[derive(Debug, PartialEq, Eq)]
pub enum HistoryEventResult {
    Success(Vec<HistoryEventEntry>),
    Failure(ApiError),
}

impl HistoryEventResult {
    /// The answer as a `Result`.
    pub fn into_result(self) -> (out: Result<Vec<HistoryEventEntry>, ApiError>)
        ensures
            out == match self {
                HistoryEventResult::Success(entries) => Ok::<Vec<HistoryEventEntry>, ApiError>(entries),
                HistoryEventResult::Failure(error) => Err::<Vec<HistoryEventEntry>, ApiError>(error),
            },
    {
        match self {
            HistoryEventResult::Success(entries) => Ok(entries),
            HistoryEventResult::Failure(error) => Err(error),
        }
    }
}

} // verus!
