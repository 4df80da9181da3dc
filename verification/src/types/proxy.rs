use vstd::prelude::*;

verus! {

/// The error with which the remote log answers a call that it refuses.
#[derive(Debug, PartialEq, Eq)]
pub struct ApiError {
    pub message: String,
}

/// The answer of the remote log to the question where its head stands.
#[derive(Debug, PartialEq, Eq)]
pub enum HistoryPointResult {
    Success(u64),
    Failure(ApiError),
}

impl HistoryPointResult {
    /// The answer as a `Result`.
    pub fn into_result(self) -> (out: Result<u64, ApiError>)
        ensures
            out == match self {
                HistoryPointResult::Success(point) => Ok::<u64, ApiError>(point),
                HistoryPointResult::Failure(error) => Err::<u64, ApiError>(error),
            },
    {
        match self {
            HistoryPointResult::Success(point) => Ok(point),
            HistoryPointResult::Failure(error) => Err(error),
        }
    }
}

} // verus!
