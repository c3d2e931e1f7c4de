//! The failures that an exchange reports to the pipeline.

use vstd::prelude::*;

verus! {

/// Why a lane's task did not run to its end.
#[derive(Clone, Copy, Debug, PartialEq, Eq, Structural)]
pub enum TaskFailure {
    /// The task panicked.
    Panicked,
    /// The task was cancelled before it finished.
    Cancelled,
}

/// A failure of the exchange. None is retried: each is fatal for the
/// operator that meets it.
#[derive(Debug, PartialEq, Eq)]
pub enum ShuffleError {
    /// A write cache could not be constructed from its configuration.
    Configuration(String),
    /// A partition-key expression could not be evaluated on a batch.
    Evaluation(String),
    /// The storage behind a write cache failed on append or on close.
    Storage(String),
    /// A lane's task ended without a result.
    LaneTask(TaskFailure),
}

} // verus!
