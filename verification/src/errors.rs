//! The error taxonomy of the sync core.

use vstd::prelude::*;

verus! {

/// Everything that can go wrong for one agent and one event, plus the
/// configuration failures that stop the process before watching begins.
///
/// `PathOutsideRoot`, `NonTextPath` and `PatternMismatch` are filtering
/// outcomes: the agent skips the event silently. `FileUnavailable`,
/// `UploadRejected` and `DeleteFailed` are reported per agent and per event
/// but never abort the dispatch loop or affect sibling agents.
#[derive(Debug)]
pub enum SyncError {
    /// A pattern failed to compile or a debounce window lies outside the
    /// accepted bounds; fatal at startup.
    ConfigurationError(String),
    /// The event path is not a descendant of the agent's watch root.
    PathOutsideRoot,
    /// A path component below the root is not representable as text.
    NonTextPath,
    /// The relative key does not match the agent's pattern.
    PatternMismatch,
    /// The local file could not be opened by the time of the upload attempt.
    FileUnavailable,
    /// The remote store refused the transfer; carries the remote detail.
    UploadRejected(String),
    /// Removing the local copy after a successful upload failed.
    DeleteFailed(String),
}

impl SyncError {
    /// The filtering outcomes: the event is simply not this agent's concern,
    /// and nothing is surfaced as a failure.
    pub open spec fn is_filtering(self) -> bool {
        match self {
            SyncError::PathOutsideRoot => true,
            SyncError::NonTextPath => true,
            SyncError::PatternMismatch => true,
            _ => false,
        }
    }
}

} // verus!
