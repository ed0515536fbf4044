//! The version-control provider interface the orchestration consumes.

use vstd::prelude::*;

use crate::error::GitError;
use crate::types::StagedDiff;

verus! {

/// Supplies the staged snapshot and performs the final commit.
///
/// The generation pipeline consumes `has_staged_changes` and
/// `get_staged_diff`; `commit` is invoked by the caller after a validated
/// message comes back, never by the pipeline itself. Implementations run
/// the real version-control commands, or stand in for them in tests.
pub trait GitProvider {
    /// Whether any changes are staged.
    fn has_staged_changes(&self) -> Result<bool, GitError>;

    /// The three-part staged snapshot: stat summary, per-file status,
    /// and the full diff text.
    fn get_staged_diff(&self) -> Result<StagedDiff, GitError>;

    /// Create a commit carrying the given message.
    fn commit(&self, message: &str) -> Result<(), GitError>;
}

} // verus!
