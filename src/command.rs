//! The store's commands, as a command line names them.

use vstd::prelude::*;
use crate::checkpoint::CheckpointOptions;

verus! {

/// A store command.
#[derive(Debug, Clone)]
pub enum PassengerCmd {
    Init,
    Branch { cmd: BranchCmd },
    Checkout { name: String },
    Checkpoint { note: Option<String>, branch: Option<String>, no_artifacts: bool },
    /// Walks the first-parent chain from HEAD, at most `n` commits.
    Log { n: usize },
}

/// A branch command.
#[derive(Debug, Clone)]
pub enum BranchCmd {
    Create { name: String, from: Option<String> },
}

impl CheckpointOptions {
    /// The options of a `checkpoint` command: artifacts are kept unless
    /// switched off, and the configured roots are tracked.
    pub fn from_command(note: Option<String>, branch: Option<String>, no_artifacts: bool) -> (r: Self)
        ensures
            r.note == note,
            r.branch == branch,
            r.include_artifacts == !no_artifacts,
            r.track_roots is None,
    {
        CheckpointOptions { note, branch, include_artifacts: !no_artifacts, track_roots: None }
    }
}

} // verus!
