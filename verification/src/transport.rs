//! Results of the terminal commands that the program runs.
use vstd::prelude::*;

verus! {

/// What `terminal create` reports about the new terminal.
#[derive(Debug, Clone)]
pub struct CreateTerminalResult {
    /// Handle of the new terminal, for later commands.
    pub handle: String,
    /// Its title, if it has one.
    pub title: Option<String>,
    /// Its worktree id, if reported.
    pub worktree_id: Option<String>,
}

} // verus!
