//! Rows read back from the local store at start-up, and the bootstrap data
//! built from them.
use vstd::prelude::*;
use crate::model::Agent;
use crate::strmap::{StrMap, StrSet};

verus! {

/// An agent as cached in the local store.
#[derive(Debug, Clone)]
pub struct AgentRow {
    pub handle: String,
    pub cwd: String,
    pub title: Option<String>,
    pub connected: bool,
    pub state: Option<String>,
    pub source: Option<String>,
    pub last_output_at: Option<i64>,
}

impl AgentRow {
    /// The agent this row stands for: the cached fields, everything else
    /// empty (the cached output time is not carried over).
    pub fn into_agent(self) -> (a: Agent)
        ensures
            a.handle == self.handle,
            a.cwd == self.cwd,
            a.title == self.title,
            a.connected == self.connected,
            a.source == self.source,
            a.state == self.state,
            a.pty_id is None,
            a.worktree_id@.len() == 0,
            a.branch@.len() == 0,
            a.tab_id@.len() == 0,
            a.leaf_id@.len() == 0,
            a.pane_key@.len() == 0,
            !a.writable,
            a.prompt is None,
            a.tool_name is None,
            a.tool_input is None,
            a.last_assistant_msg is None,
            a.preview is None,
            a.last_output_at is None,
    {
        Agent {
            handle: self.handle,
            pty_id: None,
            cwd: self.cwd,
            worktree_id: String::new(),
            branch: String::new(),
            tab_id: String::new(),
            leaf_id: String::new(),
            pane_key: String::new(),
            title: self.title,
            connected: self.connected,
            writable: false,
            source: self.source,
            state: self.state,
            prompt: None,
            tool_name: None,
            tool_input: None,
            last_assistant_msg: None,
            preview: None,
            last_output_at: None,
        }
    }
}

/// Data loaded from the local store at start-up, shown before the first poll.
#[derive(Debug, Clone)]
pub struct DbBootstrap {
    /// Agents cached by the last session.
    pub agents: Vec<Agent>,
    /// Groups of the last session: name → member handles.
    pub groups: StrMap<StrSet>,
    /// Configuration key → value.
    pub config: StrMap<String>,
}

} // verus!
