//! Plain message payloads exchanged with the outside world.
use vstd::prelude::*;
use crate::keys::KeyPress;
use crate::model::{Agent, WorktreePsEntry, OrchSnapshot};
use crate::bundle::ExportBundle;

verus! {

/// An agent's hook status from last-status.json, joined to agents by pane key.
#[derive(Debug, Clone)]
pub struct AgentStatus {
    pub pane_key: String,
    pub source: String,
    pub state: String,
    pub worktree_id: String,
    pub prompt: Option<String>,
    pub tool_name: Option<String>,
    pub tool_input: Option<String>,
    pub last_assistant_msg: Option<String>,
}

/// A query received on the control socket.
#[derive(Debug, Clone)]
pub struct SocketReq {
    pub cmd: String,
    pub name: Option<String>,
    pub handle: Option<String>,
    pub cwd: Option<String>,
    /// Broadcast message body.
    pub message: Option<String>,
}

/// What happened: a key, a tick of the clock, a change of the window, or
/// the answer to a request that the library handed out.
#[derive(Debug)]
pub enum AppMsg {
    Key(KeyPress),
    Resize { width: u16, height: u16 },
    /// A tick of the animation clock (every 50 ms).
    Tick,
    /// The terminal list was fetched.
    AgentsLoaded(Vec<Agent>),
    /// The hook statuses were read.
    StatusUpdated(Vec<AgentStatus>),
    /// An orchestration message was sent.
    SendOk(String),
    SendFailed(String),
    /// A delivery was marked read.
    AckOk(String),
    AckFailed(String),
    /// A query arrived on the control socket.
    SocketQuery(SocketReq),
    /// Bytes were written to an agent's terminal.
    InjectOk(usize),
    InjectFailed(String),
    /// An agent's terminal output was read.
    TerminalOutput(String),
    WorktreePsLoaded(Vec<WorktreePsEntry>),
    TerminalCreated { handle: String, title: Option<String> },
    GroupActionOk(String),
    Info(String),
    Error(String),
    /// A configuration value was stored.
    ConfigUpdated { key: String, value: String },
    OrchSnapshotLoaded(OrchSnapshot),
    ExportOk { path: String, count: usize },
    ExportFailed { reason: String },
    ImportOk { path: String, bundle: ExportBundle },
    ImportFailed { reason: String },
    /// A recording was encoded for storage: its name, its keys as text and
    /// how many keys it holds.
    MacroEncoded { name: String, key_events_json: String, count: usize },
    /// A stored macro was decoded into its keys, to be replayed.
    MacroDecoded { name: String, keys: Vec<KeyPress> },
    Quit,
}

} // verus!
