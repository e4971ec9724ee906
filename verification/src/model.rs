//! Domain types of the agent directory: agents, status categories, activity
//! events and their severities/categories, history entries, alert rules,
//! recorded macros, saved views and orchestration summaries.
use vstd::prelude::*;
use crate::text::{lower_seq, has_sub, lower_chars, lower_contains, vec_is};

verus! {

broadcast use vstd::string::group_string_axioms;

/// Window in which recent PTY output counts as "working", in milliseconds.
pub const ACTIVE_THRESHOLD_MS: i64 = 10000;

/// An Orca terminal entry, joined with its last reported hook status.
#[derive(Clone, Debug)]
pub struct Agent {
    pub handle: String,
    pub pty_id: Option<String>,
    pub cwd: String,
    pub worktree_id: String,
    pub branch: String,
    pub tab_id: String,
    pub leaf_id: String,
    /// Join key `tabId:leafId` against last-status entries.
    pub pane_key: String,
    pub title: Option<String>,
    pub connected: bool,
    pub writable: bool,
    pub source: Option<String>,
    pub state: Option<String>,
    pub prompt: Option<String>,
    pub tool_name: Option<String>,
    pub tool_input: Option<String>,
    pub last_assistant_msg: Option<String>,
    /// PTY screen snapshot.
    pub preview: Option<String>,
    /// Epoch milliseconds of the last PTY output.
    pub last_output_at: Option<i64>,
}

/// View of an optional string.
pub open spec fn opt_view(o: Option<String>) -> Option<Seq<char>> {
    match o {
        Some(s) => Some(s@),
        None => None,
    }
}

/// The text of an optional string, or `dflt` when absent.
pub open spec fn opt_or(o: Option<String>, dflt: Seq<char>) -> Seq<char> {
    match o {
        Some(s) => s@,
        None => dflt,
    }
}

/// Borrowed text of an optional string, or `dflt` when absent.
pub fn opt_str<'a>(o: &'a Option<String>, dflt: &'a str) -> (r: &'a str)
    ensures
        r@ == opt_or(*o, dflt@),
{
    match o {
        Some(s) => s.as_str(),
        None => dflt,
    }
}

/// A copy of an optional string.
pub fn clone_opt(o: &Option<String>) -> (r: Option<String>)
    ensures
        r == *o,
{
    match o {
        Some(s) => Some(s.clone()),
        None => None,
    }
}

/// The displayed state of `a` at time `now` (epoch ms): output within the
/// last ten seconds means "working"; otherwise the hook state, or "idle".
pub open spec fn effective_state_at_spec(a: Agent, now: int) -> Seq<char> {
    match a.last_output_at {
        Some(last) if now - last < ACTIVE_THRESHOLD_MS => "working"@,
        _ => opt_or(a.state, "idle"@),
    }
}

/// The state an agent's category is taken from at time `now`: "working"
/// when it wrote output within the last ten seconds, else its hook state
/// (None when it has none).
pub open spec fn category_state_at(a: Agent, now: int) -> Option<Seq<char>> {
    match a.last_output_at {
        Some(last) if now - last < ACTIVE_THRESHOLD_MS => Some("working"@),
        _ => opt_view(a.state),
    }
}

/// Current time in epoch milliseconds (0 if the clock reads before the epoch).
#[verifier::external_body]
pub fn now_ms() -> i64 {
    std::time::SystemTime::now()
        .duration_since(std::time::UNIX_EPOCH)
        .map(|d| d.as_millis() as i64)
        .unwrap_or(0)
}

impl Agent {
    /// The displayed state at time `now` (epoch ms).
    pub fn effective_state_at(&self, now: i64) -> (r: &str)
        ensures
            r@ == effective_state_at_spec(*self, now as int),
    {
        if let Some(last) = self.last_output_at {
            if (now as i128) - (last as i128) < (ACTIVE_THRESHOLD_MS as i128) {
                return "working";
            }
        }
        opt_str(&self.state, "idle")
    }

    /// The displayed state now: recent PTY output means "working", else the
    /// hook state, else "idle".
    pub fn effective_state(&self) -> (r: &str)
        ensures
            exists|now: int| r@ == effective_state_at_spec(*self, now),
    {
        let now = now_ms();
        self.effective_state_at(now)
    }
}

/// Status category of an agent, in display order.
#[derive(Debug, Clone, Copy, PartialEq, Eq, Structural)]
pub enum StatusCategory {
    Working,
    Waiting,
    Blocked,
    Error,
    Done,
    Unknown,
}

/// Display rank of a category (Working first, Unknown last).
pub open spec fn category_rank(c: StatusCategory) -> int {
    match c {
        StatusCategory::Working => 0,
        StatusCategory::Waiting => 1,
        StatusCategory::Blocked => 2,
        StatusCategory::Error => 3,
        StatusCategory::Done => 4,
        StatusCategory::Unknown => 5,
    }
}

/// Category of a state text, by the first keyword group its lowercase form contains.
pub open spec fn category_of(state: Option<Seq<char>>) -> StatusCategory {
    match state {
        Some(s) => {
            let l = lower_seq(s);
            if has_sub(l, "run"@) || has_sub(l, "work"@) || has_sub(l, "busy"@) {
                StatusCategory::Working
            } else if has_sub(l, "wait"@) {
                StatusCategory::Waiting
            } else if has_sub(l, "block"@) {
                StatusCategory::Blocked
            } else if has_sub(l, "error"@) || has_sub(l, "fail"@) {
                StatusCategory::Error
            } else if has_sub(l, "done"@) || has_sub(l, "idle"@) || has_sub(l, "ok"@) {
                StatusCategory::Done
            } else {
                StatusCategory::Unknown
            }
        },
        None => StatusCategory::Unknown,
    }
}

pub open spec fn category_icon(c: StatusCategory) -> Seq<char> {
    match c {
        StatusCategory::Working => "⠋"@,
        StatusCategory::Waiting => "?"@,
        StatusCategory::Blocked => "="@,
        StatusCategory::Error => "x"@,
        StatusCategory::Done => "v"@,
        StatusCategory::Unknown => "-"@,
    }
}

pub open spec fn category_label(c: StatusCategory) -> Seq<char> {
    match c {
        StatusCategory::Working => "Working"@,
        StatusCategory::Waiting => "Waiting"@,
        StatusCategory::Blocked => "Blocked"@,
        StatusCategory::Error => "Error"@,
        StatusCategory::Done => "Done"@,
        StatusCategory::Unknown => "No Status"@,
    }
}

impl StatusCategory {
    /// Display rank (Working = 0 .. Unknown = 5).
    pub fn rank(self) -> (r: u8)
        ensures
            r as int == category_rank(self),
    {
        match self {
            StatusCategory::Working => 0,
            StatusCategory::Waiting => 1,
            StatusCategory::Blocked => 2,
            StatusCategory::Error => 3,
            StatusCategory::Done => 4,
            StatusCategory::Unknown => 5,
        }
    }

    /// Category of an agent state text.
    pub fn from_state(state: Option<&str>) -> (r: Self)
        ensures
            r == category_of(match state { Some(s) => Some(s@), None => None }),
    {
        match state {
            Some(s) => {
                let l = lower_chars(s);
                if lower_contains(&l, "run") || lower_contains(&l, "work") || lower_contains(&l, "busy") {
                    StatusCategory::Working
                } else if lower_contains(&l, "wait") {
                    StatusCategory::Waiting
                } else if lower_contains(&l, "block") {
                    StatusCategory::Blocked
                } else if lower_contains(&l, "error") || lower_contains(&l, "fail") {
                    StatusCategory::Error
                } else if lower_contains(&l, "done") || lower_contains(&l, "idle") || lower_contains(&l, "ok") {
                    StatusCategory::Done
                } else {
                    StatusCategory::Unknown
                }
            },
            None => StatusCategory::Unknown,
        }
    }

    /// Status icon.
    pub fn icon(self) -> (r: &'static str)
        ensures
            r@ == category_icon(self),
    {
        match self {
            StatusCategory::Working => "⠋",
            StatusCategory::Waiting => "?",
            StatusCategory::Blocked => "=",
            StatusCategory::Error => "x",
            StatusCategory::Done => "v",
            StatusCategory::Unknown => "-",
        }
    }

    /// Section title.
    pub fn label(self) -> (r: &'static str)
        ensures
            r@ == category_label(self),
    {
        match self {
            StatusCategory::Working => "Working",
            StatusCategory::Waiting => "Waiting",
            StatusCategory::Blocked => "Blocked",
            StatusCategory::Error => "Error",
            StatusCategory::Done => "Done",
            StatusCategory::Unknown => "No Status",
        }
    }

    /// Category of an agent at time `now`: Working after recent output,
    /// else the category of its hook state (Unknown when it has none).
    pub fn from_agent_at(agent: &Agent, now: i64) -> (r: Self)
        ensures
            r == category_of(category_state_at(*agent, now as int)),
    {
        if let Some(last) = agent.last_output_at {
            if (now as i128) - (last as i128) < (ACTIVE_THRESHOLD_MS as i128) {
                return StatusCategory::from_state(Some("working"));
            }
        }
        match &agent.state {
            Some(s) => StatusCategory::from_state(Some(s.as_str())),
            None => StatusCategory::from_state(None),
        }
    }

    /// Category of an agent now.
    pub fn from_agent(agent: &Agent) -> (r: Self)
        ensures
            exists|now: int| r == category_of(category_state_at(*agent, now)),
    {
        let now = now_ms();
        StatusCategory::from_agent_at(agent, now)
    }
}

/// Severity of an activity-log event.
#[derive(Debug, Clone, Copy, PartialEq, Eq, Structural)]
pub enum EventSeverity {
    Info,
    Warn,
    Error,
}

pub open spec fn severity_name(s: EventSeverity) -> Seq<char> {
    match s {
        EventSeverity::Info => "Info"@,
        EventSeverity::Warn => "Warn"@,
        EventSeverity::Error => "Error"@,
    }
}

/// Severity named by a text (case-insensitive); anything unknown is Info.
pub open spec fn severity_of(s: Seq<char>) -> EventSeverity {
    if lower_seq(s) == "warn"@ {
        EventSeverity::Warn
    } else if lower_seq(s) == "error"@ {
        EventSeverity::Error
    } else {
        EventSeverity::Info
    }
}

/// Index of a severity in per-severity counters (Info, Warn, Error).
pub open spec fn severity_index(s: EventSeverity) -> int {
    match s {
        EventSeverity::Info => 0,
        EventSeverity::Warn => 1,
        EventSeverity::Error => 2,
    }
}

impl EventSeverity {
    /// Name of the severity.
    pub fn as_str(&self) -> (r: &'static str)
        ensures
            r@ == severity_name(*self),
    {
        match self {
            EventSeverity::Info => "Info",
            EventSeverity::Warn => "Warn",
            EventSeverity::Error => "Error",
        }
    }

    /// Parses a severity name; unknown names give Info.
    pub fn from_str(s: &str) -> (r: Self)
        ensures
            r == severity_of(s@),
    {
        let l = lower_chars(s);
        if vec_is(&l, "warn") {
            EventSeverity::Warn
        } else if vec_is(&l, "error") {
            EventSeverity::Error
        } else {
            EventSeverity::Info
        }
    }

    /// One-cell icon.
    pub fn icon(&self) -> (r: &'static str)
        ensures
            r@ == (match *self {
                EventSeverity::Error => "✖"@,
                EventSeverity::Warn => "⚠"@,
                EventSeverity::Info => "·"@,
            }),
    {
        match self {
            EventSeverity::Error => "✖",
            EventSeverity::Warn => "⚠",
            EventSeverity::Info => "·",
        }
    }

    /// Index in per-severity counters.
    pub fn index(&self) -> (r: usize)
        ensures
            r as int == severity_index(*self),
    {
        match self {
            EventSeverity::Info => 0,
            EventSeverity::Warn => 1,
            EventSeverity::Error => 2,
        }
    }
}

/// Category of an activity-log event.
#[derive(Debug, Clone, Copy, PartialEq, Eq, Structural)]
pub enum EventCategory {
    Agent,
    State,
    Message,
    Group,
    System,
}

pub open spec fn event_category_name(c: EventCategory) -> Seq<char> {
    match c {
        EventCategory::Agent => "Agent"@,
        EventCategory::State => "State"@,
        EventCategory::Message => "Message"@,
        EventCategory::Group => "Group"@,
        EventCategory::System => "System"@,
    }
}

/// Category named by a text (case-insensitive); anything unknown is Agent.
pub open spec fn event_category_of(s: Seq<char>) -> EventCategory {
    if lower_seq(s) == "state"@ {
        EventCategory::State
    } else if lower_seq(s) == "message"@ {
        EventCategory::Message
    } else if lower_seq(s) == "group"@ {
        EventCategory::Group
    } else if lower_seq(s) == "system"@ {
        EventCategory::System
    } else {
        EventCategory::Agent
    }
}

/// Index of a category in per-category counters.
pub open spec fn event_category_index(c: EventCategory) -> int {
    match c {
        EventCategory::Agent => 0,
        EventCategory::State => 1,
        EventCategory::Message => 2,
        EventCategory::Group => 3,
        EventCategory::System => 4,
    }
}

impl EventCategory {
    /// Name of the category.
    pub fn as_str(&self) -> (r: &'static str)
        ensures
            r@ == event_category_name(*self),
    {
        match self {
            EventCategory::Agent => "Agent",
            EventCategory::State => "State",
            EventCategory::Message => "Message",
            EventCategory::Group => "Group",
            EventCategory::System => "System",
        }
    }

    /// Parses a category name; unknown names give Agent.
    pub fn from_str(s: &str) -> (r: Self)
        ensures
            r == event_category_of(s@),
    {
        let l = lower_chars(s);
        if vec_is(&l, "state") {
            EventCategory::State
        } else if vec_is(&l, "message") {
            EventCategory::Message
        } else if vec_is(&l, "group") {
            EventCategory::Group
        } else if vec_is(&l, "system") {
            EventCategory::System
        } else {
            EventCategory::Agent
        }
    }

    /// Icon.
    pub fn icon(&self) -> (r: &'static str)
        ensures
            r@ == (match *self {
                EventCategory::Agent => "👤"@,
                EventCategory::State => "↻"@,
                EventCategory::Message => "✉"@,
                EventCategory::Group => "👥"@,
                EventCategory::System => "⚙"@,
            }),
    {
        match self {
            EventCategory::Agent => "👤",
            EventCategory::State => "↻",
            EventCategory::Message => "✉",
            EventCategory::Group => "👥",
            EventCategory::System => "⚙",
        }
    }

    /// Index in per-category counters.
    pub fn index(&self) -> (r: usize)
        ensures
            r as int == event_category_index(*self),
    {
        match self {
            EventCategory::Agent => 0,
            EventCategory::State => 1,
            EventCategory::Message => 2,
            EventCategory::Group => 3,
            EventCategory::System => 4,
        }
    }
}

/// An activity-log event.
#[derive(Clone, Debug)]
pub struct Event {
    /// Storage id; 0 = not yet stored.
    pub id: i64,
    /// Epoch milliseconds.
    pub timestamp_ms: i64,
    pub severity: EventSeverity,
    pub category: EventCategory,
    /// Agent handle or "system".
    pub source: String,
    pub text: String,
}

/// An input-bar history entry.
#[derive(Clone, Debug)]
pub struct HistoryEntry {
    pub id: i64,
    pub timestamp_ms: i64,
    pub text: String,
    /// Input prefix up to and including the first ':' ("" when there is none).
    pub prefix: String,
}

/// Most history entries kept in memory.
pub const HISTORY_CAP: usize = 500;

/// Most activity events kept in memory.
pub const EVENTS_CAP: usize = 2000;

/// Most alert rules.
pub const ALERT_RULES_CAP: usize = 20;

/// Most recorded macros.
pub const MACROS_CAP: usize = 50;
/// Most snippets kept: a new name is refused at this count (replacing is
/// always allowed).
pub const SNIPPETS_CAP: usize = 100;

/// Most saved views.
pub const SAVED_VIEWS_CAP: usize = 50;

/// Status fields joined onto an agent by pane key.
#[derive(Clone, Debug)]
pub struct StatusJoin {
    pub source: String,
    pub state: String,
    pub prompt: Option<String>,
    pub tool_name: Option<String>,
    pub tool_input: Option<String>,
    pub last_assistant_msg: Option<String>,
}

impl StatusJoin {
    /// A field-by-field copy.
    pub fn copy(&self) -> (r: Self)
        ensures
            r == *self,
    {
        StatusJoin {
            source: self.source.clone(),
            state: self.state.clone(),
            prompt: clone_opt(&self.prompt),
            tool_name: clone_opt(&self.tool_name),
            tool_input: clone_opt(&self.tool_input),
            last_assistant_msg: clone_opt(&self.last_assistant_msg),
        }
    }
}

/// One row of the cross-worktree orchestration summary.
#[derive(Clone, Debug)]
pub struct WorktreePsEntry {
    pub path: String,
    pub branch: String,
    pub agent_count: usize,
    pub status: Option<String>,
}

/// Orchestration run.
#[derive(Clone, Debug)]
pub struct OrchRunEntry {
    pub id: String,
    pub title: String,
    pub status: String,
}

/// Orchestration task.
#[derive(Clone, Debug)]
pub struct OrchTaskEntry {
    pub id: String,
    pub title: String,
    pub status: String,
    pub assignee: Option<String>,
}

/// Orchestration gate.
#[derive(Clone, Debug)]
pub struct OrchGateEntry {
    pub id: String,
    pub title: String,
    pub status: String,
}

/// Runs, tasks and gates fetched together.
#[derive(Clone, Debug)]
pub struct OrchSnapshot {
    pub runs: Vec<OrchRunEntry>,
    pub tasks: Vec<OrchTaskEntry>,
    pub gates: Vec<OrchGateEntry>,
}

/// A task fired later by the scheduler. Times are milliseconds on the
/// caller's monotonic clock.
#[derive(Clone, Debug)]
pub struct ScheduledTask {
    pub id: usize,
    pub command: String,
    pub fire_at_ms: u64,
    pub repeat_interval_ms: Option<u64>,
}

/// Kind of an alert rule.
#[derive(Debug, Clone, Copy, PartialEq, Eq, Structural)]
pub enum AlertRuleType {
    State,
    Source,
    Severity,
    Message,
}

pub open spec fn rule_type_name(t: AlertRuleType) -> Seq<char> {
    match t {
        AlertRuleType::State => "state"@,
        AlertRuleType::Source => "source"@,
        AlertRuleType::Severity => "severity"@,
        AlertRuleType::Message => "message"@,
    }
}

/// Rule type named by a text (case-insensitive), if any.
pub open spec fn rule_type_of(s: Seq<char>) -> Option<AlertRuleType> {
    if lower_seq(s) == "state"@ {
        Some(AlertRuleType::State)
    } else if lower_seq(s) == "source"@ {
        Some(AlertRuleType::Source)
    } else if lower_seq(s) == "severity"@ {
        Some(AlertRuleType::Severity)
    } else if lower_seq(s) == "message"@ {
        Some(AlertRuleType::Message)
    } else {
        None
    }
}

impl AlertRuleType {
    /// Name of the rule type.
    pub fn as_str(&self) -> (r: &'static str)
        ensures
            r@ == rule_type_name(*self),
    {
        match self {
            AlertRuleType::State => "state",
            AlertRuleType::Source => "source",
            AlertRuleType::Severity => "severity",
            AlertRuleType::Message => "message",
        }
    }

    /// Parses a rule type name.
    pub fn from_str(s: &str) -> (r: Option<Self>)
        ensures
            r == rule_type_of(s@),
    {
        let l = lower_chars(s);
        if vec_is(&l, "state") {
            Some(AlertRuleType::State)
        } else if vec_is(&l, "source") {
            Some(AlertRuleType::Source)
        } else if vec_is(&l, "severity") {
            Some(AlertRuleType::Severity)
        } else if vec_is(&l, "message") {
            Some(AlertRuleType::Message)
        } else {
            None
        }
    }
}

/// An alert rule.
#[derive(Debug, Clone)]
pub struct AlertRule {
    pub id: i64,
    pub rule_type: AlertRuleType,
    pub value: String,
    pub created_at_ms: i64,
}

/// A recorded macro: a name and its key events as JSON.
#[derive(Debug, Clone)]
pub struct RecordedMacro {
    pub name: String,
    pub key_events_json: String,
    pub created_at_ms: i64,
}

/// A saved view preset.
#[derive(Debug, Clone)]
pub struct ViewSnapshot {
    /// Active tab: "directory" | "groups" | "messages".
    pub tab: String,
    pub filter_query: Option<String>,
    /// "by-worktree" | "by-state" | "by-source" | "by-name".
    pub sort_mode: String,
    pub selected_set: Vec<String>,
    pub created_at_ms: i64,
}

/// Directory ordering.
#[derive(Debug, Clone, Copy, PartialEq, Eq, Structural)]
pub enum SortMode {
    ByWorktree,
    ByState,
    BySource,
    ByName,
}

/// Sort mode named by a text (case-insensitive); anything unknown is by-worktree.
pub open spec fn sort_mode_of(s: Seq<char>) -> SortMode {
    let l = lower_seq(s);
    if l == "by-state"@ || l == "state"@ {
        SortMode::ByState
    } else if l == "by-source"@ || l == "source"@ {
        SortMode::BySource
    } else if l == "by-name"@ || l == "name"@ {
        SortMode::ByName
    } else {
        SortMode::ByWorktree
    }
}

pub open spec fn sort_mode_label(m: SortMode) -> Seq<char> {
    match m {
        SortMode::ByWorktree => "by-worktree"@,
        SortMode::ByState => "by-state"@,
        SortMode::BySource => "by-source"@,
        SortMode::ByName => "by-name"@,
    }
}

impl SortMode {
    /// Parses a sort mode name.
    pub fn from_str(s: &str) -> (r: Self)
        ensures
            r == sort_mode_of(s@),
    {
        let l = lower_chars(s);
        if vec_is(&l, "by-state") || vec_is(&l, "state") {
            SortMode::ByState
        } else if vec_is(&l, "by-source") || vec_is(&l, "source") {
            SortMode::BySource
        } else if vec_is(&l, "by-name") || vec_is(&l, "name") {
            SortMode::ByName
        } else {
            SortMode::ByWorktree
        }
    }

    /// Name of the mode.
    pub fn label(self) -> (r: &'static str)
        ensures
            r@ == sort_mode_label(self),
    {
        match self {
            SortMode::ByWorktree => "by-worktree",
            SortMode::ByState => "by-state",
            SortMode::BySource => "by-source",
            SortMode::ByName => "by-name",
        }
    }
}

/// Metrics time window.
#[derive(Debug, Clone, Copy, PartialEq, Eq, Structural)]
pub enum MetricsWindow {
    FiveMin,
    ThirtyMin,
    OneHour,
}

pub open spec fn window_ms(w: MetricsWindow) -> int {
    match w {
        MetricsWindow::FiveMin => 300000,
        MetricsWindow::ThirtyMin => 1800000,
        MetricsWindow::OneHour => 3600000,
    }
}

pub open spec fn window_buckets(w: MetricsWindow) -> (int, int) {
    match w {
        MetricsWindow::FiveMin => (10, 30000),
        MetricsWindow::ThirtyMin => (30, 60000),
        MetricsWindow::OneHour => (60, 60000),
    }
}

pub open spec fn window_next(w: MetricsWindow) -> MetricsWindow {
    match w {
        MetricsWindow::FiveMin => MetricsWindow::ThirtyMin,
        MetricsWindow::ThirtyMin => MetricsWindow::OneHour,
        MetricsWindow::OneHour => MetricsWindow::FiveMin,
    }
}

impl MetricsWindow {
    /// Window length in milliseconds.
    pub fn as_ms(&self) -> (r: i64)
        ensures
            r as int == window_ms(*self),
    {
        match self {
            MetricsWindow::FiveMin => 300000,
            MetricsWindow::ThirtyMin => 1800000,
            MetricsWindow::OneHour => 3600000,
        }
    }

    /// Short label.
    pub fn as_label(&self) -> (r: &'static str)
        ensures
            r@ == (match *self {
                MetricsWindow::FiveMin => "5m"@,
                MetricsWindow::ThirtyMin => "30m"@,
                MetricsWindow::OneHour => "1h"@,
            }),
    {
        match self {
            MetricsWindow::FiveMin => "5m",
            MetricsWindow::ThirtyMin => "30m",
            MetricsWindow::OneHour => "1h",
        }
    }

    /// The next window in the 5m → 30m → 1h → 5m cycle.
    pub fn cycle(&self) -> (r: Self)
        ensures
            r == window_next(*self),
    {
        match self {
            MetricsWindow::FiveMin => MetricsWindow::ThirtyMin,
            MetricsWindow::ThirtyMin => MetricsWindow::OneHour,
            MetricsWindow::OneHour => MetricsWindow::FiveMin,
        }
    }

    /// (bucket count, bucket length in ms) of the timeline.
    pub fn buckets(&self) -> (r: (usize, i64))
        ensures
            (r.0 as int, r.1 as int) == window_buckets(*self),
    {
        match self {
            MetricsWindow::FiveMin => (10, 30000),
            MetricsWindow::ThirtyMin => (30, 60000),
            MetricsWindow::OneHour => (60, 60000),
        }
    }
}

/// Going round the window cycle three times returns to the start, and each
/// window's buckets exactly cover it.
pub proof fn law_window_cycle(w: MetricsWindow)
    ensures
        window_next(window_next(window_next(w))) == w,
        window_buckets(w).0 * window_buckets(w).1 == window_ms(w),
{
}

} // verus!
