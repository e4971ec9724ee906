//! Run-time UI state of the dashboard that the library decides on: tabs,
//! focus, cursor, input line, overlays, toasts and the connection state of
//! the control socket. The data lives in the model; this is how it is shown.
use vstd::prelude::*;
use crate::keys::KeyPress;
use crate::model::{MetricsWindow, EventCategory, EventSeverity, now_ms};
use crate::strmap::StrSet;

verus! {

/// A tab of the dashboard.
#[derive(Debug, Clone, Copy, PartialEq, Eq, Structural)]
pub enum Tab {
    Directory,
    Groups,
    Messages,
}

/// Position of a tab in display order.
pub open spec fn tab_index(t: Tab) -> int {
    match t {
        Tab::Directory => 0,
        Tab::Groups => 1,
        Tab::Messages => 2,
    }
}

/// The tab after `t` in display order, wrapping around.
pub open spec fn next_tab(t: Tab) -> Tab {
    match t {
        Tab::Directory => Tab::Groups,
        Tab::Groups => Tab::Messages,
        Tab::Messages => Tab::Directory,
    }
}

impl Tab {
    /// Label shown on the tab bar.
    pub fn label(self) -> (r: &'static str)
        ensures
            r@ == (match self {
                Tab::Directory => "Directory"@,
                Tab::Groups => "Groups"@,
                Tab::Messages => "Messages"@,
            }),
    {
        match self {
            Tab::Directory => "Directory",
            Tab::Groups => "Groups",
            Tab::Messages => "Messages",
        }
    }

    /// The next tab, wrapping around.
    pub fn next(self) -> (r: Tab)
        ensures
            r == next_tab(self),
            tab_index(r) == (tab_index(self) + 1) % 3,
    {
        match self {
            Tab::Directory => Tab::Groups,
            Tab::Groups => Tab::Messages,
            Tab::Messages => Tab::Directory,
        }
    }
}

/// Cycling tabs: three steps of `next` come back to the same tab, one or
/// two do not, and every tab is reached.
pub proof fn law_tab_cycle(t: Tab)
    ensures
        next_tab(next_tab(next_tab(t))) == t,
        next_tab(t) != t,
        next_tab(next_tab(t)) != t,
        forall|u: Tab| #[trigger] tab_index(u) >= 0 ==> (u == t || u == next_tab(t) || u == next_tab(next_tab(t))),
{
}

/// Where keyboard input goes.
#[derive(Debug, Clone, Copy, PartialEq, Eq, Structural)]
pub enum FocusTarget {
    Directory,
    Groups,
    Messages,
    Input,
}

/// State of the control socket.
#[derive(Debug, Clone, Copy, PartialEq, Eq, Structural)]
pub enum ConnState {
    Disconnected,
    Connected,
}

/// The list that has the focus when input mode ends on tab `t`.
pub fn focus_of_tab(t: Tab) -> (f: FocusTarget)
    ensures
        f == (match t {
            Tab::Directory => FocusTarget::Directory,
            Tab::Groups => FocusTarget::Groups,
            Tab::Messages => FocusTarget::Messages,
        }),
{
    match t {
        Tab::Directory => FocusTarget::Directory,
        Tab::Groups => FocusTarget::Groups,
        Tab::Messages => FocusTarget::Messages,
    }
}

/// The texts and lists of the run-time UI state.
#[derive(Debug)]
pub struct ShellText {
    pub input_buf: String,
    /// Toasts with the time (epoch ms) at which they were raised.
    pub toasts: Vec<(String, i64)>,
    pub palette_query: String,
    pub filter_query: Option<String>,
    /// Text shown in the output overlay (terminal output).
    pub overlay_content: Option<String>,
    /// The draft put aside while recalling history.
    pub saved_input: String,
    pub recording_buffer: Vec<KeyPress>,
    pub recording_name: String,
    /// Keys still to replay, next one first.
    pub replay_queue: Vec<KeyPress>,
    /// The agent whose note is shown (None: the list of notes).
    pub note_viewing_handle: Option<String>,
    pub note_edit_buf: String,
    pub search_query: String,
    /// Agents picked with Space.
    pub selected_set: StrSet,
    pub quickswitch_query: String,
    /// Categories the activity log is narrowed to (none: all).
    pub activity_filter_categories: Vec<EventCategory>,
    /// Severities the activity log is narrowed to (none: all).
    pub activity_filter_severity: Vec<EventSeverity>,
    pub theme_name: String,
}

/// Which overlays are open.
#[derive(Debug, Clone, Copy, PartialEq, Eq, Structural)]
pub struct Overlays {
    pub group_detail_active: bool,
    pub cheatsheet_active: bool,
    pub orch_tasks_active: bool,
    pub worktree_ps_active: bool,
    pub config_overlay_active: bool,
    pub activity_active: bool,
    pub history_overlay_active: bool,
    pub dashboard_active: bool,
    pub snippet_overlay_active: bool,
    pub rule_overlay_active: bool,
    pub macro_overlay_active: bool,
    pub views_overlay_active: bool,
    pub metrics_overlay_active: bool,
    pub note_overlay_active: bool,
    pub quick_actions_active: bool,
    pub alias_overlay_active: bool,
    pub hotkeys_overlay_active: bool,
    pub theme_overlay_active: bool,
    pub template_overlay_active: bool,
    pub sched_overlay_active: bool,
}

/// Modes that take the keyboard, and other switches.
#[derive(Debug, Clone, Copy, PartialEq, Eq, Structural)]
pub struct Flags {
    /// The command palette takes the keys.
    pub palette_active: bool,
    /// Typing narrows the directory.
    pub filter_active: bool,
    /// The global search takes the keys.
    pub search_active: bool,
    /// The quick switcher takes the keys.
    pub quickswitch_active: bool,
    /// Keys are being recorded into a macro.
    pub recording_active: bool,
    /// Only the picked agents are listed.
    pub focus_mode: bool,
    pub autocomplete_active: bool,
}

/// Selected rows of the lists inside overlays and modes.
#[derive(Debug, Clone, Copy, PartialEq, Eq, Structural)]
pub struct Cursors {
    pub palette_cursor: usize,
    pub search_cursor: usize,
    pub quick_actions_cursor: usize,
    pub quickswitch_cursor: usize,
    pub autocomplete_cursor: usize,
}

/// Run-time UI state. The drawing reads it; the update step changes it.
#[derive(Debug)]
pub struct Shell {
    pub tab: Tab,
    pub focus: FocusTarget,
    /// Index of the selected row of the current list.
    pub cursor: usize,
    pub spinner_frame: usize,
    pub conn_state: ConnState,
    /// Typing into the input line.
    pub insert_mode: bool,
    /// Terminal size (width, height).
    pub size: (u16, u16),
    pub overlay_scroll: usize,
    /// Position in the input history while recalling (None when not recalling).
    pub history_cursor: Option<usize>,
    pub metrics_window: MetricsWindow,
    /// Counter that tells stale results of earlier requests apart.
    pub generation: u64,
    pub overlays: Overlays,
    pub flags: Flags,
    pub cursors: Cursors,
    pub text: ShellText,
}

pub open spec fn no_overlays() -> Overlays {
    Overlays {
        group_detail_active: false, cheatsheet_active: false, orch_tasks_active: false, worktree_ps_active: false,
        config_overlay_active: false, activity_active: false, history_overlay_active: false, dashboard_active: false,
        snippet_overlay_active: false, rule_overlay_active: false, macro_overlay_active: false, views_overlay_active: false,
        metrics_overlay_active: false, note_overlay_active: false, quick_actions_active: false, alias_overlay_active: false,
        hotkeys_overlay_active: false, theme_overlay_active: false, template_overlay_active: false, sched_overlay_active: false,
    }
}

impl Shell {
    pub open spec fn gen(self) -> u64 {
        self.generation
    }

    /// A shell on the directory tab with nothing open.
    pub fn new() -> (s: Self)
        ensures
            s.tab == Tab::Directory,
            s.focus == FocusTarget::Directory,
            s.cursor == 0,
            s.spinner_frame == 0,
            s.conn_state == ConnState::Connected,
            !s.insert_mode,
            s.size == (80u16, 24u16),
            s.overlay_scroll == 0,
            s.history_cursor is None,
            s.metrics_window == MetricsWindow::OneHour,
            s.gen() == 0,
            s.overlays == no_overlays(),
            s.flags == (Flags { palette_active: false, filter_active: false, search_active: false, quickswitch_active: false,
                recording_active: false, focus_mode: false, autocomplete_active: false }),
            s.cursors == (Cursors { palette_cursor: 0, search_cursor: 0, quick_actions_cursor: 0, quickswitch_cursor: 0,
                autocomplete_cursor: 0 }),
            s.text.input_buf@.len() == 0,
            s.text.toasts@.len() == 0,
            s.text.palette_query@.len() == 0,
            s.text.filter_query is None,
            s.text.overlay_content is None,
            s.text.saved_input@.len() == 0,
            s.text.recording_buffer@.len() == 0 && s.text.recording_name@.len() == 0,
            s.text.replay_queue@.len() == 0,
            s.text.note_viewing_handle is None && s.text.note_edit_buf@.len() == 0,
            s.text.search_query@.len() == 0,
            s.text.selected_set.wf() && s.text.selected_set.item_seq().len() == 0,
            s.text.quickswitch_query@.len() == 0,
            s.text.activity_filter_categories@.len() == 0 && s.text.activity_filter_severity@.len() == 0,
            s.text.theme_name@ == "default"@,
    {
        Shell {
            tab: Tab::Directory,
            focus: FocusTarget::Directory,
            cursor: 0,
            spinner_frame: 0,
            conn_state: ConnState::Connected,
            insert_mode: false,
            size: (80, 24),
            overlay_scroll: 0,
            history_cursor: None,
            metrics_window: MetricsWindow::OneHour,
            generation: 0,
            overlays: Overlays {
                group_detail_active: false, cheatsheet_active: false, orch_tasks_active: false, worktree_ps_active: false,
                config_overlay_active: false, activity_active: false, history_overlay_active: false, dashboard_active: false,
                snippet_overlay_active: false, rule_overlay_active: false, macro_overlay_active: false, views_overlay_active: false,
                metrics_overlay_active: false, note_overlay_active: false, quick_actions_active: false, alias_overlay_active: false,
                hotkeys_overlay_active: false, theme_overlay_active: false, template_overlay_active: false, sched_overlay_active: false,
            },
            flags: Flags { palette_active: false, filter_active: false, search_active: false, quickswitch_active: false,
                recording_active: false, focus_mode: false, autocomplete_active: false },
            cursors: Cursors { palette_cursor: 0, search_cursor: 0, quick_actions_cursor: 0, quickswitch_cursor: 0,
                autocomplete_cursor: 0 },
            text: ShellText {
                input_buf: String::new(),
                toasts: Vec::new(),
                palette_query: String::new(),
                filter_query: None,
                overlay_content: None,
                saved_input: String::new(),
                recording_buffer: Vec::new(),
                recording_name: String::new(),
                replay_queue: Vec::new(),
                note_viewing_handle: None,
                note_edit_buf: String::new(),
                search_query: String::new(),
                selected_set: StrSet::new(),
                quickswitch_query: String::new(),
                activity_filter_categories: Vec::new(),
                activity_filter_severity: Vec::new(),
                theme_name: "default".to_owned(),
            },
        }
    }

    /// Moves the counter on and returns its new value.
    pub fn next_generation(&mut self) -> (g: u64)
        requires
            old(self).gen() < u64::MAX,
        ensures
            g == old(self).gen() + 1,
            final(self).gen() == g,
            *final(self) == (Shell { generation: final(self).generation, ..*old(self) }),
    {
        self.generation = self.generation + 1;
        self.generation
    }

    /// The counter.
    pub fn generation(&self) -> (g: u64)
        ensures
            g == self.gen(),
    {
        self.generation
    }

    /// Raises a toast at time `now`.
    pub fn push_toast_at(&mut self, msg: String, now: i64)
        ensures
            final(self).text.toasts@ == old(self).text.toasts@.push((msg, now)),
            *final(self) == (Shell { text: ShellText { toasts: final(self).text.toasts, ..old(self).text }, ..*old(self) }),
    {
        self.text.toasts.push((msg, now));
    }

    /// Raises a toast now.
    pub fn push_toast(&mut self, msg: String)
        ensures
            final(self).text.toasts@.len() == old(self).text.toasts@.len() + 1,
            final(self).text.toasts@.drop_last() == old(self).text.toasts@,
            final(self).text.toasts@.last().0 == msg,
            *final(self) == (Shell { text: ShellText { toasts: final(self).text.toasts, ..old(self).text }, ..*old(self) }),
    {
        let now = now_ms();
        self.push_toast_at(msg, now);
        assert(self.text.toasts@.drop_last() =~= old(self).text.toasts@);
    }

    /// Drops the toasts that at time `now` are `max_age_secs` seconds old or
    /// older, keeping the others in order.
    pub fn drain_toasts_at(&mut self, max_age_secs: u64, now: i64)
        ensures
            final(self).text.toasts@ == kept_toasts(old(self).text.toasts@, max_age_secs, now),
            *final(self) == (Shell { text: ShellText { toasts: final(self).text.toasts, ..old(self).text }, ..*old(self) }),
    {
        let ghost all = self.text.toasts@;
        let mut kept: Vec<(String, i64)> = Vec::new();
        let mut rest: Vec<(String, i64)> = Vec::new();
        std::mem::swap(&mut rest, &mut self.text.toasts);
        let n = rest.len();
        let mut i: usize = 0;
        while i < n
            invariant
                n == all.len(),
                i <= n,
                rest@ == all.skip(i as int),
                kept@ == all.take(i as int).filter(|t: (String, i64)| fresh(t.1, max_age_secs, now)),
            decreases n - i,
        {
            let t = rest.remove(0);
            assert(t == all[i as int]);
            assert(rest@ =~= all.skip(i as int + 1));
            proof {
                assert(all.take(i as int + 1).drop_last() =~= all.take(i as int));
                reveal(Seq::filter);
                assert(all.take(i as int + 1).last() == all[i as int]);
            }
            if is_fresh(t.1, max_age_secs, now) {
                kept.push(t);
            }
            i += 1;
        }
        assert(all.take(n as int) =~= all);
        self.text.toasts = kept;
    }

    /// Drops the toasts that are `max_age_secs` seconds old or older now.
    pub fn drain_toasts(&mut self, max_age_secs: u64)
        ensures
            exists|now: i64| final(self).text.toasts@ == #[trigger] kept_toasts(old(self).text.toasts@, max_age_secs, now),
            *final(self) == (Shell { text: ShellText { toasts: final(self).text.toasts, ..old(self).text }, ..*old(self) }),
    {
        let now = now_ms();
        self.drain_toasts_at(max_age_secs, now);
    }
}

/// The toasts of `ts` still shown at `now`, in order.
pub open spec fn kept_toasts(ts: Seq<(String, i64)>, max_age_secs: u64, now: i64) -> Seq<(String, i64)> {
    ts.filter(|t: (String, i64)| fresh(t.1, max_age_secs, now))
}

/// A toast raised at `at` is still shown at `now`: it is less than
/// `max_age_secs` seconds old.
pub open spec fn fresh(at: i64, max_age_secs: u64, now: i64) -> bool {
    (now as int) - (at as int) < (max_age_secs as int) * 1000
}

fn is_fresh(at: i64, max_age_secs: u64, now: i64) -> (r: bool)
    ensures
        r == fresh(at, max_age_secs, now),
{
    ((now as i128) - (at as i128)) < (max_age_secs as i128) * 1000
}

} // verus!
