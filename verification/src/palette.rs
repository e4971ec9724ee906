//! What the commands of the palette do, and the keys of the palette.
use vstd::prelude::*;
use crate::keys::{KeyPress, KeyCode};
use crate::store::Model;
use crate::shell::{Shell, ShellText, Tab, Overlays, Flags, Cursors, FocusTarget, focus_of_tab};
use crate::update::Cmd;
use crate::line::{toasted, focus_of};
use crate::keymap::{is_plain, plain, typed, typed_of, selected_is, selected_handle, prefilled, prefill, raise_text,
    prefix_bytes, prefix_of_bytes, OverlayKind, overlay_set, drop_last_char, pop_text};
use crate::router::{tasks_opened, worktrees_opened};
use crate::command::{Command, command_catalog, commands_matching, builtin_commands, filter_commands};
use crate::select::{rank, selected_group_name};
use crate::text::{concat, decimal, u64_to_string, views, push_char, str_eq};
use crate::model::opt_view;
use crate::strmap::StrSet;

verus! {

broadcast use vstd::string::group_string_axioms;

/// What a command of the palette does.
#[derive(Debug, Clone, Copy)]
pub enum Action {
    /// Switch to the selected agent's terminal.
    SwitchTo,
    /// Input mode with the text, the selected agent and a space.
    PrefillAgent(&'static str),
    /// Go to a tab.
    JumpTab(Tab),
    /// Refresh agents, status, messages and unread counts.
    RefreshAll,
    /// Filter the directory.
    Filter,
    Quit,
    /// Show the selected agent's handle.
    Yank,
    /// Reply to the selected message.
    Reply,
    /// Show the orchestration tasks.
    Tasks,
    /// Input mode with a message to all picked agents.
    BatchSend,
    /// Close the terminals of all picked agents.
    BatchClose,
    /// Forget the picked agents.
    ClearSelection,
    /// Use the theme.
    Theme(&'static str),
    /// Close the selected agent's terminal.
    CloseAgent,
    /// Read the selected agent's terminal.
    ReadAgent,
    /// Show the worktree summary.
    Worktrees,
    /// Open an overlay at its top.
    Show(OverlayKind),
    /// Open the global search.
    Search,
    /// Input mode with the text.
    Prefill(&'static str),
    /// Start an agent in a new terminal.
    Spawn(&'static str),
    /// Input mode with the text and the selected group (and a space when
    /// the flag is set).
    PrefillGroup(&'static str, bool),
    /// Show the configuration.
    Config,
    /// Sort the directory.
    Sort(&'static str),
}

/// The actions of the commands, in palette order.
pub open spec fn action_catalog() -> Seq<Action> {
    seq![
        Action::SwitchTo,
        Action::PrefillAgent("to:"),
        Action::JumpTab(Tab::Directory),
        Action::JumpTab(Tab::Groups),
        Action::JumpTab(Tab::Messages),
        Action::RefreshAll,
        Action::Filter,
        Action::PrefillAgent("pty:"),
        Action::CloseAgent,
        Action::PrefillAgent("rename:"),
        Action::ReadAgent,
        Action::Worktrees,
        Action::Prefill("create:"),
        Action::Spawn("codex"),
        Action::Spawn("pi"),
        Action::Prefill("group:"),
        Action::Prefill("join:"),
        Action::PrefillGroup("leave:", false),
        Action::PrefillGroup("broadcast:", true),
        Action::Config,
        Action::Prefill("config:"),
        Action::Reply,
        Action::Tasks,
        Action::BatchSend,
        Action::BatchClose,
        Action::ClearSelection,
        Action::Theme("mocha"),
        Action::Theme("light"),
        Action::Theme("contrast"),
        Action::Quit,
        Action::Sort("by-worktree"),
        Action::Sort("by-state"),
        Action::Sort("by-source"),
        Action::Sort("by-name"),
        Action::Yank,
        Action::Show(OverlayKind::Activity),
        Action::Show(OverlayKind::History),
        Action::Search,
        Action::Show(OverlayKind::Dashboard),
        Action::Prefill("snip:"),
        Action::Prefill("run:"),
        Action::Show(OverlayKind::Snippets),
        Action::Prefill("rule:add "),
        Action::Show(OverlayKind::Rules),
        Action::Prefill("macro:record:"),
        Action::Prefill("macro:run:"),
        Action::Show(OverlayKind::Macros),
        Action::Prefill("view:save:"),
        Action::Prefill("note:"),
        Action::Show(OverlayKind::Views),
        Action::Prefill("alias:"),
        Action::Prefill("hotkey:")
    ]
}

/// The actions of the commands, in palette order.
#[verifier::spinoff_prover]
#[verifier::rlimit(60)]
pub fn command_actions() -> (r: Vec<Action>)
    ensures
        r@ == action_catalog(),
{
    let r = vec![
        Action::SwitchTo,
        Action::PrefillAgent("to:"),
        Action::JumpTab(Tab::Directory),
        Action::JumpTab(Tab::Groups),
        Action::JumpTab(Tab::Messages),
        Action::RefreshAll,
        Action::Filter,
        Action::PrefillAgent("pty:"),
        Action::CloseAgent,
        Action::PrefillAgent("rename:"),
        Action::ReadAgent,
        Action::Worktrees,
        Action::Prefill("create:"),
        Action::Spawn("codex"),
        Action::Spawn("pi"),
        Action::Prefill("group:"),
        Action::Prefill("join:"),
        Action::PrefillGroup("leave:", false),
        Action::PrefillGroup("broadcast:", true),
        Action::Config,
        Action::Prefill("config:"),
        Action::Reply,
        Action::Tasks,
        Action::BatchSend,
        Action::BatchClose,
        Action::ClearSelection,
        Action::Theme("mocha"),
        Action::Theme("light"),
        Action::Theme("contrast"),
        Action::Quit,
        Action::Sort("by-worktree"),
        Action::Sort("by-state"),
        Action::Sort("by-source"),
        Action::Sort("by-name"),
        Action::Yank,
        Action::Show(OverlayKind::Activity),
        Action::Show(OverlayKind::History),
        Action::Search,
        Action::Show(OverlayKind::Dashboard),
        Action::Prefill("snip:"),
        Action::Prefill("run:"),
        Action::Show(OverlayKind::Snippets),
        Action::Prefill("rule:add "),
        Action::Show(OverlayKind::Rules),
        Action::Prefill("macro:record:"),
        Action::Prefill("macro:run:"),
        Action::Show(OverlayKind::Macros),
        Action::Prefill("view:save:"),
        Action::Prefill("note:"),
        Action::Show(OverlayKind::Views),
        Action::Prefill("alias:"),
        Action::Prefill("hotkey:")
    ];
    assert(r@ =~= action_catalog());
    r
}

/// Position of the first command named `name` in `cs`.
pub open spec fn name_index(cs: Seq<Command>, name: Seq<char>) -> Option<int>
    decreases cs.len(),
{
    if cs.len() == 0 {
        None
    } else {
        match name_index(cs.drop_last(), name) {
            Some(i) => Some(i),
            None => if cs.last().name@ == name { Some(cs.len() - 1) } else { None },
        }
    }
}

/// The action bound to the command named `name`.
pub open spec fn action_named(name: Seq<char>) -> Option<Action> {
    match name_index(command_catalog(), name) {
        Some(i) => Some(action_catalog()[i]),
        None => None,
    }
}

proof fn lemma_name_index_stable(cs: Seq<Command>, name: Seq<char>, i: int, j: int)
    requires
        0 <= i < j <= cs.len(),
        name_index(cs.take(i + 1), name) == Some(i),
    ensures
        name_index(cs.take(j), name) == Some(i),
    decreases j - i,
{
    if j > i + 1 {
        lemma_name_index_stable(cs, name, i, j - 1);
        assert(cs.take(j).drop_last() =~= cs.take(j - 1));
    }
}

/// The action bound to the command named `name`.
pub fn action_for(name: &str) -> (r: Option<Action>)
    ensures
        r == action_named(name@),
{
    let cs = builtin_commands();
    let acts = command_actions();
    proof { reveal_with_fuel(name_index, 1); }
    assert(cs@.len() == acts@.len());
    let mut i: usize = 0;
    assert(cs@.take(0) =~= Seq::<Command>::empty());
    while i < cs.len()
        invariant
            i <= cs.len(),
            cs@ == command_catalog(),
            acts@ == action_catalog(),
            cs@.len() == acts@.len(),
            name_index(cs@.take(i as int), name@) is None,
        decreases cs.len() - i,
    {
        assert(cs@.take(i as int + 1).drop_last() =~= cs@.take(i as int));
        if str_eq(cs[i].name, name) {
            proof {
                lemma_name_index_stable(cs@, name@, i as int, cs@.len() as int);
                assert(cs@.take(cs@.len() as int) =~= cs@);
            }
            return Some(acts[i]);
        }
        i += 1;
    }
    assert(cs@.take(cs@.len() as int) =~= cs@);
    None
}

// ──── what each action does ────

/// Items joined by `sep`.
pub open spec fn joined_by(s: Seq<Seq<char>>, sep: Seq<char>) -> Seq<char>
    decreases s.len(),
{
    if s.len() == 0 {
        Seq::empty()
    } else if s.len() == 1 {
        s[0]
    } else {
        joined_by(s.drop_last(), sep) + sep + s.last()
    }
}

fn join_with(items: &Vec<String>, sep: &str) -> (r: String)
    ensures
        r@ == joined_by(views(items@), sep@),
{
    let ghost v = views(items@);
    let mut out = String::new();
    let mut i: usize = 0;
    while i < items.len()
        invariant
            i <= items.len(),
            v == views(items@),
            out@ == joined_by(v.take(i as int), sep@),
        decreases items.len() - i,
    {
        assert(v.take(i as int + 1).drop_last() =~= v.take(i as int));
        if i == 0 {
            out = items[0].clone();
        } else {
            out = concat(out.as_str(), sep);
            out = concat(out.as_str(), items[i].as_str());
        }
        i += 1;
    }
    assert(v.take(items.len() as int) =~= v);
    out
}

/// The group under the cursor, when the groups tab is shown.
pub open spec fn group_pick(m: Model, s: Shell, g: Option<Seq<char>>) -> bool {
    if s.tab != Tab::Groups {
        g is None
    } else {
        match g {
            Some(n) => m.groups.key_seq().contains(n) && rank(m.groups.key_seq(), n) == s.cursor,
            None => forall|i: int| 0 <= i < m.groups.key_seq().len()
                ==> rank(m.groups.key_seq(), #[trigger] m.groups.key_seq()[i]) != s.cursor,
        }
    }
}

/// The worktree of agent `h` in the directory, if it is there.
pub open spec fn worktree_of(m: Model, h: Option<Seq<char>>) -> Option<Seq<char>> {
    match h {
        Some(h) => if m.directory.map().dom().contains(h) { Some(m.directory.map()[h].worktree_id@) } else { None },
        None => None,
    }
}

pub open spec fn selection_cleared(s: Shell, s1: Shell) -> bool {
    &&& s1 == (Shell { text: ShellText { selected_set: s1.text.selected_set, ..s.text }, ..s })
    &&& s1.text.selected_set.wf() && s1.text.selected_set.item_seq().len() == 0
}

pub open spec fn agent_action(m: Model, s: Shell, a: Action, now: i64, s2: Shell, cs: Seq<Cmd>) -> bool {
    exists|h: Option<Seq<char>>| #[trigger] selected_is(m, s, now, h) && match h {
        Some(h) => match a {
            Action::SwitchTo => toasted(s, seq!["switching to "@ + prefix_bytes(h, 20)], now, s2) && cs.len() == 1
                && (cs[0] matches Cmd::SwitchTerminal { handle } && handle@ == h),
            Action::PrefillAgent(p) => prefilled(s, p@ + h + " "@, s2) && cs.len() == 0,
            Action::Yank => toasted(s, seq!["Yanked: "@ + h], now, s2) && cs.len() == 0,
            Action::CloseAgent => toasted(s, seq!["closing "@ + h], now, s2) && cs.len() == 1
                && (cs[0] matches Cmd::CloseTerminal { handle } && handle@ == h),
            _ => s2 == s && cs.len() == 1 && (cs[0] matches Cmd::ReadTerminal { handle } && handle@ == h),
        },
        None => match a {
            Action::Yank => s2 == s && cs.len() == 0,
            _ => toasted(s, seq!["No agent selected"@], now, s2) && cs.len() == 0,
        },
    }
}

pub open spec fn picked_action(s: Shell, a: Action, now: i64, s2: Shell, cs: Seq<Cmd>) -> bool {
    let items = s.text.selected_set.item_seq();
    let n = items.len();
    match a {
        Action::BatchSend => if n == 0 {
            toasted(s, seq!["No agents selected (Space to select)"@], now, s2) && cs.len() == 0
        } else {
            prefilled(s, "batch:"@ + joined_by(items, ","@) + " "@, s2) && cs.len() == 0
        },
        Action::BatchClose => if n == 0 {
            toasted(s, seq!["No agents selected"@], now, s2) && cs.len() == 0
        } else {
            exists|s1: Shell| #[trigger] selection_cleared(s, s1) && toasted(s1, seq!["Closing "@ + decimal(n) + " terminals..."@], now, s2)
                && cs.len() == n && forall|i: int| 0 <= i < n ==> (#[trigger] cs[i] matches Cmd::CloseTerminal { handle } && handle@ == items[i])
        },
        _ => exists|s1: Shell| #[trigger] selection_cleared(s, s1) && toasted(s1, seq!["Cleared "@ + decimal(n) + " selections"@], now, s2)
            && cs.len() == 0,
    }
}

pub open spec fn setting_action(s: Shell, a: Action, now: i64, s2: Shell, cs: Seq<Cmd>) -> bool {
    match a {
        Action::Theme(t) => s2 == (Shell { text: ShellText { theme_name: s2.text.theme_name, ..s.text }, ..s })
            && s2.text.theme_name@ == t@
            && cs.len() == 1 && (cs[0] matches Cmd::SetConfig { key, value } && key@ == "theme"@ && value@ == t@),
        Action::Sort(v) => toasted(s, seq!["Sort: "@ + v@], now, s2)
            && cs.len() == 1 && (cs[0] matches Cmd::SetConfig { key, value } && key@ == "sort"@ && value@ == v@),
        _ => false,
    }
}

pub open spec fn search_opened(s: Shell, s2: Shell) -> bool {
    &&& s2 == (Shell { flags: Flags { search_active: true, ..s.flags }, cursors: Cursors { search_cursor: 0, ..s.cursors },
        text: ShellText { search_query: s2.text.search_query, ..s.text }, ..s })
    &&& s2.text.search_query@.len() == 0
}

pub open spec fn view_action(m: Model, s: Shell, a: Action, now: i64, s2: Shell, cs: Seq<Cmd>) -> bool {
    match a {
        Action::JumpTab(t) => s2 == (Shell { tab: t, cursor: 0, focus: focus_of(t), ..s }) && cs.len() == 0,
        Action::RefreshAll => s2 == s && cs.len() == 4 && cs[0] is RefreshAgents && cs[1] is RefreshStatus
            && cs[2] is DrainMessages && cs[3] is RefreshUnread,
        Action::Filter => s2 == (Shell { tab: Tab::Directory, focus: FocusTarget::Directory, flags: Flags { filter_active: true, ..s.flags },
                text: ShellText { filter_query: s2.text.filter_query, ..s.text }, ..s })
            && opt_view(s2.text.filter_query) == Some(Seq::<char>::empty()) && cs.len() == 0,
        Action::Quit => s2 == s && cs.len() == 1 && cs[0] is Quit,
        Action::Reply => toasted(Shell { tab: Tab::Messages, focus: FocusTarget::Messages, ..s }, seq!["No message selected"@], now, s2)
            && cs.len() == 0,
        Action::Tasks => tasks_opened(s, s2) && cs.len() == 1 && cs[0] is RefreshOrchTasks,
        Action::Worktrees => worktrees_opened(s, s2) && cs.len() == 1 && cs[0] is RefreshWorktreePs,
        Action::Show(o) => s2 == (Shell { overlays: overlay_set(s.overlays, o, true), overlay_scroll: 0, ..s }) && cs.len() == 0,
        Action::Search => search_opened(s, s2) && cs.len() == 0,
        Action::Prefill(p) => prefilled(s, p@, s2) && cs.len() == 0,
        Action::Config => s2 == (Shell { overlays: Overlays { config_overlay_active: true, ..s.overlays }, ..s }) && cs.len() == 0,
        Action::Spawn(c) => exists|h: Option<Seq<char>>| #[trigger] selected_is(m, s, now, h)
            && toasted(s, seq!["spawning "@ + c@ + "..."@], now, s2) && cs.len() == 1
            && (cs[0] matches Cmd::CreateTerminal { worktree, command, title }
                && opt_view(worktree) == worktree_of(m, h) && command@ == c@ && opt_view(title) == Some(c@)),
        Action::PrefillGroup(p, space) => exists|g: Option<Seq<char>>| #[trigger] group_pick(m, s, g) && cs.len() == 0 && match g {
            Some(n) => prefilled(s, p@ + n + (if space { " "@ } else { Seq::<char>::empty() }), s2),
            None => toasted(s, seq!["No group selected"@], now, s2),
        },
        _ => false,
    }
}

/// What action `a` does. The model is only read.
pub open spec fn action_effect(m: Model, s: Shell, a: Action, now: i64, s2: Shell, cs: Seq<Cmd>) -> bool {
    match a {
        Action::SwitchTo | Action::PrefillAgent(_) | Action::Yank | Action::CloseAgent | Action::ReadAgent =>
            agent_action(m, s, a, now, s2, cs),
        Action::BatchSend | Action::BatchClose | Action::ClearSelection => picked_action(s, a, now, s2, cs),
        Action::Theme(_) | Action::Sort(_) => setting_action(s, a, now, s2, cs),
        _ => view_action(m, s, a, now, s2, cs),
    }
}

// ──── the actions carried out ────

fn agent_run(model: &Model, shell: &mut Shell, a: Action, now: i64) -> (cs: Vec<Cmd>)
    requires
        model.wf(),
        a is SwitchTo || a is PrefillAgent || a is Yank || a is CloseAgent || a is ReadAgent,
    ensures
        agent_action(*model, *old(shell), a, now, *final(shell), cs@),
{
    match selected_handle(model, shell, now) {
        Some(h) => match a {
            Action::SwitchTo => {
                let p = prefix_of_bytes(h.as_str(), 20);
                raise_text(shell, concat("switching to ", p.as_str()), now);
                vec![Cmd::SwitchTerminal { handle: h }]
            },
            Action::PrefillAgent(p) => {
                prefill(shell, p, h.as_str(), " ");
                Vec::new()
            },
            Action::Yank => {
                raise_text(shell, concat("Yanked: ", h.as_str()), now);
                Vec::new()
            },
            Action::CloseAgent => {
                raise_text(shell, concat("closing ", h.as_str()), now);
                vec![Cmd::CloseTerminal { handle: h }]
            },
            _ => vec![Cmd::ReadTerminal { handle: h }],
        },
        None => match a {
            Action::Yank => Vec::new(),
            _ => {
                raise_text(shell, "No agent selected".to_owned(), now);
                Vec::new()
            },
        },
    }
}

fn clear_picked(shell: &mut Shell) -> (items: Vec<String>)
    ensures
        selection_cleared(*old(shell), *final(shell)),
        views(items@) == old(shell).text.selected_set.item_seq(),
{
    let mut set = StrSet::new();
    std::mem::swap(&mut set, &mut shell.text.selected_set);
    let items = set.items;
    assert(views(items@) =~= set.item_seq());
    items
}

fn picked_run(shell: &mut Shell, a: Action, now: i64) -> (cs: Vec<Cmd>)
    requires
        a is BatchSend || a is BatchClose || a is ClearSelection,
    ensures
        picked_action(*old(shell), a, now, *final(shell), cs@),
{
    let n = shell.text.selected_set.len();
    match a {
        Action::BatchSend => {
            if n == 0 {
                raise_text(shell, "No agents selected (Space to select)".to_owned(), now);
            } else {
                assert(views(shell.text.selected_set.items@) =~= shell.text.selected_set.item_seq());
                let list = join_with(&shell.text.selected_set.items, ",");
                prefill(shell, "batch:", list.as_str(), " ");
            }
            Vec::new()
        },
        Action::BatchClose => {
            if n == 0 {
                raise_text(shell, "No agents selected".to_owned(), now);
                return Vec::new();
            }
            let ghost s0 = *shell;
            let items = clear_picked(shell);
            let ghost s1 = *shell;
            let a1 = concat("Closing ", u64_to_string(n as u64).as_str());
            raise_text(shell, concat(a1.as_str(), " terminals..."), now);
            let mut cs: Vec<Cmd> = Vec::new();
            let mut i: usize = 0;
            while i < items.len()
                invariant
                    i <= items.len(),
                    cs@.len() == i,
                    forall|j: int| 0 <= j < i ==> (#[trigger] cs@[j] matches Cmd::CloseTerminal { handle } && handle@ == items@[j]@),
                decreases items.len() - i,
            {
                cs.push(Cmd::CloseTerminal { handle: items[i].clone() });
                i += 1;
            }
            assert(selection_cleared(s0, s1));
            cs
        },
        _ => {
            let ghost s0 = *shell;
            let _items = clear_picked(shell);
            let ghost s1 = *shell;
            let a1 = concat("Cleared ", u64_to_string(n as u64).as_str());
            raise_text(shell, concat(a1.as_str(), " selections"), now);
            assert(selection_cleared(s0, s1));
            Vec::new()
        },
    }
}

fn setting_run(shell: &mut Shell, a: Action, now: i64) -> (cs: Vec<Cmd>)
    requires
        a is Theme || a is Sort,
    ensures
        setting_action(*old(shell), a, now, *final(shell), cs@),
{
    match a {
        Action::Theme(t) => {
            shell.text.theme_name = t.to_owned();
            vec![Cmd::SetConfig { key: "theme".to_owned(), value: t.to_owned() }]
        },
        Action::Sort(v) => {
            raise_text(shell, concat("Sort: ", v), now);
            vec![Cmd::SetConfig { key: "sort".to_owned(), value: v.to_owned() }]
        },
        _ => Vec::new(),
    }
}

fn worktree_for(model: &Model, h: &Option<String>) -> (r: Option<String>)
    requires
        model.wf(),
    ensures
        opt_view(r) == worktree_of(*model, opt_view(*h)),
{
    match h {
        Some(h) => match model.directory.get(h.as_str()) {
            Some(a) => Some(a.worktree_id.clone()),
            None => None,
        },
        None => None,
    }
}

fn spawn_run(model: &Model, shell: &mut Shell, c: &'static str, now: i64) -> (cs: Vec<Cmd>)
    requires
        model.wf(),
    ensures
        view_action(*model, *old(shell), Action::Spawn(c), now, *final(shell), cs@),
{
    let h = selected_handle(model, shell, now);
    let w = worktree_for(model, &h);
    let a1 = concat("spawning ", c);
    raise_text(shell, concat(a1.as_str(), "..."), now);
    let cmd = Cmd::CreateTerminal { worktree: w, command: c.to_owned(), title: Some(c.to_owned()) };
    assert(selected_is(*model, *old(shell), now, opt_view(h)));
    vec![cmd]
}

fn group_run(model: &Model, shell: &mut Shell, p: &'static str, space: bool, now: i64) -> (cs: Vec<Cmd>)
    requires
        model.wf(),
    ensures
        view_action(*model, *old(shell), Action::PrefillGroup(p, space), now, *final(shell), cs@),
{
    let g = selected_group_name(model, shell.tab == Tab::Groups, shell.cursor);
    assert(group_pick(*model, *old(shell), opt_view(g)));
    match g {
        Some(n) => {
            let tail = if space { " " } else { "" };
            proof { reveal_strlit(""); }
            prefill(shell, p, n.as_str(), tail);
        },
        None => raise_text(shell, "No group selected".to_owned(), now),
    }
    Vec::new()
}

fn jump_run(shell: &mut Shell, t: Tab)
    ensures
        *final(shell) == (Shell { tab: t, cursor: 0, focus: focus_of(t), ..*old(shell) }),
{
    shell.tab = t;
    shell.cursor = 0;
    shell.focus = focus_of_tab(t);
}

fn filter_run(shell: &mut Shell)
    ensures
        *final(shell) == (Shell { tab: Tab::Directory, focus: FocusTarget::Directory, flags: Flags { filter_active: true, ..old(shell).flags },
            text: ShellText { filter_query: final(shell).text.filter_query, ..old(shell).text }, ..*old(shell) }),
        opt_view(final(shell).text.filter_query) == Some(Seq::<char>::empty()),
{
    shell.tab = Tab::Directory;
    shell.focus = FocusTarget::Directory;
    shell.flags = Flags { filter_active: true, ..shell.flags };
    shell.text.filter_query = Some(String::new());
}

fn search_run(shell: &mut Shell)
    ensures
        search_opened(*old(shell), *final(shell)),
{
    shell.flags = Flags { search_active: true, ..shell.flags };
    shell.cursors = Cursors { search_cursor: 0, ..shell.cursors };
    shell.text.search_query = String::new();
}

fn show_run(shell: &mut Shell, o: OverlayKind)
    ensures
        *final(shell) == (Shell { overlays: overlay_set(old(shell).overlays, o, true), overlay_scroll: 0, ..*old(shell) }),
{
    let v = true;
    let os = shell.overlays;
    let o2 = match o {
        OverlayKind::Activity => Overlays { activity_active: v, ..os },
        OverlayKind::History => Overlays { history_overlay_active: v, ..os },
        OverlayKind::Dashboard => Overlays { dashboard_active: v, ..os },
        OverlayKind::Snippets => Overlays { snippet_overlay_active: v, ..os },
        OverlayKind::Rules => Overlays { rule_overlay_active: v, ..os },
        OverlayKind::Macros => Overlays { macro_overlay_active: v, ..os },
        OverlayKind::Views => Overlays { views_overlay_active: v, ..os },
        OverlayKind::Metrics => Overlays { metrics_overlay_active: v, ..os },
        OverlayKind::Aliases => Overlays { alias_overlay_active: v, ..os },
        OverlayKind::Hotkeys => Overlays { hotkeys_overlay_active: v, ..os },
        OverlayKind::Theme => Overlays { theme_overlay_active: v, ..os },
    };
    shell.overlays = o2;
    shell.overlay_scroll = 0;
}

fn reply_run(shell: &mut Shell, now: i64)
    ensures
        toasted(Shell { tab: Tab::Messages, focus: FocusTarget::Messages, ..*old(shell) }, seq!["No message selected"@], now, *final(shell)),
{
    shell.tab = Tab::Messages;
    shell.focus = FocusTarget::Messages;
    raise_text(shell, "No message selected".to_owned(), now);
}

fn config_run(shell: &mut Shell)
    ensures
        *final(shell) == (Shell { overlays: Overlays { config_overlay_active: true, ..old(shell).overlays }, ..*old(shell) }),
{
    shell.overlays = Overlays { config_overlay_active: true, ..shell.overlays };
}

pub(crate) fn prefill_text(shell: &mut Shell, p: &str)
    ensures
        prefilled(*old(shell), p@, *final(shell)),
{
    shell.insert_mode = true;
    shell.focus = FocusTarget::Input;
    shell.text.input_buf = p.to_owned();
}

fn tasks_run(shell: &mut Shell)
    ensures
        tasks_opened(*old(shell), *final(shell)),
{
    shell.overlays = Overlays { orch_tasks_active: true, ..shell.overlays };
    shell.overlay_scroll = 0;
}

fn worktrees_run(shell: &mut Shell)
    ensures
        worktrees_opened(*old(shell), *final(shell)),
{
    shell.overlays = Overlays { worktree_ps_active: true, ..shell.overlays };
}

#[verifier::spinoff_prover]
fn view_run(model: &Model, shell: &mut Shell, a: Action, now: i64) -> (cs: Vec<Cmd>)
    requires
        model.wf(),
        !(a is SwitchTo || a is PrefillAgent || a is Yank || a is CloseAgent || a is ReadAgent
            || a is BatchSend || a is BatchClose || a is ClearSelection || a is Theme || a is Sort),
    ensures
        view_action(*model, *old(shell), a, now, *final(shell), cs@),
{
    match a {
        Action::JumpTab(t) => { jump_run(shell, t); Vec::new() },
        Action::RefreshAll => vec![Cmd::RefreshAgents, Cmd::RefreshStatus, Cmd::DrainMessages, Cmd::RefreshUnread],
        Action::Filter => { filter_run(shell); Vec::new() },
        Action::Quit => vec![Cmd::Quit],
        Action::Reply => { reply_run(shell, now); Vec::new() },
        Action::Tasks => { tasks_run(shell); vec![Cmd::RefreshOrchTasks] },
        Action::Worktrees => { worktrees_run(shell); vec![Cmd::RefreshWorktreePs] },
        Action::Show(o) => { show_run(shell, o); Vec::new() },
        Action::Search => { search_run(shell); Vec::new() },
        Action::Prefill(p) => { prefill_text(shell, p); Vec::new() },
        Action::Config => { config_run(shell); Vec::new() },
        Action::Spawn(c) => spawn_run(model, shell, c, now),
        Action::PrefillGroup(p, space) => group_run(model, shell, p, space, now),
        _ => Vec::new(),
    }
}

/// Carries out action `a` (see `action_effect`).
pub fn run_action(model: &Model, shell: &mut Shell, a: Action, now: i64) -> (cs: Vec<Cmd>)
    requires
        model.wf(),
        old(shell).text.selected_set.wf(),
    ensures
        final(shell).text.selected_set.wf(),
        action_effect(*model, *old(shell), a, now, *final(shell), cs@),
{
    match a {
        Action::SwitchTo | Action::PrefillAgent(_) | Action::Yank | Action::CloseAgent | Action::ReadAgent =>
            agent_run(model, shell, a, now),
        Action::BatchSend | Action::BatchClose | Action::ClearSelection => picked_run(shell, a, now),
        Action::Theme(_) | Action::Sort(_) => setting_run(shell, a, now),
        _ => view_run(model, shell, a, now),
    }
}

// ──── the keys of the palette ────

/// The palette closed, its query and cursor reset.
pub open spec fn palette_closed(s: Shell, s2: Shell) -> bool {
    &&& s2 == (Shell { flags: Flags { palette_active: false, ..s.flags }, cursors: Cursors { palette_cursor: 0, ..s.cursors },
        text: ShellText { palette_query: s2.text.palette_query, ..s.text }, ..s })
    &&& s2.text.palette_query@.len() == 0
}

/// The commands shown for the palette's query.
pub open spec fn palette_list(s: Shell) -> Seq<Command> {
    commands_matching(command_catalog(), s.text.palette_query@)
}

/// Enter in the palette: the command under the cursor is carried out and
/// the palette closes.
pub open spec fn palette_enter(m: Model, s: Shell, now: i64, s2: Shell, cs: Seq<Cmd>) -> bool {
    let list = palette_list(s);
    let i = s.cursors.palette_cursor as int;
    if i < list.len() {
        match action_named(list[i].name@) {
            Some(a) => exists|s1: Shell| #[trigger] action_effect(m, s, a, now, s1, cs) && palette_closed(s1, s2),
            None => s2 == s && cs.len() == 0,
        }
    } else {
        s2 == s && cs.len() == 0
    }
}

pub open spec fn palette_query_set(s: Shell, q: Seq<char>, s2: Shell) -> bool {
    &&& s2 == (Shell { cursors: Cursors { palette_cursor: 0, ..s.cursors }, text: ShellText { palette_query: s2.text.palette_query, ..s.text }, ..s })
    &&& s2.text.palette_query@ == q
}

/// What a key does while the palette is open.
pub open spec fn palette_effect(m: Model, s: Shell, k: KeyPress, now: i64, s2: Shell, cs: Seq<Cmd>) -> bool {
    if plain(k, KeyCode::Esc) {
        palette_closed(s, s2) && cs.len() == 0
    } else if plain(k, KeyCode::Enter) {
        palette_enter(m, s, now, s2, cs)
    } else if plain(k, KeyCode::Down) || plain(k, KeyCode::Char('j')) {
        cs.len() == 0 && s2 == (Shell { cursors: Cursors { palette_cursor: s2.cursors.palette_cursor, ..s.cursors }, ..s })
            && s2.cursors.palette_cursor == (if s.cursors.palette_cursor + 1 < palette_list(s).len() {
                s.cursors.palette_cursor + 1 } else { s.cursors.palette_cursor as int })
    } else if plain(k, KeyCode::Up) || plain(k, KeyCode::Char('k')) {
        cs.len() == 0 && s2 == (Shell { cursors: Cursors { palette_cursor: s2.cursors.palette_cursor, ..s.cursors }, ..s })
            && s2.cursors.palette_cursor == (if s.cursors.palette_cursor > 0 { s.cursors.palette_cursor - 1 } else { 0 })
    } else if plain(k, KeyCode::Backspace) {
        cs.len() == 0 && palette_query_set(s, drop_last_char(s.text.palette_query@), s2)
    } else if typed(k) is Some {
        cs.len() == 0 && palette_query_set(s, s.text.palette_query@.push(typed(k)->0), s2)
    } else {
        s2 == s && cs.len() == 0
    }
}

fn close_palette(shell: &mut Shell)
    ensures
        palette_closed(*old(shell), *final(shell)),
{
    shell.flags = Flags { palette_active: false, ..shell.flags };
    shell.cursors = Cursors { palette_cursor: 0, ..shell.cursors };
    shell.text.palette_query = String::new();
}

fn palette_run(model: &Model, shell: &mut Shell, now: i64) -> (cs: Vec<Cmd>)
    requires
        model.wf(),
        old(shell).text.selected_set.wf(),
    ensures
        final(shell).text.selected_set.wf(),
        palette_enter(*model, *old(shell), now, *final(shell), cs@),
{
    let list = filter_commands(shell.text.palette_query.as_str());
    let i = shell.cursors.palette_cursor;
    if i < list.len() {
        match action_for(list[i].name) {
            Some(a) => {
                let cs = run_action(model, shell, a, now);
                let ghost s1 = *shell;
                close_palette(shell);
                assert(action_effect(*model, *old(shell), a, now, s1, cs@));
                cs
            },
            None => Vec::new(),
        }
    } else {
        Vec::new()
    }
}

fn set_palette_query(shell: &mut Shell, q: String)
    ensures
        palette_query_set(*old(shell), q@, *final(shell)),
{
    shell.cursors = Cursors { palette_cursor: 0, ..shell.cursors };
    shell.text.palette_query = q;
}

/// What a key does while the palette is open (see `palette_effect`).
pub fn palette_key(model: &Model, shell: &mut Shell, k: KeyPress, now: i64) -> (cs: Vec<Cmd>)
    requires
        model.wf(),
        old(shell).text.selected_set.wf(),
    ensures
        final(shell).text.selected_set.wf(),
        palette_effect(*model, *old(shell), k, now, *final(shell), cs@),
{
    if is_plain(k, KeyCode::Esc) {
        close_palette(shell);
        Vec::new()
    } else if is_plain(k, KeyCode::Enter) {
        palette_run(model, shell, now)
    } else if is_plain(k, KeyCode::Down) || is_plain(k, KeyCode::Char('j')) {
        let n = filter_commands(shell.text.palette_query.as_str()).len();
        let c = shell.cursors.palette_cursor;
        if c < n && c + 1 < n {
            shell.cursors = Cursors { palette_cursor: c + 1, ..shell.cursors };
        }
        Vec::new()
    } else if is_plain(k, KeyCode::Up) || is_plain(k, KeyCode::Char('k')) {
        let c = shell.cursors.palette_cursor;
        let c2 = if c > 0 { c - 1 } else { 0 };
        shell.cursors = Cursors { palette_cursor: c2, ..shell.cursors };
        Vec::new()
    } else if is_plain(k, KeyCode::Backspace) {
        let q = pop_text(&shell.text.palette_query);
        set_palette_query(shell, q);
        Vec::new()
    } else {
        match typed_of(k) {
            Some(c) => {
                let mut q = shell.text.palette_query.clone();
                push_char(&mut q, c);
                set_palette_query(shell, q);
            },
            None => {},
        }
        Vec::new()
    }
}

} // verus!
