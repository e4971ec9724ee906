//! The keys of the overlays: closing and scrolling them, and what Enter and
//! the other letters do in each (quick actions, history, snippets, alert
//! rules, macros, views, metrics, notes).
use vstd::prelude::*;
use crate::keys::{KeyPress, KeyCode};
use crate::store::{Model, toggled, rules_without};
use crate::shell::{Shell, ShellText, Overlays, Cursors, FocusTarget};
use crate::update::Cmd;
use crate::line::{toasted, load_view_effect, load_view};
use crate::keymap::{is_plain, plain, no_mods, selected_is, selected_handle, prefilled, prefill, raise_text, drop_last_char, pop_text};
use crate::router::note_of;
use crate::select::rank;
use crate::strmap::StrMap;
use crate::model::{opt_view, window_next};
use crate::text::{concat, str_lt, push_char, chars_of, trim_vec, trim_seq, string_of};

verus! {

broadcast use vstd::string::group_string_axioms;

/// Every overlay closed (the history and group detail stay as they are),
/// the output text and the note being edited dropped.
pub open spec fn all_closed(s: Shell, s2: Shell) -> bool {
    let o = s.overlays;
    &&& s2 == (Shell { overlay_scroll: 0, overlays: Overlays { dashboard_active: false, worktree_ps_active: false,
        rule_overlay_active: false, cheatsheet_active: false, config_overlay_active: false, orch_tasks_active: false,
        activity_active: false, snippet_overlay_active: false, macro_overlay_active: false, views_overlay_active: false,
        note_overlay_active: false, metrics_overlay_active: false, quick_actions_active: false, alias_overlay_active: false,
        hotkeys_overlay_active: false, theme_overlay_active: false, ..o },
        text: ShellText { overlay_content: None, note_viewing_handle: None, note_edit_buf: s2.text.note_edit_buf, ..s.text }, ..s })
    &&& s2.text.note_edit_buf@.len() == 0
}

/// Position in a list of `len` names chosen by the scroll position.
pub open spec fn list_index(scroll: int, len: int) -> int {
    let last = if len >= 1 { len - 1 } else { 0 };
    if scroll <= last { scroll } else { last }
}

/// `r` is the name of `keys` with exactly `idx` names before it in sorted
/// order, or None when there is none.
pub open spec fn ranked(keys: Seq<Seq<char>>, idx: int, r: Option<Seq<char>>) -> bool {
    match r {
        Some(n) => keys.contains(n) && rank(keys, n) == idx,
        None => forall|i: int| 0 <= i < keys.len() ==> rank(keys, #[trigger] keys[i]) != idx,
    }
}

/// The name of `m` with `idx` names before it in sorted order.
pub fn name_at_rank<V>(m: &StrMap<V>, idx: usize) -> (r: Option<String>)
    ensures
        ranked(m.key_seq(), idx as int, opt_view(r)),
{
    let ghost keys = m.key_seq();
    let n = m.entries.len();
    let mut i: usize = 0;
    while i < n
        invariant
            n == m.entries@.len(),
            keys == m.key_seq(),
            i <= n,
            forall|j: int| 0 <= j < i ==> rank(keys, #[trigger] keys[j]) != idx,
        decreases n - i,
    {
        let k = &m.entries[i].0;
        let mut c: usize = 0;
        let mut j: usize = 0;
        while j < n
            invariant
                n == m.entries@.len(),
                keys == m.key_seq(),
                i < n,
                k@ == keys[i as int],
                j <= n,
                c as nat == rank(keys.take(j as int), k@),
                c <= j,
            decreases n - j,
        {
            assert(keys.take(j + 1).drop_last() =~= keys.take(j as int));
            if str_lt(m.entries[j].0.as_str(), k.as_str()) {
                c = c + 1;
            }
            j += 1;
        }
        assert(keys.take(n as int) =~= keys);
        if c == idx {
            assert(keys[i as int] == k@);
            return Some(k.clone());
        }
        i += 1;
    }
    None
}

fn list_index_of(scroll: usize, len: usize) -> (r: usize)
    ensures
        r == list_index(scroll as int, len as int),
{
    let last = if len >= 1 { len - 1 } else { 0 };
    if scroll <= last { scroll } else { last }
}

// ──── quick actions ────

/// The actions of the quick actions menu, by position, on agent `h`.
#[verifier::opaque]
pub open spec fn qa_action(m: Model, s: Shell, c: int, h: Seq<char>, now: i64, m2: Model, s2: Shell, cs: Seq<Cmd>) -> bool {
    if c == 0 {
        m2 == m && cs.len() == 0 && prefilled(s, "to:"@ + h + " "@, s2)
    } else if c == 1 {
        m2 == m && cs.len() == 0 && prefilled(s, "pty:"@ + h + " "@, s2)
    } else if c == 2 {
        m2 == m && cs.len() == 0 && prefilled(s, "rename:"@ + h + " "@, s2)
    } else if c == 3 {
        m2 == m && cs.len() == 0 && prefilled(s, "tag:add:"@ + h + " "@, s2)
    } else if c == 4 {
        &&& m2 == m && cs.len() == 0
        &&& s2 == (Shell { overlays: Overlays { note_overlay_active: true, ..s.overlays },
            text: ShellText { note_viewing_handle: s2.text.note_viewing_handle, note_edit_buf: s2.text.note_edit_buf, ..s.text }, ..s })
        &&& opt_view(s2.text.note_viewing_handle) == Some(h) && s2.text.note_edit_buf@ == note_of(m, h)
    } else if c == 5 {
        &&& m2.pinned.set() == toggled(m.pinned.set(), h) && m2 == (Model { pinned: m2.pinned, ..m })
        &&& if m2.pinned.set().contains(h) {
            toasted(s, seq!["📌 pinned: "@ + h], now, s2) && cs.len() == 1 && (cs[0] matches Cmd::PersistPinAdd { handle } && handle@ == h)
        } else {
            toasted(s, seq!["unpinned: "@ + h], now, s2) && cs.len() == 1 && (cs[0] matches Cmd::PersistPinRemove { handle } && handle@ == h)
        }
    } else if c == 6 {
        m2 == m && s2 == s && cs.len() == 1 && (cs[0] matches Cmd::SwitchTerminal { handle } && handle@ == h)
    } else if c == 7 {
        m2 == m && s2 == s && cs.len() == 1 && (cs[0] matches Cmd::ReadTerminal { handle } && handle@ == h)
    } else if c == 8 {
        m2 == m && s2 == s && cs.len() == 1 && (cs[0] matches Cmd::CloseTerminal { handle } && handle@ == h)
    } else if c == 9 {
        &&& m2.watched.set() == toggled(m.watched.set(), h) && m2 == (Model { watched: m2.watched, ..m })
        &&& if m2.watched.set().contains(h) {
            toasted(s, seq!["👁 watching: "@ + h], now, s2) && cs.len() == 1 && (cs[0] matches Cmd::PersistWatchAdd { handle } && handle@ == h)
        } else {
            toasted(s, seq!["unwatched: "@ + h], now, s2) && cs.len() == 1 && (cs[0] matches Cmd::PersistWatchRemove { handle } && handle@ == h)
        }
    } else {
        m2 == m && s2 == s && cs.len() == 0
    }
}

pub open spec fn qa_closed(s: Shell) -> Shell {
    Shell { overlays: Overlays { quick_actions_active: false, ..s.overlays }, ..s }
}

/// Enter in the quick actions menu: it closes and the action under its
/// cursor is carried out on the agent under the list cursor.
#[verifier::opaque]
pub open spec fn qa_enter(m: Model, s: Shell, now: i64, m2: Model, s2: Shell, cs: Seq<Cmd>) -> bool {
    exists|h: Option<Seq<char>>| #[trigger] selected_is(m, s, now, h) && match h {
        Some(h) => qa_action(m, qa_closed(s), s.cursors.quick_actions_cursor as int, h, now, m2, s2, cs),
        None => m2 == m && s2 == qa_closed(s) && cs.len() == 0,
    }
}

/// What a key does while the quick actions menu is open.
pub open spec fn qa_effect(m: Model, s: Shell, k: KeyPress, now: i64, m2: Model, s2: Shell, cs: Seq<Cmd>) -> bool {
    if plain(k, KeyCode::Enter) {
        qa_enter(m, s, now, m2, s2, cs)
    } else {
        m2 == m && cs.len() == 0 && qa_moved(s, k, s2)
    }
}

/// The keys of the quick actions menu other than Enter: Esc, q and o close
/// it, j and k move its cursor round its ten entries.
pub open spec fn qa_moved(s: Shell, k: KeyPress, s2: Shell) -> bool {
    let c = s.cursors.quick_actions_cursor as int;
    if k.code == KeyCode::Esc || k.code == KeyCode::Char('q') || k.code == KeyCode::Char('o') {
        s2 == qa_closed(s)
    } else if plain(k, KeyCode::Char('j')) || plain(k, KeyCode::Down) {
        s2 == (Shell { cursors: Cursors { quick_actions_cursor: ((c + 1) % 10) as usize, ..s.cursors }, ..s })
    } else if plain(k, KeyCode::Char('k')) || plain(k, KeyCode::Up) {
        s2 == (Shell { cursors: Cursors { quick_actions_cursor: (if c == 0 { 9 } else { c - 1 }) as usize, ..s.cursors }, ..s })
    } else {
        s2 == s
    }
}

fn qa_note(model: &Model, shell: &mut Shell, h: String)
    requires
        model.wf(),
    ensures
        qa_action(*model, *old(shell), 4, h@, 0, *model, *final(shell), Seq::<Cmd>::empty()),
{
    reveal(qa_action);
    let text = match model.get_note(h.as_str()) {
        Some(t) => t.clone(),
        None => String::new(),
    };
    shell.overlays = Overlays { note_overlay_active: true, ..shell.overlays };
    shell.text.note_viewing_handle = Some(h);
    shell.text.note_edit_buf = text;
}

fn qa_pin(model: &mut Model, shell: &mut Shell, h: String, now: i64) -> (cs: Vec<Cmd>)
    requires
        old(model).wf(),
    ensures
        final(model).wf(),
        qa_action(*old(model), *old(shell), 5, h@, now, *final(model), *final(shell), cs@),
{
    reveal(qa_action);
    model.toggle_pin(h.as_str());
    if model.is_pinned(h.as_str()) {
        raise_text(shell, concat("📌 pinned: ", h.as_str()), now);
        vec![Cmd::PersistPinAdd { handle: h }]
    } else {
        raise_text(shell, concat("unpinned: ", h.as_str()), now);
        vec![Cmd::PersistPinRemove { handle: h }]
    }
}

fn qa_watch(model: &mut Model, shell: &mut Shell, h: String, now: i64) -> (cs: Vec<Cmd>)
    requires
        old(model).wf(),
    ensures
        final(model).wf(),
        qa_action(*old(model), *old(shell), 9, h@, now, *final(model), *final(shell), cs@),
{
    reveal(qa_action);
    model.toggle_watch(h.as_str());
    if model.is_watched(h.as_str()) {
        raise_text(shell, concat("👁 watching: ", h.as_str()), now);
        vec![Cmd::PersistWatchAdd { handle: h }]
    } else {
        raise_text(shell, concat("unwatched: ", h.as_str()), now);
        vec![Cmd::PersistWatchRemove { handle: h }]
    }
}

#[verifier::spinoff_prover]
fn qa_run(model: &mut Model, shell: &mut Shell, c: usize, h: String, now: i64) -> (cs: Vec<Cmd>)
    requires
        old(model).wf(),
    ensures
        final(shell).text.selected_set == old(shell).text.selected_set,
        final(model).generation == old(model).generation,
        final(model).wf(),
        qa_action(*old(model), *old(shell), c as int, h@, now, *final(model), *final(shell), cs@),
{
    reveal(qa_action);
    if c == 0 {
        prefill(shell, "to:", h.as_str(), " ");
        Vec::new()
    } else if c == 1 {
        prefill(shell, "pty:", h.as_str(), " ");
        Vec::new()
    } else if c == 2 {
        prefill(shell, "rename:", h.as_str(), " ");
        Vec::new()
    } else if c == 3 {
        prefill(shell, "tag:add:", h.as_str(), " ");
        Vec::new()
    } else if c == 4 {
        qa_note(model, shell, h);
        Vec::new()
    } else if c == 5 {
        qa_pin(model, shell, h, now)
    } else if c == 6 {
        vec![Cmd::SwitchTerminal { handle: h }]
    } else if c == 7 {
        vec![Cmd::ReadTerminal { handle: h }]
    } else if c == 8 {
        vec![Cmd::CloseTerminal { handle: h }]
    } else if c == 9 {
        qa_watch(model, shell, h, now)
    } else {
        Vec::new()
    }
}

fn qa_close(shell: &mut Shell)
    ensures
        *final(shell) == qa_closed(*old(shell)),
{
    shell.overlays = Overlays { quick_actions_active: false, ..shell.overlays };
}

#[verifier::rlimit(80)]
fn qa_go(model: &mut Model, shell: &mut Shell, now: i64) -> (cs: Vec<Cmd>)
    requires
        old(model).wf(),
    ensures
        final(shell).text.selected_set == old(shell).text.selected_set,
        final(model).generation == old(model).generation,
        final(model).wf(),
        qa_enter(*old(model), *old(shell), now, *final(model), *final(shell), cs@),
{
    reveal(qa_enter);
    let h = selected_handle(model, shell, now);
    let ghost m0 = *model;
    let ghost s0 = *shell;
    let c = shell.cursors.quick_actions_cursor;
    qa_close(shell);
    match h {
        Some(h) => {
            let ghost hv = h@;
            assert(selected_is(m0, s0, now, Some(hv)));
            let cs = qa_run(model, shell, c, h, now);
            assert(qa_action(m0, qa_closed(s0), c as int, hv, now, *model, *shell, cs@));
            cs
        },
        None => {
            assert(selected_is(m0, s0, now, None));
            Vec::new()
        },
    }
}

fn qa_down(shell: &mut Shell)
    ensures
        *final(shell) == (Shell { cursors: Cursors { quick_actions_cursor: ((old(shell).cursors.quick_actions_cursor + 1) % 10) as usize,
            ..old(shell).cursors }, ..*old(shell) }),
{
    let c = shell.cursors.quick_actions_cursor;
    let r = c % 10;
    assert((c + 1) % 10 == (if r + 1 == 10 { 0 } else { r + 1 })) by (nonlinear_arith)
        requires r == c % 10;
    let c2 = if r + 1 == 10 { 0 } else { r + 1 };
    shell.cursors = Cursors { quick_actions_cursor: c2, ..shell.cursors };
}

fn qa_up(shell: &mut Shell)
    ensures
        *final(shell) == (Shell { cursors: Cursors { quick_actions_cursor: (if old(shell).cursors.quick_actions_cursor == 0 { 9 }
            else { old(shell).cursors.quick_actions_cursor - 1 }) as usize, ..old(shell).cursors }, ..*old(shell) }),
{
    let c = shell.cursors.quick_actions_cursor;
    let c2 = if c == 0 { 9 } else { c - 1 };
    shell.cursors = Cursors { quick_actions_cursor: c2, ..shell.cursors };
}

fn qa_move(shell: &mut Shell, k: KeyPress)
    ensures
        qa_moved(*old(shell), k, *final(shell)),
{
    if k.code == KeyCode::Esc || k.code == KeyCode::Char('q') || k.code == KeyCode::Char('o') {
        qa_close(shell);
    } else if is_plain(k, KeyCode::Char('j')) || is_plain(k, KeyCode::Down) {
        qa_down(shell);
    } else if is_plain(k, KeyCode::Char('k')) || is_plain(k, KeyCode::Up) {
        qa_up(shell);
    }
}

fn qa_key(model: &mut Model, shell: &mut Shell, k: KeyPress, now: i64) -> (cs: Vec<Cmd>)
    requires
        old(model).wf(),
    ensures
        final(model).wf(),
        final(shell).text.selected_set == old(shell).text.selected_set,
        final(model).generation == old(model).generation,
        qa_effect(*old(model), *old(shell), k, now, *final(model), *final(shell), cs@),
{
    if is_plain(k, KeyCode::Enter) {
        qa_go(model, shell, now)
    } else {
        qa_move(shell, k);
        Vec::new()
    }
}

// ──── the list overlays ────

/// Enter on the history overlay: it closes and the entry shown at the
/// scroll position goes into the input line.
pub open spec fn history_pick(m: Model, s: Shell, s2: Shell) -> bool {
    let n = m.history@.len() as int;
    let last = if n >= 1 { n - 1 } else { 0 };
    let idx = if last >= s.overlay_scroll { last - s.overlay_scroll } else { 0 };
    let s1 = Shell { overlays: Overlays { history_overlay_active: false, ..s.overlays }, overlay_scroll: 0, ..s };
    if idx < n {
        &&& s2 == (Shell { insert_mode: true, focus: FocusTarget::Input, history_cursor: None,
            text: ShellText { input_buf: s2.text.input_buf, ..s1.text }, ..s1 })
        &&& s2.text.input_buf@ == m.history@[idx].text@
    } else {
        s2 == s1
    }
}

/// Enter on the snippet overlay: it closes and `run:` with the snippet
/// chosen by the scroll position goes into the input line.
pub open spec fn snippet_pick(m: Model, s: Shell, s2: Shell) -> bool {
    let keys = m.snippets.key_seq();
    let s1 = Shell { overlays: Overlays { snippet_overlay_active: false, ..s.overlays }, overlay_scroll: 0, ..s };
    exists|r: Option<Seq<char>>| #[trigger] ranked(keys, list_index(s.overlay_scroll as int, keys.len() as int), r) && match r {
        Some(n) => prefilled(s1, "run:"@ + n, s2),
        None => s2 == s1,
    }
}

/// Enter on the alert rule overlay: it closes and the rule at the scroll
/// position is removed.
pub open spec fn rule_pick(m: Model, s: Shell, now: i64, m2: Model, s2: Shell, cs: Seq<Cmd>) -> bool {
    let rules = m.alert_rules@;
    let idx = list_index(s.overlay_scroll as int, rules.len() as int);
    let s1 = Shell { overlays: Overlays { rule_overlay_active: false, ..s.overlays }, overlay_scroll: 0, ..s };
    if idx < rules.len() {
        &&& m2.alert_rules@ == rules_without(rules, rules[idx].id)
        &&& m2 == (Model { alert_rules: m2.alert_rules, generation: (m.generation + 1) as u64, ..m })
        &&& toasted(s1, seq!["alert rule removed"@], now, s2)
        &&& cs.len() == 1 && (cs[0] matches Cmd::RemoveAlertRule { id } && id == rules[idx].id)
    } else {
        m2 == m && s2 == s1 && cs.len() == 0
    }
}

/// Enter on the macro overlay: it closes and the macro chosen by the scroll
/// position is handed out for replay.
pub open spec fn macro_pick(m: Model, s: Shell, s2: Shell, cs: Seq<Cmd>) -> bool {
    let keys = m.macros.key_seq();
    &&& s2 == (Shell { overlays: Overlays { macro_overlay_active: false, ..s.overlays }, overlay_scroll: 0, ..s })
    &&& exists|r: Option<Seq<char>>| #[trigger] ranked(keys, list_index(s.overlay_scroll as int, keys.len() as int), r) && match r {
        Some(n) => cs.len() == 1 && (cs[0] matches Cmd::ReplayMacro { name, key_events_json }
            && name@ == n && key_events_json@ == m.macros.map()[n].key_events_json@),
        None => cs.len() == 0,
    }
}

/// d on the macro overlay: the macro chosen by the scroll position is removed.
pub open spec fn macro_drop(m: Model, s: Shell, now: i64, m2: Model, s2: Shell, cs: Seq<Cmd>) -> bool {
    let keys = m.macros.key_seq();
    exists|r: Option<Seq<char>>| #[trigger] ranked(keys, list_index(s.overlay_scroll as int, keys.len() as int), r) && match r {
        Some(n) => {
            &&& m2.macros.map() == m.macros.map().remove(n)
            &&& m2 == (Model { macros: m2.macros, generation: (m.generation + 1) as u64, ..m })
            &&& toasted(Shell { overlay_scroll: 0, ..s }, seq!["macro removed: "@ + n], now, s2)
            &&& cs.len() == 1 && (cs[0] matches Cmd::RemoveMacro { name } && name@ == n)
        },
        None => m2 == m && s2 == s && cs.len() == 0,
    }
}

/// Enter on the views overlay: it closes and the view chosen by the scroll
/// position is restored.
pub open spec fn view_pick(m: Model, s: Shell, now: i64, s2: Shell, cs: Seq<Cmd>) -> bool {
    let keys = m.saved_views.key_seq();
    let s1 = Shell { overlays: Overlays { views_overlay_active: false, ..s.overlays }, overlay_scroll: 0, ..s };
    exists|r: Option<Seq<char>>| #[trigger] ranked(keys, list_index(s.overlay_scroll as int, keys.len() as int), r) && match r {
        Some(n) => load_view_effect(m, s1, n, now, s2, cs),
        None => s2 == s1 && cs.len() == 0,
    }
}

/// d on the views overlay: the view chosen by the scroll position is removed.
pub open spec fn view_drop(m: Model, s: Shell, now: i64, m2: Model, s2: Shell, cs: Seq<Cmd>) -> bool {
    let keys = m.saved_views.key_seq();
    exists|r: Option<Seq<char>>| #[trigger] ranked(keys, list_index(s.overlay_scroll as int, keys.len() as int), r) && match r {
        Some(n) => {
            &&& m2.saved_views.map() == m.saved_views.map().remove(n)
            &&& m2 == (Model { saved_views: m2.saved_views, generation: (m.generation + 1) as u64, ..m })
            &&& toasted(Shell { overlay_scroll: 0, ..s }, seq!["view removed: "@ + n], now, s2)
            &&& cs.len() == 1 && (cs[0] matches Cmd::RemoveView { name } && name@ == n)
        },
        None => m2 == m && s2 == s && cs.len() == 0,
    }
}

pub open spec fn note_closed(s: Shell, s2: Shell) -> bool {
    &&& s2 == (Shell { overlays: Overlays { note_overlay_active: false, ..s.overlays },
        text: ShellText { note_viewing_handle: None, note_edit_buf: s2.text.note_edit_buf, ..s.text }, ..s })
    &&& s2.text.note_edit_buf@.len() == 0
}

/// Enter on the note overlay: the note is saved (or removed when blank)
/// and the overlay closes.
pub open spec fn note_save(m: Model, s: Shell, now: i64, m2: Model, s2: Shell, cs: Seq<Cmd>) -> bool {
    match s.text.note_viewing_handle {
        Some(h) => {
            let t = trim_seq(s.text.note_edit_buf@);
            exists|s1: Shell| #[trigger] note_closed(s, s1) && if t.len() == 0 {
                &&& m2.notes.text_map() == m.notes.text_map().remove(h@)
                &&& m2 == (Model { notes: m2.notes, generation: (m.generation + 1) as u64, ..m })
                &&& toasted(s1, seq!["note removed: "@ + h@], now, s2)
                &&& cs.len() == 1 && (cs[0] matches Cmd::RemoveNote { handle } && handle@ == h@)
            } else {
                &&& m2.notes.text_map() == m.notes.text_map().insert(h@, t)
                &&& m2 == (Model { notes: m2.notes, generation: (m.generation + 1) as u64, ..m })
                &&& toasted(s1, seq!["note saved: "@ + h@], now, s2)
                &&& cs.len() == 1 && (cs[0] matches Cmd::PersistNote { handle, text } && handle@ == h@ && text@ == t)
            }
        },
        None => m2 == m && cs.len() == 0 && s2 == (Shell { overlays: Overlays { note_overlay_active: false, ..s.overlays }, ..s }),
    }
}

pub open spec fn note_typed(s: Shell, t: Seq<char>, s2: Shell) -> bool {
    &&& s2 == (Shell { text: ShellText { note_edit_buf: s2.text.note_edit_buf, ..s.text }, ..s })
    &&& s2.text.note_edit_buf@ == t
}

/// c on the activity or history overlay: the log is emptied.
pub open spec fn cleared(m: Model, s: Shell, m2: Model) -> bool {
    if s.overlays.activity_active {
        m2 == (Model { events: m2.events, generation: (m.generation + 1) as u64, ..m }) && m2.events@.len() == 0
    } else if s.overlays.history_overlay_active {
        m2 == (Model { history: m2.history, ..m }) && m2.history@.len() == 0
    } else {
        m2 == m
    }
}

/// What a key does while an overlay is open.
pub open spec fn overlay_effect(m: Model, s: Shell, k: KeyPress, now: i64, m2: Model, s2: Shell, cs: Seq<Cmd>) -> bool {
    if s.overlays.quick_actions_active {
        qa_effect(m, s, k, now, m2, s2, cs)
    } else if plain(k, KeyCode::Esc) || plain(k, KeyCode::Char('q')) {
        m2 == m && cs.len() == 0 && all_closed(s, s2)
    } else if plain(k, KeyCode::Char('c')) {
        s2 == s && cs.len() == 0 && cleared(m, s, m2)
    } else {
        list_effect(m, s, k, now, m2, s2, cs)
    }
}

/// Enter and d on the list overlays, then the rest.
pub open spec fn list_effect(m: Model, s: Shell, k: KeyPress, now: i64, m2: Model, s2: Shell, cs: Seq<Cmd>) -> bool {
    let o = s.overlays;
    let enter = plain(k, KeyCode::Enter);
    let d = plain(k, KeyCode::Char('d'));
    if enter && o.history_overlay_active {
        m2 == m && cs.len() == 0 && history_pick(m, s, s2)
    } else if enter && o.snippet_overlay_active {
        m2 == m && cs.len() == 0 && snippet_pick(m, s, s2)
    } else if enter && o.rule_overlay_active {
        rule_pick(m, s, now, m2, s2, cs)
    } else if enter && o.macro_overlay_active {
        m2 == m && macro_pick(m, s, s2, cs)
    } else if d && o.macro_overlay_active {
        macro_drop(m, s, now, m2, s2, cs)
    } else if enter && o.views_overlay_active {
        m2 == m && view_pick(m, s, now, s2, cs)
    } else if d && o.views_overlay_active {
        view_drop(m, s, now, m2, s2, cs)
    } else {
        rest_effect(m, s, k, now, m2, s2, cs)
    }
}

/// The metrics window, the note editor and scrolling.
pub open spec fn rest_effect(m: Model, s: Shell, k: KeyPress, now: i64, m2: Model, s2: Shell, cs: Seq<Cmd>) -> bool {
    let o = s.overlays;
    if plain(k, KeyCode::Char('w')) && o.metrics_overlay_active {
        m2 == m && cs.len() == 0 && s2 == (Shell { metrics_window: window_next(s.metrics_window), overlay_scroll: 0, ..s })
    } else if plain(k, KeyCode::Enter) && o.note_overlay_active {
        note_save(m, s, now, m2, s2, cs)
    } else if k.code is Char && no_mods(k.modifiers) && o.note_overlay_active {
        m2 == m && cs.len() == 0 && note_typed(s, s.text.note_edit_buf@.push(k.code->Char_0), s2)
    } else if plain(k, KeyCode::Backspace) && o.note_overlay_active {
        m2 == m && cs.len() == 0 && note_typed(s, drop_last_char(s.text.note_edit_buf@), s2)
    } else if plain(k, KeyCode::Char('j')) || plain(k, KeyCode::Down) {
        m2 == m && cs.len() == 0
            && s2 == (Shell { overlay_scroll: (if s.overlay_scroll < usize::MAX { s.overlay_scroll + 1 } else { s.overlay_scroll as int }) as usize, ..s })
    } else if plain(k, KeyCode::Char('k')) || plain(k, KeyCode::Up) {
        m2 == m && cs.len() == 0 && s2 == (Shell { overlay_scroll: (if s.overlay_scroll > 0 { s.overlay_scroll - 1 } else { 0 }) as usize, ..s })
    } else {
        m2 == m && s2 == s && cs.len() == 0
    }
}

// ──── the list overlays carried out ────

fn close_all(shell: &mut Shell)
    ensures
        all_closed(*old(shell), *final(shell)),
{
    shell.overlays = Overlays { dashboard_active: false, worktree_ps_active: false,
        rule_overlay_active: false, cheatsheet_active: false, config_overlay_active: false, orch_tasks_active: false,
        activity_active: false, snippet_overlay_active: false, macro_overlay_active: false, views_overlay_active: false,
        note_overlay_active: false, metrics_overlay_active: false, quick_actions_active: false, alias_overlay_active: false,
        hotkeys_overlay_active: false, theme_overlay_active: false, ..shell.overlays };
    shell.overlay_scroll = 0;
    shell.text.overlay_content = None;
    shell.text.note_viewing_handle = None;
    shell.text.note_edit_buf = String::new();
}

fn clear_log(model: &mut Model, shell: &Shell)
    requires
        old(model).wf(),
        old(model).generation < u64::MAX,
    ensures
        final(model).wf(),
        old(model).generation <= final(model).generation,
        cleared(*old(model), *shell, *final(model)),
{
    if shell.overlays.activity_active {
        model.clear_events();
    } else if shell.overlays.history_overlay_active {
        model.history = Vec::new();
    }
}

fn history_key(model: &Model, shell: &mut Shell)
    ensures
        history_pick(*model, *old(shell), *final(shell)),
{
    let n = model.history.len();
    let last = if n >= 1 { n - 1 } else { 0 };
    let idx = if last >= shell.overlay_scroll { last - shell.overlay_scroll } else { 0 };
    shell.overlays = Overlays { history_overlay_active: false, ..shell.overlays };
    shell.overlay_scroll = 0;
    if idx < n {
        shell.insert_mode = true;
        shell.focus = FocusTarget::Input;
        shell.history_cursor = None;
        shell.text.input_buf = model.history[idx].text.clone();
    }
}

fn snippet_key(model: &Model, shell: &mut Shell)
    ensures
        snippet_pick(*model, *old(shell), *final(shell)),
{
    let idx = list_index_of(shell.overlay_scroll, model.snippets.len());
    let r = name_at_rank(&model.snippets, idx);
    shell.overlays = Overlays { snippet_overlay_active: false, ..shell.overlays };
    shell.overlay_scroll = 0;
    match r {
        Some(n) => crate::palette::prefill_text(shell, concat("run:", n.as_str()).as_str()),
        None => {},
    }
}

fn close_rules(shell: &mut Shell)
    ensures
        *final(shell) == (Shell { overlays: Overlays { rule_overlay_active: false, ..old(shell).overlays }, overlay_scroll: 0, ..*old(shell) }),
{
    shell.overlays = Overlays { rule_overlay_active: false, ..shell.overlays };
    shell.overlay_scroll = 0;
}

fn close_macros(shell: &mut Shell)
    ensures
        *final(shell) == (Shell { overlays: Overlays { macro_overlay_active: false, ..old(shell).overlays }, overlay_scroll: 0, ..*old(shell) }),
{
    shell.overlays = Overlays { macro_overlay_active: false, ..shell.overlays };
    shell.overlay_scroll = 0;
}

fn rule_key(model: &mut Model, shell: &mut Shell, now: i64) -> (cs: Vec<Cmd>)
    requires
        old(model).generation < u64::MAX,
    ensures
        rule_pick(*old(model), *old(shell), now, *final(model), *final(shell), cs@),
{
    let n = model.alert_rules.len();
    let idx = list_index_of(shell.overlay_scroll, n);
    close_rules(shell);
    if idx < n {
        let id = model.alert_rules[idx].id;
        model.remove_alert_rule(id);
        raise_text(shell, "alert rule removed".to_owned(), now);
        vec![Cmd::RemoveAlertRule { id }]
    } else {
        Vec::new()
    }
}

fn macro_key(model: &Model, shell: &mut Shell) -> (cs: Vec<Cmd>)
    requires
        model.wf(),
    ensures
        macro_pick(*model, *old(shell), *final(shell), cs@),
{
    let idx = list_index_of(shell.overlay_scroll, model.macros.len());
    let r = name_at_rank(&model.macros, idx);
    close_macros(shell);
    match r {
        Some(n) => match model.get_macro(n.as_str()) {
            Some(mac) => vec![Cmd::ReplayMacro { name: n, key_events_json: mac.key_events_json.clone() }],
            None => Vec::new(),
        },
        None => Vec::new(),
    }
}

fn macro_remove_key(model: &mut Model, shell: &mut Shell, now: i64) -> (cs: Vec<Cmd>)
    requires
        old(model).wf(),
        old(model).generation < u64::MAX,
    ensures
        final(model).wf(),
        macro_drop(*old(model), *old(shell), now, *final(model), *final(shell), cs@),
{
    let idx = list_index_of(shell.overlay_scroll, model.macros.len());
    let r = name_at_rank(&model.macros, idx);
    match r {
        Some(n) => {
            model.remove_macro(n.as_str());
            shell.overlay_scroll = 0;
            raise_text(shell, concat("macro removed: ", n.as_str()), now);
            vec![Cmd::RemoveMacro { name: n }]
        },
        None => Vec::new(),
    }
}

fn view_key(model: &Model, shell: &mut Shell, now: i64) -> (cs: Vec<Cmd>)
    requires
        model.wf(),
        old(shell).text.selected_set.wf(),
    ensures
        final(shell).text.selected_set.wf(),
        view_pick(*model, *old(shell), now, *final(shell), cs@),
{
    let idx = list_index_of(shell.overlay_scroll, model.saved_views.len());
    let r = name_at_rank(&model.saved_views, idx);
    shell.overlays = Overlays { views_overlay_active: false, ..shell.overlays };
    shell.overlay_scroll = 0;
    match r {
        Some(n) => load_view(model, shell, n, now),
        None => Vec::new(),
    }
}

fn view_remove_key(model: &mut Model, shell: &mut Shell, now: i64) -> (cs: Vec<Cmd>)
    requires
        old(model).wf(),
        old(model).generation < u64::MAX,
    ensures
        final(model).wf(),
        old(model).generation <= final(model).generation,
        view_drop(*old(model), *old(shell), now, *final(model), *final(shell), cs@),
{
    let idx = list_index_of(shell.overlay_scroll, model.saved_views.len());
    let r = name_at_rank(&model.saved_views, idx);
    match r {
        Some(n) => {
            model.remove_saved_view(n.as_str());
            shell.overlay_scroll = 0;
            raise_text(shell, concat("view removed: ", n.as_str()), now);
            vec![Cmd::RemoveView { name: n }]
        },
        None => Vec::new(),
    }
}

fn close_note(shell: &mut Shell)
    ensures
        note_closed(*old(shell), *final(shell)),
{
    shell.overlays = Overlays { note_overlay_active: false, ..shell.overlays };
    shell.text.note_viewing_handle = None;
    shell.text.note_edit_buf = String::new();
}

fn note_key(model: &mut Model, shell: &mut Shell, now: i64) -> (cs: Vec<Cmd>)
    requires
        old(model).wf(),
        old(model).generation < u64::MAX,
    ensures
        final(model).wf(),
        old(model).generation <= final(model).generation,
        note_save(*old(model), *old(shell), now, *final(model), *final(shell), cs@),
{
    let h = match &shell.text.note_viewing_handle {
        Some(h) => h.clone(),
        None => {
            shell.overlays = Overlays { note_overlay_active: false, ..shell.overlays };
            return Vec::new();
        },
    };
    let t = string_of(&trim_vec(&chars_of(shell.text.note_edit_buf.as_str())));
    let ghost s0 = *shell;
    close_note(shell);
    let ghost s1 = *shell;
    assert(note_closed(s0, s1));
    if t.as_str().is_empty() {
        model.remove_note(h.as_str());
        raise_text(shell, concat("note removed: ", h.as_str()), now);
        vec![Cmd::RemoveNote { handle: h }]
    } else {
        model.add_note(h.as_str(), t.as_str());
        raise_text(shell, concat("note saved: ", h.as_str()), now);
        vec![Cmd::PersistNote { handle: h, text: t }]
    }
}

fn set_note_text(shell: &mut Shell, t: String)
    ensures
        note_typed(*old(shell), t@, *final(shell)),
{
    shell.text.note_edit_buf = t;
}

fn rest_key(model: &mut Model, shell: &mut Shell, k: KeyPress, now: i64) -> (cs: Vec<Cmd>)
    requires
        old(model).wf(),
        old(model).generation < u64::MAX,
    ensures
        final(model).wf(),
        old(model).generation <= final(model).generation,
        rest_effect(*old(model), *old(shell), k, now, *final(model), *final(shell), cs@),
{
    let o = shell.overlays;
    if is_plain(k, KeyCode::Char('w')) && o.metrics_overlay_active {
        shell.metrics_window = shell.metrics_window.cycle();
        shell.overlay_scroll = 0;
        Vec::new()
    } else if is_plain(k, KeyCode::Enter) && o.note_overlay_active {
        note_key(model, shell, now)
    } else {
        let plain_char = match k.code {
            KeyCode::Char(c) => if !k.modifiers.shift && !k.modifiers.control && !k.modifiers.alt { Some(c) } else { None },
            _ => None,
        };
        if plain_char.is_some() && o.note_overlay_active {
            let mut t = shell.text.note_edit_buf.clone();
            push_char(&mut t, plain_char.unwrap());
            set_note_text(shell, t);
        } else if is_plain(k, KeyCode::Backspace) && o.note_overlay_active {
            let t = pop_text(&shell.text.note_edit_buf);
            set_note_text(shell, t);
        } else if is_plain(k, KeyCode::Char('j')) || is_plain(k, KeyCode::Down) {
            if shell.overlay_scroll < usize::MAX {
                shell.overlay_scroll = shell.overlay_scroll + 1;
            }
        } else if is_plain(k, KeyCode::Char('k')) || is_plain(k, KeyCode::Up) {
            if shell.overlay_scroll > 0 {
                shell.overlay_scroll = shell.overlay_scroll - 1;
            }
        }
        Vec::new()
    }
}

#[verifier::spinoff_prover]
fn list_key(model: &mut Model, shell: &mut Shell, k: KeyPress, now: i64) -> (cs: Vec<Cmd>)
    requires
        old(model).wf(),
        old(shell).text.selected_set.wf(),
        old(model).generation < u64::MAX,
    ensures
        final(model).wf(),
        final(shell).text.selected_set.wf(),
        old(model).generation <= final(model).generation,
        list_effect(*old(model), *old(shell), k, now, *final(model), *final(shell), cs@),
{
    let o = shell.overlays;
    let enter = is_plain(k, KeyCode::Enter);
    let d = is_plain(k, KeyCode::Char('d'));
    if enter && o.history_overlay_active {
        history_key(model, shell);
        Vec::new()
    } else if enter && o.snippet_overlay_active {
        snippet_key(model, shell);
        Vec::new()
    } else if enter && o.rule_overlay_active {
        rule_key(model, shell, now)
    } else if enter && o.macro_overlay_active {
        macro_key(model, shell)
    } else if d && o.macro_overlay_active {
        macro_remove_key(model, shell, now)
    } else if enter && o.views_overlay_active {
        view_key(model, shell, now)
    } else if d && o.views_overlay_active {
        view_remove_key(model, shell, now)
    } else {
        rest_key(model, shell, k, now)
    }
}

/// What a key does while an overlay is open (see `overlay_effect`).
pub fn overlay_key(model: &mut Model, shell: &mut Shell, k: KeyPress, now: i64) -> (cs: Vec<Cmd>)
    requires
        old(model).wf(),
        old(shell).text.selected_set.wf(),
        old(model).generation < u64::MAX,
    ensures
        final(model).wf(),
        final(shell).text.selected_set.wf(),
        old(model).generation <= final(model).generation,
        overlay_effect(*old(model), *old(shell), k, now, *final(model), *final(shell), cs@),
{
    if shell.overlays.quick_actions_active {
        qa_key(model, shell, k, now)
    } else if is_plain(k, KeyCode::Esc) || is_plain(k, KeyCode::Char('q')) {
        close_all(shell);
        Vec::new()
    } else if is_plain(k, KeyCode::Char('c')) {
        clear_log(model, shell);
        Vec::new()
    } else {
        list_key(model, shell, k, now)
    }
}

} // verus!
