//! The bindings that hold everywhere in the main view (watch, recording,
//! palette, overlays, focus mode, tabs, scrolling, custom hotkeys) and the
//! routing of a key to the mode that has the keyboard.
use vstd::prelude::*;
use crate::keys::{KeyPress, KeyCode};
use crate::store::{Model, toggled};
use crate::shell::{Shell, ShellText, Tab, Overlays, Flags, Cursors, next_tab, focus_of_tab};
use crate::update::Cmd;
use crate::line::{toasted, toasts_added, focus_of, line_effect, dispatch_line, CHAIN_DEPTH};
use crate::keymap::{is_plain, is_shifted, is_ctrl, plain, shifted, ctrl, selected_is, selected_handle, rows_are, row_count, overlay_key, overlay_of_key,
    toggled_overlay, toggle_overlay, typing_effect, typing_key, normal_effect, normal_key, raise_text};
use crate::text::{concat, decimal, u64_to_string};
use crate::model::opt_view;

verus! {

broadcast use vstd::string::group_string_axioms;

// ──── the global bindings, one predicate each ────

/// Ctrl-W: the agent under the cursor is watched or unwatched.
pub open spec fn watch_effect(m: Model, s: Shell, now: i64, m2: Model, s2: Shell, cs: Seq<Cmd>) -> bool {
    exists|h: Option<Seq<char>>| #[trigger] selected_is(m, s, now, h) && match h {
        Some(h) => {
            &&& m2.watched.set() == toggled(m.watched.set(), h)
            &&& m2 == (Model { watched: m2.watched, ..m })
            &&& if m2.watched.set().contains(h) {
                toasted(s, seq!["👁 watching: "@ + h], now, s2) && cs.len() == 1
                    && (cs[0] matches Cmd::PersistWatchAdd { handle } && handle@ == h)
            } else {
                toasted(s, seq!["unwatched: "@ + h], now, s2) && cs.len() == 1
                    && (cs[0] matches Cmd::PersistWatchRemove { handle } && handle@ == h)
            }
        },
        None => m2 == m && toasted(s, seq!["no agent selected"@], now, s2) && cs.len() == 0,
    }
}

/// The keys recorded, without the Esc that ends the recording.
pub open spec fn recorded_keys(b: Seq<KeyPress>) -> Seq<KeyPress> {
    if b.len() > 0 && b.last().code == KeyCode::Esc { b.drop_last() } else { b }
}

/// Esc while recording: the recording ends; the keys are handed on to be
/// saved, or an empty recording is reported.
pub open spec fn end_recording_effect(s: Shell, now: i64, s2: Shell, cs: Seq<Cmd>) -> bool {
    let keys = recorded_keys(s.text.recording_buffer@);
    &&& s2 == (Shell { flags: Flags { recording_active: false, ..s.flags }, text: ShellText { recording_name: s2.text.recording_name,
        recording_buffer: s2.text.recording_buffer, toasts: s2.text.toasts, ..s.text }, ..s })
    &&& s2.text.recording_name@.len() == 0 && s2.text.recording_buffer@.len() == 0
    &&& if keys.len() == 0 {
        toasts_added(s.text.toasts@, seq!["macro empty: "@ + s.text.recording_name@], now, s2.text.toasts@) && cs.len() == 0
    } else {
        s2.text.toasts == s.text.toasts && cs.len() == 1
            && (cs[0] matches Cmd::SaveMacro { name, keys: k } && name@ == s.text.recording_name@ && k@ == keys)
    }
}

pub open spec fn palette_opened(s: Shell, s2: Shell) -> bool {
    &&& s2 == (Shell { flags: Flags { palette_active: true, ..s.flags }, cursors: Cursors { palette_cursor: 0, ..s.cursors },
        text: ShellText { palette_query: s2.text.palette_query, ..s.text }, ..s })
    &&& s2.text.palette_query@.len() == 0
}

pub open spec fn filter_opened(s: Shell, s2: Shell) -> bool {
    &&& s2 == (Shell { flags: Flags { filter_active: true, ..s.flags }, text: ShellText { filter_query: s2.text.filter_query, ..s.text }, ..s })
    &&& opt_view(s2.text.filter_query) == Some(Seq::<char>::empty())
}

pub open spec fn quickswitch_opened(s: Shell, s2: Shell) -> bool {
    &&& s2 == (Shell { flags: Flags { quickswitch_active: true, ..s.flags }, cursors: Cursors { quickswitch_cursor: 0, ..s.cursors },
        text: ShellText { quickswitch_query: s2.text.quickswitch_query, ..s.text }, ..s })
    &&& s2.text.quickswitch_query@.len() == 0
}

/// The note of `h` ("" when it has none).
pub open spec fn note_of(m: Model, h: Seq<char>) -> Seq<char> {
    if m.notes.text_map().dom().contains(h) { m.notes.text_map()[h] } else { Seq::empty() }
}

/// `n`: the note overlay opens on the agent under the cursor.
pub open spec fn note_effect(m: Model, s: Shell, now: i64, s2: Shell) -> bool {
    exists|h: Option<Seq<char>>| #[trigger] selected_is(m, s, now, h) && match h {
        Some(h) => {
            &&& s2 == (Shell { overlays: Overlays { note_overlay_active: true, ..s.overlays }, overlay_scroll: 0,
                text: ShellText { note_viewing_handle: s2.text.note_viewing_handle, note_edit_buf: s2.text.note_edit_buf, ..s.text }, ..s })
            &&& opt_view(s2.text.note_viewing_handle) == Some(h)
            &&& s2.text.note_edit_buf@ == note_of(m, h)
        },
        None => toasted(s, seq!["no agent selected"@], now, s2),
    }
}

/// `o`: the quick actions menu opens or closes.
pub open spec fn quick_effect(m: Model, s: Shell, now: i64, s2: Shell) -> bool {
    exists|h: Option<Seq<char>>| #[trigger] selected_is(m, s, now, h) && match h {
        Some(_) => s2 == (Shell { overlays: Overlays { quick_actions_active: !s.overlays.quick_actions_active, ..s.overlays },
            cursors: Cursors { quick_actions_cursor: 0, ..s.cursors }, ..s }),
        None => toasted(s, seq!["no agent selected"@], now, s2),
    }
}

/// `f`: focus mode turns on or off, when some agents are picked.
pub open spec fn focus_effect(s: Shell, now: i64, s2: Shell) -> bool {
    let n = s.text.selected_set.item_seq().len();
    if n == 0 {
        toasted(s, seq!["no agents selected (Space to select)"@], now, s2)
    } else {
        let s1 = Shell { flags: Flags { focus_mode: !s.flags.focus_mode, ..s.flags }, cursor: 0, ..s };
        if !s.flags.focus_mode {
            toasted(s1, seq!["◉ FOCUS: showing "@ + decimal(n) + " selected agents"@], now, s2)
        } else {
            toasted(s1, seq!["focus mode off"@], now, s2)
        }
    }
}

/// Tab or Shift-BackTab: the next tab, with input mode, the group detail,
/// the picked agents, focus mode and the input line cleared.
pub open spec fn tab_switched(s: Shell, s2: Shell) -> bool {
    let t = next_tab(s.tab);
    &&& s2 == (Shell { tab: t, cursor: 0, insert_mode: false, focus: focus_of(t),
        overlays: Overlays { group_detail_active: false, ..s.overlays }, flags: Flags { focus_mode: false, ..s.flags },
        text: ShellText { selected_set: s2.text.selected_set, input_buf: s2.text.input_buf, ..s.text }, ..s })
    &&& s2.text.selected_set.wf() && s2.text.selected_set.item_seq().len() == 0
    &&& s2.text.input_buf@.len() == 0
}

/// Esc in input mode: input mode ends and the line is dropped.
pub open spec fn insert_left(s: Shell, s2: Shell) -> bool {
    &&& s2 == (Shell { insert_mode: false, history_cursor: None, focus: focus_of(s.tab),
        text: ShellText { input_buf: s2.text.input_buf, saved_input: s2.text.saved_input, ..s.text }, ..s })
    &&& s2.text.input_buf@.len() == 0 && s2.text.saved_input@.len() == 0
}

/// Half the height of the window, at least one row.
pub open spec fn half_page(s: Shell) -> int {
    if s.size.1 / 2 >= 1 { (s.size.1 / 2) as int } else { 1 }
}

/// Ctrl-D: the cursor moves down half a page, staying on the list.
pub open spec fn half_down(m: Model, s: Shell, now: i64, s2: Shell) -> bool {
    &&& s2 == (Shell { cursor: s2.cursor, ..s })
    &&& exists|n: int| #[trigger] rows_are(m, s, now, n) && s2.cursor == (if n > 0 {
        if s.cursor + half_page(s) < n - 1 { s.cursor + half_page(s) } else { n - 1 }
    } else {
        s.cursor as int
    })
}

/// Ctrl-U: the cursor moves up half a page, stopping at the top.
pub open spec fn half_up(s: Shell, s2: Shell) -> bool {
    &&& s2 == (Shell { cursor: s2.cursor, ..s })
    &&& s2.cursor == (if s.cursor >= half_page(s) { s.cursor - half_page(s) } else { 0 })
}

/// The command bound to the character key `k`, if any.
pub open spec fn hotkey_of(m: Model, k: KeyPress) -> Option<Seq<char>> {
    match k.code {
        KeyCode::Char(c) => if m.hotkeys.text_map().dom().contains(seq![c]) { Some(m.hotkeys.text_map()[seq![c]]) } else { None },
        _ => None,
    }
}

/// What a key does in the main view, the bindings tried in order.
pub open spec fn main_effect(m: Model, s: Shell, k: KeyPress, me: Seq<char>, now: i64, m2: Model, s2: Shell, cs: Seq<Cmd>) -> bool {
    if !s.insert_mode && ctrl(k, 'w') {
        watch_effect(m, s, now, m2, s2, cs)
    } else if s.flags.recording_active && !s.insert_mode && k.code == KeyCode::Esc {
        m2 == m && end_recording_effect(s, now, s2, cs)
    } else if ctrl(k, 'p') || (plain(k, KeyCode::Char(':')) && !s.insert_mode) {
        m2 == m && cs.len() == 0 && palette_opened(s, s2)
    } else if plain(k, KeyCode::Char('/')) && !s.insert_mode && (s.tab == Tab::Directory || s.tab == Tab::Messages) {
        m2 == m && cs.len() == 0 && filter_opened(s, s2)
    } else {
        view_effect(m, s, k, me, now, m2, s2, cs)
    }
}

/// The overlays and modes opened by a letter outside input mode.
pub open spec fn view_effect(m: Model, s: Shell, k: KeyPress, me: Seq<char>, now: i64, m2: Model, s2: Shell, cs: Seq<Cmd>) -> bool {
    if plain(k, KeyCode::Char('w')) && !s.insert_mode {
        m2 == m && worktrees_opened(s, s2) && cs.len() == 1 && cs[0] is RefreshWorktreePs
    } else if plain(k, KeyCode::Char('t')) && !s.insert_mode {
        m2 == m && tasks_opened(s, s2) && cs.len() == 1 && cs[0] is RefreshOrchTasks
    } else if plain(k, KeyCode::Char('?')) && !s.insert_mode {
        m2 == m && cs.len() == 0 && cheatsheet_opened(s, s2)
    } else {
        toggle_effect(m, s, k, me, now, m2, s2, cs)
    }
}

pub open spec fn worktrees_opened(s: Shell, s2: Shell) -> bool {
    s2 == (Shell { overlays: Overlays { worktree_ps_active: true, ..s.overlays }, ..s })
}

pub open spec fn tasks_opened(s: Shell, s2: Shell) -> bool {
    s2 == (Shell { overlays: Overlays { orch_tasks_active: true, ..s.overlays }, overlay_scroll: 0, ..s })
}

pub open spec fn cheatsheet_opened(s: Shell, s2: Shell) -> bool {
    s2 == (Shell { overlays: Overlays { cheatsheet_active: true, ..s.overlays }, overlay_scroll: 0, ..s })
}

/// The letters that open or close an overlay, then the rest.
pub open spec fn toggle_effect(m: Model, s: Shell, k: KeyPress, me: Seq<char>, now: i64, m2: Model, s2: Shell, cs: Seq<Cmd>) -> bool {
    if overlay_key(k, s.tab) is Some && !s.insert_mode {
        m2 == m && cs.len() == 0 && toggled_overlay(s, overlay_key(k, s.tab)->0, s2)
    } else {
        letter_effect(m, s, k, me, now, m2, s2, cs)
    }
}

/// Quitting, tabs, leaving input mode, scrolling, hotkeys, then typing or
/// the normal-mode keys.
pub open spec fn move_effect(m: Model, s: Shell, k: KeyPress, me: Seq<char>, now: i64, m2: Model, s2: Shell, cs: Seq<Cmd>) -> bool {
    if (plain(k, KeyCode::Char('q')) && !s.insert_mode) || ctrl(k, 'c') {
        m2 == m && s2 == s && cs.len() == 1 && cs[0] is Quit
    } else if plain(k, KeyCode::Tab) || shifted(k, KeyCode::BackTab) {
        m2 == m && cs.len() == 0 && tab_switched(s, s2)
    } else if plain(k, KeyCode::Esc) && s.insert_mode {
        m2 == m && cs.len() == 0 && insert_left(s, s2)
    } else if ctrl(k, 'd') {
        m2 == m && cs.len() == 0 && half_down(m, s, now, s2)
    } else if ctrl(k, 'u') {
        m2 == m && cs.len() == 0 && half_up(s, s2)
    } else if !s.insert_mode && hotkey_of(m, k) is Some {
        line_effect(m, s, hotkey_of(m, k)->0, CHAIN_DEPTH as nat, me, now, m2, s2, cs)
    } else if s.insert_mode {
        typing_effect(m, s, k, me, now, m2, s2, cs)
    } else {
        normal_effect(m, s, k, now, m2, s2, cs)
    }
}

// ──── the global bindings carried out ────

fn watch_key(model: &mut Model, shell: &mut Shell, now: i64) -> (cs: Vec<Cmd>)
    requires
        old(model).wf(),
    ensures
        final(model).wf(),
        watch_effect(*old(model), *old(shell), now, *final(model), *final(shell), cs@),
{
    match selected_handle(model, shell, now) {
        Some(h) => {
            model.toggle_watch(h.as_str());
            if model.is_watched(h.as_str()) {
                raise_text(shell, concat("👁 watching: ", h.as_str()), now);
                vec![Cmd::PersistWatchAdd { handle: h }]
            } else {
                raise_text(shell, concat("unwatched: ", h.as_str()), now);
                vec![Cmd::PersistWatchRemove { handle: h }]
            }
        },
        None => {
            raise_text(shell, "no agent selected".to_owned(), now);
            Vec::new()
        },
    }
}

fn end_recording(shell: &mut Shell, now: i64) -> (cs: Vec<Cmd>)
    ensures
        end_recording_effect(*old(shell), now, *final(shell), cs@),
{
    let mut name = String::new();
    std::mem::swap(&mut name, &mut shell.text.recording_name);
    let mut keys: Vec<KeyPress> = Vec::new();
    std::mem::swap(&mut keys, &mut shell.text.recording_buffer);
    shell.flags = Flags { recording_active: false, ..shell.flags };
    let n = keys.len();
    if n > 0 && keys[n - 1].code == KeyCode::Esc {
        keys.pop();
    }
    if keys.len() == 0 {
        raise_text(shell, concat("macro empty: ", name.as_str()), now);
        return Vec::new();
    }
    vec![Cmd::SaveMacro { name, keys }]
}

fn open_palette(shell: &mut Shell)
    ensures
        palette_opened(*old(shell), *final(shell)),
{
    shell.flags = Flags { palette_active: true, ..shell.flags };
    shell.cursors = Cursors { palette_cursor: 0, ..shell.cursors };
    shell.text.palette_query = String::new();
}

fn open_filter(shell: &mut Shell)
    ensures
        filter_opened(*old(shell), *final(shell)),
{
    shell.flags = Flags { filter_active: true, ..shell.flags };
    shell.text.filter_query = Some(String::new());
}

fn open_quickswitch(shell: &mut Shell)
    ensures
        quickswitch_opened(*old(shell), *final(shell)),
{
    shell.flags = Flags { quickswitch_active: true, ..shell.flags };
    shell.cursors = Cursors { quickswitch_cursor: 0, ..shell.cursors };
    shell.text.quickswitch_query = String::new();
}

fn note_key(model: &Model, shell: &mut Shell, now: i64)
    requires
        model.wf(),
    ensures
        note_effect(*model, *old(shell), now, *final(shell)),
{
    match selected_handle(model, shell, now) {
        Some(h) => {
            let text = match model.get_note(h.as_str()) {
                Some(t) => t.clone(),
                None => String::new(),
            };
            shell.overlays = Overlays { note_overlay_active: true, ..shell.overlays };
            shell.overlay_scroll = 0;
            shell.text.note_viewing_handle = Some(h);
            shell.text.note_edit_buf = text;
        },
        None => raise_text(shell, "no agent selected".to_owned(), now),
    }
}

fn quick_key(model: &Model, shell: &mut Shell, now: i64)
    requires
        model.wf(),
    ensures
        quick_effect(*model, *old(shell), now, *final(shell)),
{
    match selected_handle(model, shell, now) {
        Some(_) => {
            shell.overlays = Overlays { quick_actions_active: !shell.overlays.quick_actions_active, ..shell.overlays };
            shell.cursors = Cursors { quick_actions_cursor: 0, ..shell.cursors };
        },
        None => raise_text(shell, "no agent selected".to_owned(), now),
    }
}

fn focus_key(shell: &mut Shell, now: i64)
    ensures
        focus_effect(*old(shell), now, *final(shell)),
{
    let n = shell.text.selected_set.len();
    if n == 0 {
        raise_text(shell, "no agents selected (Space to select)".to_owned(), now);
    } else {
        let on = !shell.flags.focus_mode;
        shell.flags = Flags { focus_mode: on, ..shell.flags };
        shell.cursor = 0;
        if on {
            let a = concat("◉ FOCUS: showing ", u64_to_string(n as u64).as_str());
            raise_text(shell, concat(a.as_str(), " selected agents"), now);
        } else {
            raise_text(shell, "focus mode off".to_owned(), now);
        }
    }
}

fn switch_tab(shell: &mut Shell)
    ensures
        tab_switched(*old(shell), *final(shell)),
{
    let t = shell.tab.next();
    shell.tab = t;
    shell.cursor = 0;
    shell.insert_mode = false;
    shell.overlays = Overlays { group_detail_active: false, ..shell.overlays };
    shell.flags = Flags { focus_mode: false, ..shell.flags };
    shell.text.selected_set = crate::strmap::StrSet::new();
    shell.text.input_buf = String::new();
    shell.focus = focus_of_tab(t);
}

fn leave_insert(shell: &mut Shell)
    ensures
        insert_left(*old(shell), *final(shell)),
{
    shell.insert_mode = false;
    shell.text.input_buf = String::new();
    shell.history_cursor = None;
    shell.text.saved_input = String::new();
    shell.focus = focus_of_tab(shell.tab);
}

fn half_of(shell: &Shell) -> (h: usize)
    ensures
        h == half_page(*shell),
{
    let h = (shell.size.1 / 2) as usize;
    if h >= 1 { h } else { 1 }
}

fn page_down(model: &Model, shell: &mut Shell, now: i64)
    requires
        model.wf(),
    ensures
        half_down(*model, *old(shell), now, *final(shell)),
{
    let n = row_count(model, shell, now);
    let half = half_of(shell);
    if n > 0 {
        if shell.cursor < n - 1 && half < n - 1 - shell.cursor {
            shell.cursor = shell.cursor + half;
        } else {
            shell.cursor = n - 1;
        }
    }
}

fn page_up(shell: &mut Shell)
    ensures
        half_up(*old(shell), *final(shell)),
{
    let half = half_of(shell);
    if shell.cursor >= half {
        shell.cursor = shell.cursor - half;
    } else {
        shell.cursor = 0;
    }
}

/// The command bound to the character key `k`, if any.
pub fn hotkey_text(model: &Model, k: KeyPress) -> (r: Option<String>)
    requires
        model.wf(),
    ensures
        opt_view(r) == hotkey_of(*model, k),
{
    match k.code {
        KeyCode::Char(c) => {
            let mut key = String::new();
            crate::text::push_char(&mut key, c);
            assert(key@ =~= seq![c]);
            match model.get_hotkey(key.as_str()) {
                Some(t) => Some(t.clone()),
                None => None,
            }
        },
        _ => None,
    }
}

/// What a key does in the main view (see `main_effect`).
#[verifier::spinoff_prover]
pub fn main_key(model: &mut Model, shell: &mut Shell, k: KeyPress, me: &str, now: i64) -> (cs: Vec<Cmd>)
    requires
        old(model).wf(),
        old(shell).text.selected_set.wf(),
        old(model).generation + 3 <= u64::MAX,
    ensures
        final(model).wf(),
        final(shell).text.selected_set.wf(),
        old(model).generation <= final(model).generation,
        main_effect(*old(model), *old(shell), k, me@, now, *final(model), *final(shell), cs@),
{
    if !shell.insert_mode && is_ctrl(k, 'w') {
        watch_key(model, shell, now)
    } else if shell.flags.recording_active && !shell.insert_mode && k.code == KeyCode::Esc {
        end_recording(shell, now)
    } else if is_ctrl(k, 'p') || (is_plain(k, KeyCode::Char(':')) && !shell.insert_mode) {
        open_palette(shell);
        Vec::new()
    } else if is_plain(k, KeyCode::Char('/')) && !shell.insert_mode && (shell.tab == Tab::Directory || shell.tab == Tab::Messages) {
        open_filter(shell);
        Vec::new()
    } else {
        view_key(model, shell, k, me, now)
    }
}

#[verifier::spinoff_prover]
fn view_key(model: &mut Model, shell: &mut Shell, k: KeyPress, me: &str, now: i64) -> (cs: Vec<Cmd>)
    requires
        old(model).wf(),
        old(shell).text.selected_set.wf(),
        old(model).generation + 3 <= u64::MAX,
    ensures
        final(model).wf(),
        final(shell).text.selected_set.wf(),
        old(model).generation <= final(model).generation,
        view_effect(*old(model), *old(shell), k, me@, now, *final(model), *final(shell), cs@),
{
    let ins = shell.insert_mode;
    if is_plain(k, KeyCode::Char('w')) && !ins {
        open_worktrees(shell);
        vec![Cmd::RefreshWorktreePs]
    } else if is_plain(k, KeyCode::Char('t')) && !ins {
        open_tasks(shell);
        vec![Cmd::RefreshOrchTasks]
    } else if is_plain(k, KeyCode::Char('?')) && !ins {
        open_cheatsheet(shell);
        Vec::new()
    } else {
        toggle_key(model, shell, k, me, now)
    }
}

#[verifier::spinoff_prover]
fn toggle_key(model: &mut Model, shell: &mut Shell, k: KeyPress, me: &str, now: i64) -> (cs: Vec<Cmd>)
    requires
        old(model).wf(),
        old(shell).text.selected_set.wf(),
        old(model).generation + 3 <= u64::MAX,
    ensures
        final(model).wf(),
        final(shell).text.selected_set.wf(),
        old(model).generation <= final(model).generation,
        toggle_effect(*old(model), *old(shell), k, me@, now, *final(model), *final(shell), cs@),
{
    let o = overlay_of_key(k, shell.tab);
    if o.is_some() && !shell.insert_mode {
        toggle_overlay(shell, o.unwrap());
        Vec::new()
    } else {
        letter_key(model, shell, k, me, now)
    }
}

fn open_worktrees(shell: &mut Shell)
    ensures
        worktrees_opened(*old(shell), *final(shell)),
{
    shell.overlays = Overlays { worktree_ps_active: true, ..shell.overlays };
}

fn open_tasks(shell: &mut Shell)
    ensures
        tasks_opened(*old(shell), *final(shell)),
{
    shell.overlays = Overlays { orch_tasks_active: true, ..shell.overlays };
    shell.overlay_scroll = 0;
}

fn open_cheatsheet(shell: &mut Shell)
    ensures
        cheatsheet_opened(*old(shell), *final(shell)),
{
    shell.overlays = Overlays { cheatsheet_active: true, ..shell.overlays };
    shell.overlay_scroll = 0;
}

/// The letters n, o, v and f outside input mode, then the rest.
pub open spec fn letter_effect(m: Model, s: Shell, k: KeyPress, me: Seq<char>, now: i64, m2: Model, s2: Shell, cs: Seq<Cmd>) -> bool {
    if plain(k, KeyCode::Char('n')) && !s.insert_mode {
        m2 == m && cs.len() == 0 && note_effect(m, s, now, s2)
    } else if plain(k, KeyCode::Char('o')) && !s.insert_mode {
        m2 == m && cs.len() == 0 && quick_effect(m, s, now, s2)
    } else if plain(k, KeyCode::Char('v')) && !s.insert_mode {
        m2 == m && cs.len() == 0 && quickswitch_opened(s, s2)
    } else if plain(k, KeyCode::Char('f')) && !s.insert_mode {
        m2 == m && cs.len() == 0 && focus_effect(s, now, s2)
    } else {
        move_effect(m, s, k, me, now, m2, s2, cs)
    }
}

#[verifier::spinoff_prover]
fn letter_key(model: &mut Model, shell: &mut Shell, k: KeyPress, me: &str, now: i64) -> (cs: Vec<Cmd>)
    requires
        old(model).wf(),
        old(shell).text.selected_set.wf(),
        old(model).generation + 3 <= u64::MAX,
    ensures
        final(model).wf(),
        final(shell).text.selected_set.wf(),
        old(model).generation <= final(model).generation,
        letter_effect(*old(model), *old(shell), k, me@, now, *final(model), *final(shell), cs@),
{
    let ins = shell.insert_mode;
    if is_plain(k, KeyCode::Char('n')) && !ins {
        note_key(model, shell, now);
        Vec::new()
    } else if is_plain(k, KeyCode::Char('o')) && !ins {
        quick_key(model, shell, now);
        Vec::new()
    } else if is_plain(k, KeyCode::Char('v')) && !ins {
        open_quickswitch(shell);
        Vec::new()
    } else if is_plain(k, KeyCode::Char('f')) && !ins {
        focus_key(shell, now);
        Vec::new()
    } else {
        move_key(model, shell, k, me, now)
    }
}

#[verifier::spinoff_prover]
fn move_key(model: &mut Model, shell: &mut Shell, k: KeyPress, me: &str, now: i64) -> (cs: Vec<Cmd>)
    requires
        old(model).wf(),
        old(shell).text.selected_set.wf(),
        old(model).generation + 3 <= u64::MAX,
    ensures
        final(model).wf(),
        final(shell).text.selected_set.wf(),
        old(model).generation <= final(model).generation,
        move_effect(*old(model), *old(shell), k, me@, now, *final(model), *final(shell), cs@),
{
    let ins = shell.insert_mode;
    if (is_plain(k, KeyCode::Char('q')) && !ins) || is_ctrl(k, 'c') {
        vec![Cmd::Quit]
    } else if is_plain(k, KeyCode::Tab) || is_shifted(k, KeyCode::BackTab) {
        switch_tab(shell);
        Vec::new()
    } else if is_plain(k, KeyCode::Esc) && ins {
        leave_insert(shell);
        Vec::new()
    } else if is_ctrl(k, 'd') {
        page_down(model, shell, now);
        Vec::new()
    } else if is_ctrl(k, 'u') {
        page_up(shell);
        Vec::new()
    } else {
        let hot = if !ins { hotkey_text(model, k) } else { None };
        match hot {
            Some(t) => dispatch_line(model, shell, t, CHAIN_DEPTH, me, now),
            None => if ins {
                typing_key(model, shell, k, me, now)
            } else {
                normal_key(model, shell, k, now)
            },
        }
    }
}

// ──── routing ────

/// An overlay that takes the keys is open.
pub open spec fn overlay_open(s: Shell) -> bool {
    let o = s.overlays;
    s.text.overlay_content is Some || o.worktree_ps_active || o.group_detail_active || o.cheatsheet_active
        || o.config_overlay_active || o.orch_tasks_active || o.activity_active || o.history_overlay_active
        || o.dashboard_active || o.snippet_overlay_active || o.rule_overlay_active || o.macro_overlay_active
        || o.views_overlay_active || o.metrics_overlay_active || o.note_overlay_active || o.quick_actions_active
        || o.alias_overlay_active || o.hotkeys_overlay_active || o.theme_overlay_active
}

/// What can be asked of `handle_key`: moving down in the filter needs room
/// for the cursor.
pub open spec fn key_allowed(m: Model, s: Shell, k: KeyPress) -> bool {
    &&& (!s.flags.search_active && !(!s.insert_mode && ctrl(k, 's')) && !s.flags.palette_active && s.flags.filter_active
        && (plain(k, KeyCode::Char('j')) || plain(k, KeyCode::Down))) ==> s.cursor < usize::MAX
}

/// What a key does: the search, the palette, the filter, the quick
/// switcher or an overlay takes it when open, in that order; otherwise the
/// main view.
pub open spec fn key_effect(m: Model, s: Shell, k: KeyPress, me: Seq<char>, now: i64, m2: Model, s2: Shell, cs: Seq<Cmd>) -> bool {
    if s.flags.search_active {
        m2 == m && crate::finder::search_effect(m, s, k, now, s2, cs)
    } else if !s.insert_mode && ctrl(k, 's') {
        m2 == m && cs.len() == 0 && crate::palette::search_opened(s, s2)
    } else if s.flags.palette_active {
        m2 == m && crate::palette::palette_effect(m, s, k, now, s2, cs)
    } else if s.flags.filter_active {
        m2 == m && cs.len() == 0 && crate::keymap::filter_effect(s, k, s2)
    } else if s.flags.quickswitch_active {
        m2 == m && cs.len() == 0 && crate::finder::qs_effect(m, s, k, now, s2)
    } else if overlay_open(s) {
        crate::overlay::overlay_effect(m, s, k, now, m2, s2, cs)
    } else {
        main_effect(m, s, k, me, now, m2, s2, cs)
    }
}

/// Whether `handle_key` can take `k` (see `key_allowed`).
pub fn key_permitted(model: &Model, shell: &Shell, k: KeyPress) -> (r: bool)
    requires
        model.wf(),
    ensures
        r == key_allowed(*model, *shell, k),
{
    let to_filter = !shell.flags.search_active && !(!shell.insert_mode && is_ctrl(k, 's')) && !shell.flags.palette_active
        && shell.flags.filter_active;
    let down = is_plain(k, KeyCode::Char('j')) || is_plain(k, KeyCode::Down);
    let room = !(to_filter && down) || shell.cursor < usize::MAX;
    room
}

/// What a key does (see `key_effect`).
#[verifier::spinoff_prover]
pub fn handle_key(model: &mut Model, shell: &mut Shell, k: KeyPress, me: &str, now: i64) -> (cs: Vec<Cmd>)
    requires
        old(model).wf(),
        old(shell).text.selected_set.wf(),
        old(model).generation + 3 <= u64::MAX,
        key_allowed(*old(model), *old(shell), k),
    ensures
        final(model).wf(),
        final(shell).text.selected_set.wf(),
        old(model).generation <= final(model).generation,
        key_effect(*old(model), *old(shell), k, me@, now, *final(model), *final(shell), cs@),
{
    if shell.flags.search_active {
        crate::finder::search_key(model, shell, k, now)
    } else if !shell.insert_mode && is_ctrl(k, 's') {
        crate::finder::open_search(shell);
        Vec::new()
    } else if shell.flags.palette_active {
        crate::palette::palette_key(model, shell, k, now)
    } else if shell.flags.filter_active {
        crate::keymap::filter_key(shell, k);
        Vec::new()
    } else if shell.flags.quickswitch_active {
        crate::finder::quickswitch_key(model, shell, k, now);
        Vec::new()
    } else if overlay_shown(shell) {
        crate::overlay::overlay_key(model, shell, k, now)
    } else {
        main_key(model, shell, k, me, now)
    }
}

fn overlay_shown(shell: &Shell) -> (r: bool)
    ensures
        r == overlay_open(*shell),
{
    let o = shell.overlays;
    shell.text.overlay_content.is_some() || o.worktree_ps_active || o.group_detail_active || o.cheatsheet_active
        || o.config_overlay_active || o.orch_tasks_active || o.activity_active || o.history_overlay_active
        || o.dashboard_active || o.snippet_overlay_active || o.rule_overlay_active || o.macro_overlay_active
        || o.views_overlay_active || o.metrics_overlay_active || o.note_overlay_active || o.quick_actions_active
        || o.alias_overlay_active || o.hotkeys_overlay_active || o.theme_overlay_active
}

} // verus!
