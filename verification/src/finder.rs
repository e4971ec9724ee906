//! The keys of the global search and of the agent quick switcher.
use vstd::prelude::*;
use crate::keys::{KeyPress, KeyCode};
use crate::store::Model;
use crate::shell::{Shell, ShellText, Tab, Overlays, Flags, Cursors, FocusTarget};
use crate::update::Cmd;
use crate::keymap::{is_plain, plain, typed, typed_of, index_in, position_of, drop_last_char, pop_text};
use crate::palette::{Action, action_named, action_for, action_effect, run_action, search_opened};
use crate::search::{JumpTarget, JumpView, search_results, global_search, results_view, result_view};
use crate::select::{listed, listed_handles_at};
use crate::text::{views, push_char, lower_seq, lower_vec, chars_of, has_sub, contains_vec};
use crate::directory::{keep_seq, apply_focus_filter};
use crate::model::opt_view;

verus! {

broadcast use vstd::string::group_string_axioms;

// ──── global search ────

pub open spec fn search_closed(s: Shell, s2: Shell) -> bool {
    &&& s2 == (Shell { flags: Flags { search_active: false, ..s.flags }, cursors: Cursors { search_cursor: 0, ..s.cursors },
        text: ShellText { search_query: s2.text.search_query, ..s.text }, ..s })
    &&& s2.text.search_query@.len() == 0
}

/// Scroll position that shows entry `idx` of a list of `total` shown newest
/// first.
pub open spec fn back_index(total: int, idx: int) -> int {
    let last = if total >= 1 { total - 1 } else { 0 };
    if last >= idx { last - idx } else { 0 }
}

/// Where a search result leads, from the shell with the search closed.
pub open spec fn jump_effect(m: Model, s: Shell, j: JumpView, now: i64, s2: Shell, cs: Seq<Cmd>) -> bool {
    match j {
        JumpView::AgentHandle(h) => cs.len() == 0 && exists|hs: Seq<Seq<char>>| #[trigger] listed(hs, m, None, now as int)
            && match index_in(hs, h) {
                Some(i) => s2 == (Shell { tab: Tab::Directory, cursor: i as usize, focus: FocusTarget::Directory,
                    flags: Flags { filter_active: false, ..s.flags }, text: ShellText { filter_query: None, ..s.text }, ..s }),
                None => s2 == s,
            },
        JumpView::CommandName(n) => match action_named(n) {
            Some(a) => action_effect(m, s, a, now, s2, cs),
            None => s2 == s && cs.len() == 0,
        },
        JumpView::EventIndex(i) => cs.len() == 0 && s2 == (Shell { overlays: Overlays { activity_active: true, ..s.overlays },
            overlay_scroll: back_index(m.events@.len() as int, i) as usize, ..s }),
        JumpView::HistoryIndex(i) => cs.len() == 0 && s2 == (Shell { overlays: Overlays { history_overlay_active: true, ..s.overlays },
            overlay_scroll: back_index(m.history@.len() as int, i) as usize, ..s }),
    }
}

/// Enter in the search: the search closes and the result under the cursor
/// is opened.
pub open spec fn search_enter(m: Model, s: Shell, now: i64, s2: Shell, cs: Seq<Cmd>) -> bool {
    let rs = search_results(m, s.text.search_query@);
    let i = s.cursors.search_cursor as int;
    exists|s1: Shell| #[trigger] search_closed(s, s1) && if i < rs.len() {
        jump_effect(m, s1, rs[i].jump, now, s2, cs)
    } else {
        s2 == s1 && cs.len() == 0
    }
}

pub open spec fn search_query_set(s: Shell, q: Seq<char>, s2: Shell) -> bool {
    &&& s2 == (Shell { cursors: Cursors { search_cursor: 0, ..s.cursors }, text: ShellText { search_query: s2.text.search_query, ..s.text }, ..s })
    &&& s2.text.search_query@ == q
}

/// What a key does while the search is open.
pub open spec fn search_effect(m: Model, s: Shell, k: KeyPress, now: i64, s2: Shell, cs: Seq<Cmd>) -> bool {
    if plain(k, KeyCode::Esc) {
        search_closed(s, s2) && cs.len() == 0
    } else if plain(k, KeyCode::Enter) {
        search_enter(m, s, now, s2, cs)
    } else if plain(k, KeyCode::Down) || plain(k, KeyCode::Char('j')) {
        cs.len() == 0 && s2 == (Shell { cursors: Cursors { search_cursor: s2.cursors.search_cursor, ..s.cursors }, ..s })
            && s2.cursors.search_cursor == (if s.cursors.search_cursor + 1 < search_results(m, s.text.search_query@).len() {
                s.cursors.search_cursor + 1 } else { s.cursors.search_cursor as int })
    } else if plain(k, KeyCode::Up) || plain(k, KeyCode::Char('k')) {
        cs.len() == 0 && s2 == (Shell { cursors: Cursors { search_cursor: s2.cursors.search_cursor, ..s.cursors }, ..s })
            && s2.cursors.search_cursor == (if s.cursors.search_cursor > 0 { s.cursors.search_cursor - 1 } else { 0 })
    } else if plain(k, KeyCode::Backspace) {
        cs.len() == 0 && search_query_set(s, drop_last_char(s.text.search_query@), s2)
    } else if typed(k) is Some {
        cs.len() == 0 && search_query_set(s, s.text.search_query@.push(typed(k)->0), s2)
    } else {
        s2 == s && cs.len() == 0
    }
}

fn close_search(shell: &mut Shell)
    ensures
        search_closed(*old(shell), *final(shell)),
{
    shell.flags = Flags { search_active: false, ..shell.flags };
    shell.cursors = Cursors { search_cursor: 0, ..shell.cursors };
    shell.text.search_query = String::new();
}

/// Opens the global search with an empty query.
pub fn open_search(shell: &mut Shell)
    ensures
        search_opened(*old(shell), *final(shell)),
{
    shell.flags = Flags { search_active: true, ..shell.flags };
    shell.cursors = Cursors { search_cursor: 0, ..shell.cursors };
    shell.text.search_query = String::new();
}

fn back_of(total: usize, idx: usize) -> (r: usize)
    ensures
        r == back_index(total as int, idx as int),
{
    let last = if total >= 1 { total - 1 } else { 0 };
    if last >= idx { last - idx } else { 0 }
}

fn jump_agent(model: &Model, shell: &mut Shell, h: &String, now: i64)
    requires
        model.wf(),
    ensures
        jump_effect(*model, *old(shell), JumpView::AgentHandle(h@), now, *final(shell), Seq::<Cmd>::empty()),
{
    let hs = listed_handles_at(model, None, now);
    assert(listed(views(hs@), *model, None, now as int));
    match position_of(&hs, h) {
        Some(i) => {
            shell.tab = Tab::Directory;
            shell.cursor = i;
            shell.focus = FocusTarget::Directory;
            shell.flags = Flags { filter_active: false, ..shell.flags };
            shell.text.filter_query = None;
        },
        None => {},
    }
}

pub open spec fn jump_view(j: JumpTarget) -> JumpView {
    match j {
        JumpTarget::AgentHandle(h) => JumpView::AgentHandle(h@),
        JumpTarget::EventIndex(i) => JumpView::EventIndex(i as int),
        JumpTarget::HistoryIndex(i) => JumpView::HistoryIndex(i as int),
        JumpTarget::CommandName(n) => JumpView::CommandName(n@),
    }
}

fn jump_to(model: &Model, shell: &mut Shell, j: JumpTarget, now: i64) -> (cs: Vec<Cmd>)
    requires
        model.wf(),
        old(shell).text.selected_set.wf(),
    ensures
        final(shell).text.selected_set.wf(),
        jump_effect(*model, *old(shell), jump_view(j), now, *final(shell), cs@),
{
    match j {
        JumpTarget::AgentHandle(h) => {
            jump_agent(model, shell, &h, now);
            Vec::new()
        },
        JumpTarget::CommandName(n) => match action_for(n.as_str()) {
            Some(a) => run_action(model, shell, a, now),
            None => Vec::new(),
        },
        JumpTarget::EventIndex(i) => {
            let sc = back_of(model.events.len(), i);
            shell.overlays = Overlays { activity_active: true, ..shell.overlays };
            shell.overlay_scroll = sc;
            Vec::new()
        },
        JumpTarget::HistoryIndex(i) => {
            let sc = back_of(model.history.len(), i);
            shell.overlays = Overlays { history_overlay_active: true, ..shell.overlays };
            shell.overlay_scroll = sc;
            Vec::new()
        },
    }
}

fn search_jump(model: &Model, shell: &mut Shell, now: i64) -> (cs: Vec<Cmd>)
    requires
        model.wf(),
        old(shell).text.selected_set.wf(),
    ensures
        final(shell).text.selected_set.wf(),
        search_enter(*model, *old(shell), now, *final(shell), cs@),
{
    let mut rs = global_search(model, shell.text.search_query.as_str());
    let ghost rv = rs@;
    let i = shell.cursors.search_cursor;
    close_search(shell);
    let ghost s1 = *shell;
    if i < rs.len() {
        let r = rs.remove(i);
        assert(r == rv[i as int]);
        assert(result_view(r) == results_view(rv)[i as int]);
        assert(jump_view(r.jump_target) == result_view(r).jump);
        let cs = jump_to(model, shell, r.jump_target, now);
        assert(search_closed(*old(shell), s1));
        cs
    } else {
        assert(search_closed(*old(shell), s1));
        Vec::new()
    }
}

fn set_search_query(shell: &mut Shell, q: String)
    ensures
        search_query_set(*old(shell), q@, *final(shell)),
{
    shell.cursors = Cursors { search_cursor: 0, ..shell.cursors };
    shell.text.search_query = q;
}

/// What a key does while the search is open (see `search_effect`).
pub fn search_key(model: &Model, shell: &mut Shell, k: KeyPress, now: i64) -> (cs: Vec<Cmd>)
    requires
        model.wf(),
        old(shell).text.selected_set.wf(),
    ensures
        final(shell).text.selected_set.wf(),
        search_effect(*model, *old(shell), k, now, *final(shell), cs@),
{
    if is_plain(k, KeyCode::Esc) {
        close_search(shell);
        Vec::new()
    } else if is_plain(k, KeyCode::Enter) {
        search_jump(model, shell, now)
    } else if is_plain(k, KeyCode::Down) || is_plain(k, KeyCode::Char('j')) {
        let n = global_search(model, shell.text.search_query.as_str()).len();
        let c = shell.cursors.search_cursor;
        if c < n && c + 1 < n {
            shell.cursors = Cursors { search_cursor: c + 1, ..shell.cursors };
        }
        Vec::new()
    } else if is_plain(k, KeyCode::Up) || is_plain(k, KeyCode::Char('k')) {
        let c = shell.cursors.search_cursor;
        let c2 = if c > 0 { c - 1 } else { 0 };
        shell.cursors = Cursors { search_cursor: c2, ..shell.cursors };
        Vec::new()
    } else if is_plain(k, KeyCode::Backspace) {
        let q = pop_text(&shell.text.search_query);
        set_search_query(shell, q);
        Vec::new()
    } else {
        match typed_of(k) {
            Some(c) => {
                let mut q = shell.text.search_query.clone();
                push_char(&mut q, c);
                set_search_query(shell, q);
            },
            None => {},
        }
        Vec::new()
    }
}

// ──── quick switcher ────

/// Agent `h` matches the lowercased query `lq` by handle, title or working
/// directory (as a contiguous part, ignoring ASCII case).
pub open spec fn qs_match(m: Model, lq: Seq<char>, h: Seq<char>) -> bool {
    m.directory.map().dom().contains(h) && {
        let a = m.directory.map()[h];
        has_sub(lower_seq(h), lq) || has_sub(lower_seq(match a.title { Some(t) => t@, None => Seq::<char>::empty() }), lq)
            || has_sub(lower_seq(a.cwd@), lq)
    }
}

/// The agents of the listing `hs` that the quick switcher offers.
pub open spec fn qs_list(m: Model, s: Shell, hs: Seq<Seq<char>>) -> Seq<Seq<char>> {
    let lq = lower_seq(s.text.quickswitch_query@);
    if lq.len() == 0 { hs } else { keep_seq(hs, |h: Seq<char>| qs_match(m, lq, h)) }
}

/// The listing as shown, narrowed to the picked agents in focus mode.
pub open spec fn shown_list(s: Shell, hs: Seq<Seq<char>>) -> Seq<Seq<char>> {
    if s.flags.focus_mode && s.text.selected_set.item_seq().len() > 0 {
        keep_seq(hs, |x: Seq<char>| s.text.selected_set.set().contains(x))
    } else {
        hs
    }
}

pub open spec fn qs_closed(s: Shell, s2: Shell) -> bool {
    &&& s2 == (Shell { flags: Flags { quickswitch_active: false, ..s.flags }, cursors: Cursors { quickswitch_cursor: 0, ..s.cursors },
        text: ShellText { quickswitch_query: s2.text.quickswitch_query, ..s.text }, ..s })
    &&& s2.text.quickswitch_query@.len() == 0
}

/// Enter in the quick switcher: it closes, and the cursor goes to the agent
/// picked in it on the directory as shown.
pub open spec fn qs_enter(m: Model, s: Shell, now: i64, s2: Shell) -> bool {
    exists|hs: Seq<Seq<char>>| #[trigger] listed(hs, m, None, now as int) && exists|s1: Shell| #[trigger] qs_closed(s, s1) && {
        let ms = qs_list(m, s, hs);
        let i = s.cursors.quickswitch_cursor as int;
        if i < ms.len() && index_in(shown_list(s, hs), ms[i]) is Some {
            s2 == (Shell { cursor: index_in(shown_list(s, hs), ms[i])->0 as usize, tab: Tab::Directory, focus: FocusTarget::Directory, ..s1 })
        } else {
            s2 == s1
        }
    }
}

pub open spec fn qs_query_set(s: Shell, q: Seq<char>, s2: Shell) -> bool {
    &&& s2 == (Shell { cursors: Cursors { quickswitch_cursor: 0, ..s.cursors }, text: ShellText { quickswitch_query: s2.text.quickswitch_query, ..s.text }, ..s })
    &&& s2.text.quickswitch_query@ == q
}

/// j or Down (k or Up when `up`): the cursor moves through the offered
/// agents, wrapping around.
pub open spec fn qs_moved(m: Model, s: Shell, up: bool, now: i64, s2: Shell) -> bool {
    &&& s2 == (Shell { cursors: Cursors { quickswitch_cursor: s2.cursors.quickswitch_cursor, ..s.cursors }, ..s })
    &&& exists|hs: Seq<Seq<char>>| #[trigger] listed(hs, m, None, now as int) && {
        let n = qs_list(m, s, hs).len();
        let c = s.cursors.quickswitch_cursor as int;
        s2.cursors.quickswitch_cursor == (if n == 0 { c } else if !up { (c + 1) % (n as int) } else if c == 0 { n - 1 } else { c - 1 })
    }
}

/// What a key does while the quick switcher is open.
pub open spec fn qs_effect(m: Model, s: Shell, k: KeyPress, now: i64, s2: Shell) -> bool {
    if k.code == KeyCode::Esc {
        qs_closed(s, s2)
    } else if k.code == KeyCode::Enter {
        qs_enter(m, s, now, s2)
    } else if k.code == KeyCode::Backspace {
        qs_query_set(s, drop_last_char(s.text.quickswitch_query@), s2)
    } else if k.code == KeyCode::Char('j') || k.code == KeyCode::Down {
        qs_moved(m, s, false, now, s2)
    } else if k.code == KeyCode::Char('k') || k.code == KeyCode::Up {
        qs_moved(m, s, true, now, s2)
    } else if typed(k) is Some {
        qs_query_set(s, s.text.quickswitch_query@.push(typed(k)->0), s2)
    } else {
        s2 == s
    }
}

fn lower_of(t: &str) -> (r: Vec<char>)
    ensures
        r@ == lower_seq(t@),
{
    lower_vec(&chars_of(t))
}

fn qs_matches(model: &Model, lq: &Vec<char>, h: &String) -> (r: bool)
    requires
        model.wf(),
    ensures
        r == qs_match(*model, lq@, h@),
{
    match model.directory.get(h.as_str()) {
        Some(a) => {
            let t = match &a.title {
                Some(t) => lower_of(t.as_str()),
                None => Vec::new(),
            };
            assert(t@ == lower_seq(match a.title { Some(t) => t@, None => Seq::<char>::empty() })) by {
                assert(lower_seq(Seq::<char>::empty()) =~= Seq::<char>::empty());
            }
            contains_vec(&lower_of(h.as_str()), lq) || contains_vec(&t, lq) || contains_vec(&lower_of(a.cwd.as_str()), lq)
        },
        None => false,
    }
}

fn qs_offered(model: &Model, shell: &Shell, hs: &Vec<String>) -> (r: Vec<String>)
    requires
        model.wf(),
    ensures
        views(r@) == qs_list(*model, *shell, views(hs@)),
{
    let lq = lower_of(shell.text.quickswitch_query.as_str());
    let ghost hv = views(hs@);
    if lq.len() == 0 {
        let mut r: Vec<String> = Vec::new();
        let mut i: usize = 0;
        while i < hs.len()
            invariant
                i <= hs.len(),
                hv == views(hs@),
                views(r@) == hv.take(i as int),
            decreases hs.len() - i,
        {
            let ghost before = views(r@);
            r.push(hs[i].clone());
            assert(views(r@) =~= before.push(hv[i as int]));
            assert(hv.take(i as int + 1) =~= hv.take(i as int).push(hv[i as int]));
            i += 1;
        }
        assert(hv.take(hs.len() as int) =~= hv);
        return r;
    }
    let ghost keep = |h: Seq<char>| qs_match(*model, lq@, h);
    let mut r: Vec<String> = Vec::new();
    let mut i: usize = 0;
    assert(hv.take(0) =~= Seq::<Seq<char>>::empty());
    while i < hs.len()
        invariant
            i <= hs.len(),
            hv == views(hs@),
            model.wf(),
            keep == (|h: Seq<char>| qs_match(*model, lq@, h)),
            views(r@) == keep_seq(hv.take(i as int), keep),
        decreases hs.len() - i,
    {
        assert(hv.take(i as int + 1).drop_last() =~= hv.take(i as int));
        let ghost before = views(r@);
        if qs_matches(model, &lq, &hs[i]) {
            r.push(hs[i].clone());
            assert(views(r@) =~= before.push(hv[i as int]));
        } else {
            assert(views(r@) =~= before);
        }
        i += 1;
    }
    assert(hv.take(hs.len() as int) =~= hv);
    r
}

fn qs_close(shell: &mut Shell)
    ensures
        qs_closed(*old(shell), *final(shell)),
{
    shell.flags = Flags { quickswitch_active: false, ..shell.flags };
    shell.cursors = Cursors { quickswitch_cursor: 0, ..shell.cursors };
    shell.text.quickswitch_query = String::new();
}

fn qs_jump(model: &Model, shell: &mut Shell, now: i64)
    requires
        model.wf(),
    ensures
        qs_enter(*model, *old(shell), now, *final(shell)),
{
    let hs = listed_handles_at(model, None, now);
    let ghost hv = views(hs@);
    assert(listed(hv, *model, None, now as int));
    let ms = qs_offered(model, shell, &hs);
    let i = shell.cursors.quickswitch_cursor;
    let sel = shell.text.selected_set.copy();
    let fm = shell.flags.focus_mode;
    let n_sel = sel.len();
    let full = apply_focus_filter(hs, fm, &sel);
    assert(views(full@) == shown_list(*old(shell), hv)) by {
        assert(sel.set() =~= old(shell).text.selected_set.set());
    }
    qs_close(shell);
    let ghost s1 = *shell;
    assert(qs_closed(*old(shell), s1));
    if i < ms.len() {
        match position_of(&full, &ms[i]) {
            Some(idx) => {
                shell.cursor = idx;
                shell.tab = Tab::Directory;
                shell.focus = FocusTarget::Directory;
            },
            None => {},
        }
    }
}

fn set_qs_query(shell: &mut Shell, q: String)
    ensures
        qs_query_set(*old(shell), q@, *final(shell)),
{
    shell.cursors = Cursors { quickswitch_cursor: 0, ..shell.cursors };
    shell.text.quickswitch_query = q;
}

fn qs_move(model: &Model, shell: &mut Shell, up: bool, now: i64)
    requires
        model.wf(),
    ensures
        qs_moved(*model, *old(shell), up, now, *final(shell)),
{
    let hs = listed_handles_at(model, None, now);
    assert(listed(views(hs@), *model, None, now as int));
    let n = qs_offered(model, shell, &hs).len();
    let c = shell.cursors.quickswitch_cursor;
    if n > 0 {
        let c2 = if !up {
            let r = c % n;
            assert((c + 1) % (n as int) == (if r + 1 == n { 0 } else { r + 1 })) by (nonlinear_arith)
                requires r == c % n, n > 0;
            if r + 1 == n { 0 } else { r + 1 }
        } else if c == 0 {
            n - 1
        } else {
            c - 1
        };
        shell.cursors = Cursors { quickswitch_cursor: c2, ..shell.cursors };
    }
}

/// What a key does while the quick switcher is open (see `qs_effect`).
pub fn quickswitch_key(model: &Model, shell: &mut Shell, k: KeyPress, now: i64)
    requires
        model.wf(),
    ensures
        qs_effect(*model, *old(shell), k, now, *final(shell)),
{
    if k.code == KeyCode::Esc {
        qs_close(shell);
    } else if k.code == KeyCode::Enter {
        qs_jump(model, shell, now);
    } else if k.code == KeyCode::Backspace {
        let q = pop_text(&shell.text.quickswitch_query);
        set_qs_query(shell, q);
    } else if k.code == KeyCode::Char('j') || k.code == KeyCode::Down {
        qs_move(model, shell, false, now);
    } else if k.code == KeyCode::Char('k') || k.code == KeyCode::Up {
        qs_move(model, shell, true, now);
    } else {
        match typed_of(k) {
            Some(c) => {
                let mut q = shell.text.quickswitch_query.clone();
                push_char(&mut q, c);
                set_qs_query(shell, q);
            },
            None => {},
        }
    }
}

} // verus!
