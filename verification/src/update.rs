//! Decisions of the update step that do not depend on the terminal: alias
//! expansion of input lines, activity-log notes, and the commands handed to
//! the program to carry out.
use vstd::prelude::*;
use crate::store::Model;
use crate::model::{Agent, Event, EventSeverity, EventCategory, AlertRule, RecordedMacro, ViewSnapshot, EVENTS_CAP, now_ms};
use crate::keys::{KeyPress, KeyCode};
use crate::shell::{Shell, ShellText, kept_toasts};
use crate::strmap::StrMap;
use crate::directory::keep_seq;
use crate::model::clone_opt;
use crate::store::{merge_all, pane_keyed_all, status_map_of, status_applied};
use crate::msg::{AgentStatus, AppMsg};
use crate::model::{opt_view, MACROS_CAP};
use crate::line::toasts_added;
use crate::transitions::{TransitionView, transitions_view, transitions_spec, transition_view, notices_spec, logs_transition,
    status_transitions_at, record_transitions_at, transition_notices};
use crate::line::{toasted, raise};
use crate::keymap::{plain, ctrl, is_plain, is_ctrl};
use crate::router::{key_effect, key_allowed, key_permitted, handle_key};
use crate::text::{concat, decimal, u64_to_string, views};
use crate::msg::SocketReq;
use crate::bundle::ExportBundle;
use crate::store::config_or;
use crate::text::parse_unsigned;
use crate::text::{lead_ws, is_ws, trim_start_seq, chars_of, string_of, trim_start_vec, is_whitespace, join_chars, skip_chars};

verus! {

broadcast use vstd::string::group_string_axioms;

/// Bytes that `c` takes in UTF-8.
pub open spec fn utf8_len(c: char) -> int {
    if (c < '\u{80}') { 1 } else if (c < '\u{800}') { 2 } else if (c < '\u{10000}') { 3 } else { 4 }
}

/// Length of the leading run of non-whitespace.
pub open spec fn word_len(t: Seq<char>) -> int
    decreases t.len(),
{
    if t.len() == 0 || is_ws(t[0]) { 0 } else { 1 + word_len(t.drop_first()) }
}

/// The first whitespace-separated word of `s`; all of `s` when it has none.
pub open spec fn first_word(s: Seq<char>) -> Seq<char> {
    let t = trim_start_seq(s);
    let w = t.take(word_len(t));
    if w.len() > 0 { w } else { s }
}

/// `s` with its alias expanded: when the first word of `s` is an alias,
/// that word is replaced in place by the alias's expansion, whatever
/// whitespace comes before it and everything after it kept; a line without
/// a word that is itself an alias is replaced whole; otherwise `s` itself.
pub open spec fn expand_spec(s: Seq<char>, aliases: Map<Seq<char>, Seq<char>>) -> Seq<char> {
    let k = lead_ws(s);
    let n = word_len(s.skip(k));
    let w = first_word(s);
    if !aliases.dom().contains(w) {
        s
    } else if n > 0 {
        s.take(k) + aliases[w] + s.skip(k + n)
    } else {
        aliases[w]
    }
}

pub proof fn lemma_word_len(t: Seq<char>)
    ensures
        0 <= word_len(t) <= t.len(),
        forall|j: int| 0 <= j < word_len(t) ==> !is_ws(#[trigger] t[j]),
        word_len(t) < t.len() ==> is_ws(t[word_len(t)]),
    decreases t.len(),
{
    if t.len() > 0 && !is_ws(t[0]) {
        lemma_word_len(t.drop_first());
        assert forall|j: int| 0 <= j < word_len(t) implies !is_ws(#[trigger] t[j]) by {
            if j > 0 { assert(t[j] == t.drop_first()[j - 1]); }
        }
    }
}

pub fn utf8_len_of(c: char) -> (r: u8)
    ensures
        r as int == utf8_len(c),
{
    if (c < '\u{80}') { 1 } else if (c < '\u{800}') { 2 } else if (c < '\u{10000}') { 3 } else { 4 }
}

/// The first word of `v`.
fn first_word_of(v: &Vec<char>) -> (w: Vec<char>)
    ensures
        w@ == first_word(v@),
{
    let t = trim_start_vec(v);
    proof { lemma_word_len(t@); }
    let mut w: Vec<char> = Vec::new();
    let mut i: usize = 0;
    while i < t.len() && !is_whitespace(t[i])
        invariant
            i <= t.len(),
            i <= word_len(t@),
            0 <= word_len(t@) <= t@.len(),
            forall|j: int| 0 <= j < word_len(t@) ==> !is_ws(#[trigger] t@[j]),
            word_len(t@) < t@.len() ==> is_ws(t@[word_len(t@)]),
            w@ == t@.take(i as int),
        decreases t.len() - i,
    {
        w.push(t[i]);
        assert(t@.take(i + 1) =~= t@.take(i as int).push(t@[i as int]));
        i += 1;
    }
    assert(i == word_len(t@));
    if w.len() > 0 { w } else { v.clone() }
}

/// Expands an alias at the start of an input line: when the first word is
/// an alias, it is replaced in place by the alias's expansion.
pub fn expand_alias(model: &Model, buf: String) -> (r: String)
    requires
        model.wf(),
    ensures
        r@ == expand_spec(buf@, model.aliases.text_map()),
{
    let v = chars_of(buf.as_str());
    let t = trim_start_vec(&v);
    let w = first_word_of(&v);
    proof {
        lemma_lead_ws_le(v@);
        lemma_word_len(t@);
    }
    let ghost k = lead_ws(v@);
    assert(t@ == v@.skip(k));
    match model.get_alias(string_of(&w).as_str()) {
        Some(expansion) => {
            let has_word = t.len() > 0 && !is_whitespace(t[0]);
            if has_word {
                let lead = v.len() - t.len();
                assert(word_len(t@) > 0);
                assert(w@ == t@.take(word_len(t@)));
                let mut head: Vec<char> = Vec::new();
                let mut i: usize = 0;
                while i < lead
                    invariant
                        i <= lead,
                        lead <= v.len(),
                        head@ == v@.take(i as int),
                    decreases lead - i,
                {
                    head.push(v[i]);
                    assert(head@ =~= v@.take(i as int + 1));
                    i += 1;
                }
                let rest = skip_chars(&t, w.len());
                assert(rest@ =~= v@.skip(k + word_len(t@)));
                let a = join_chars(&head, &chars_of(expansion.as_str()));
                let out = join_chars(&a, &rest);
                string_of(&out)
            } else {
                assert(word_len(t@) == 0);
                expansion.clone()
            }
        },
        None => buf,
    }
}

proof fn lemma_lead_ws_le(s: Seq<char>)
    ensures
        0 <= lead_ws(s) <= s.len(),
    decreases s.len(),
{
    if s.len() > 0 && is_ws(s[0]) { lemma_lead_ws_le(s.drop_first()); }
}

/// Work that the update step hands to the program: commands to run,
/// files to write, rows to persist.
#[derive(Debug)]
pub enum Cmd {
    /// Refresh the directory from `orca-ide terminal list`.
    RefreshAgents,
    /// Re-read the hook status file if it changed.
    RefreshStatus,
    /// Send an orchestration message.
    OrchestrationSend { to: String, subject: String, body: String },
    /// Drain the orchestration inbox.
    DrainMessages,
    /// Refresh the unread count.
    RefreshUnread,
    /// Write the directory snapshot file.
    WriteDirectory,
    /// Answer a socket query.
    QuerySocket { req: SocketReq },
    /// Activate an agent's terminal tab.
    SwitchTerminal { handle: String },
    PersistAgents(Vec<Agent>),
    PersistGroupJoin { name: String, handle: String },
    PersistGroupLeave { name: String, handle: String },
    /// Type text into a terminal.
    TerminalSend { handle: String, text: String },
    CloseTerminal { handle: String },
    RenameTerminal { handle: String, new_title: String },
    ReadTerminal { handle: String },
    RefreshWorktreePs,
    /// Send a message to each member of a group.
    GroupBroadcast { name: String, message: String, handles: Vec<String> },
    CreateTerminal { worktree: Option<String>, command: String, title: Option<String> },
    SetConfig { key: String, value: String },
    OrchestrationReply { id: String, body: String },
    MarkRead { delivery_id: String },
    RefreshOrchTasks,
    PersistActivityEvent(Event),
    PersistHistoryEntry(String),
    PersistPinAdd { handle: String },
    PersistPinRemove { handle: String },
    PersistTagAdd { handle: String, tag: String },
    PersistTagRemove { handle: String, tag: String },
    PersistSnippet { name: String, text: String },
    RemoveSnippet { name: String },
    PersistAlertRule(AlertRule),
    RemoveAlertRule { id: i64 },
    PersistMacro(RecordedMacro),
    RemoveMacro { name: String },
    /// Store a saved view (the program writes it in its own format).
    PersistView { name: String, view: ViewSnapshot },
    RemoveView { name: String },
    PersistNote { handle: String, text: String },
    RemoveNote { handle: String },
    ExportSettings { path: String, bundle: ExportBundle },
    ImportSettings { path: String },
    PersistAlias { name: String, expansion: String },
    RemoveAlias { name: String },
    PersistHotkey { key: String, command: String },
    RemoveHotkey { key: String },
    PersistWatchAdd { handle: String },
    PersistWatchRemove { handle: String },
    /// Store the keys recorded for macro `name` (the program encodes them
    /// and hands the text back to `finish_macro`).
    SaveMacro { name: String, keys: Vec<KeyPress> },
    /// Replay macro `name` (the program decodes its keys and hands them to
    /// `start_replay`).
    ReplayMacro { name: String, key_events_json: String },
    /// Copy text to the clipboard.
    Yank { text: String },
    Noop,
    Quit,
}

/// The event that a note made at time `now` records.
pub open spec fn noted(sev: EventSeverity, cat: EventCategory, source: Seq<char>, text: Seq<char>, now: i64, e: Event) -> bool {
    &&& e.id == 0
    &&& e.timestamp_ms == now
    &&& e.severity == sev
    &&& e.category == cat
    &&& e.source@ == source
    &&& e.text@ == text
}

/// Records an activity event at time `now`: it goes to the model's log and
/// the returned command persists it.
pub fn note_event_at(model: &mut Model, sev: EventSeverity, cat: EventCategory, source: &str, text: String, now: i64) -> (c: Cmd)
    requires
        old(model).wf(),
        old(model).generation < u64::MAX,
    ensures
        final(model).wf(),
        final(model).events@.len() >= 1,
        noted(sev, cat, source@, text@, now, final(model).events@.last()),
        final(model).events@.drop_last() == (if old(model).events@.len() >= EVENTS_CAP { old(model).events@.drop_first() } else { old(model).events@ }),
        *final(model) == (Model { events: final(model).events, generation: (old(model).generation + 1) as u64, ..*old(model) }),
        c matches Cmd::PersistActivityEvent(e) && noted(sev, cat, source@, text@, now, e),
{
    let kept = Event { id: 0, timestamp_ms: now, severity: sev, category: cat, source: source.to_owned(), text: text.clone() };
    let sent = Event { id: 0, timestamp_ms: now, severity: sev, category: cat, source: source.to_owned(), text };
    model.push_event_at(kept, now);
    Cmd::PersistActivityEvent(sent)
}

/// Records an activity event now.
pub fn note_event(model: &mut Model, sev: EventSeverity, cat: EventCategory, source: &str, text: String) -> (c: Cmd)
    requires
        old(model).wf(),
        old(model).generation < u64::MAX,
    ensures
        final(model).wf(),
        final(model).events@.len() >= 1,
        exists|now: i64| #[trigger] noted(sev, cat, source@, text@, now, final(model).events@.last())
            && (c matches Cmd::PersistActivityEvent(e) && noted(sev, cat, source@, text@, now, e)),
        final(model).events@.drop_last() == (if old(model).events@.len() >= EVENTS_CAP { old(model).events@.drop_first() } else { old(model).events@ }),
        *final(model) == (Model { events: final(model).events, generation: (old(model).generation + 1) as u64, ..*old(model) }),
{
    let now = now_ms();
    note_event_at(model, sev, cat, source, text, now)
}

/// Ticks between directory refreshes for a refresh interval (a tick is
/// 50 ms; at least two ticks).
pub open spec fn refresh_ticks(interval_ms: int) -> int {
    let t = interval_ms / 50;
    if t < 2 { 2 } else { t }
}

/// The refresh interval that the model's configuration sets.
pub open spec fn refresh_interval(m: Model) -> int {
    match parse_unsigned(config_or(m.config.text_map(), "refresh_interval_ms"@, "1500"@), u64::MAX as int) {
        Some(v) => v,
        None => 1500,
    }
}

/// Whether animation frame `frame` is one on which the directory is refreshed.
pub fn should_refresh_agents(model: &Model, frame: usize) -> (r: bool)
    requires
        model.wf(),
    ensures
        r == (frame as int % refresh_ticks(refresh_interval(*model)) == 0),
{
    let interval_ms = model.refresh_interval_ms();
    let t = interval_ms / 50;
    let ticks: u64 = if t < 2 { 2 } else { t };
    (frame as u64) % ticks == 0
}

// ──── the update step ────

/// When replayed keys are waiting, a real key press cancels the replay.
pub open spec fn replay_cancelled(s: Shell, now: i64, s2: Shell) -> bool {
    let n = s.text.replay_queue@.len();
    if n > 0 {
        exists|s1: Shell| #[trigger] toasted(s1, seq!["replay cancelled ("@ + decimal(n) + " keys remaining)"@], now, s2)
            && s1 == (Shell { text: ShellText { replay_queue: s1.text.replay_queue, ..s.text }, ..s })
            && s1.text.replay_queue@.len() == 0
    } else {
        s2 == s
    }
}

/// While recording, every key but q and Ctrl-C is captured.
pub open spec fn captured(s: Shell, k: KeyPress, s2: Shell) -> bool {
    if s.flags.recording_active && !(plain(k, KeyCode::Char('q')) || ctrl(k, 'c')) {
        &&& s2 == (Shell { text: ShellText { recording_buffer: s2.text.recording_buffer, ..s.text }, ..s })
        &&& s2.text.recording_buffer@ == s.text.recording_buffer@.push(k)
    } else {
        s2 == s
    }
}

/// The shell after a tick's bookkeeping: the spinner at frame `f`, toasts
/// older than three seconds dropped.
pub open spec fn ticked(s: Shell, f: usize, now: i64, s1: Shell) -> bool {
    &&& s1 == (Shell { spinner_frame: f, text: ShellText { toasts: s1.text.toasts, ..s.text }, ..s })
    &&& s1.text.toasts@ == kept_toasts(s.text.toasts@, 3, now)
}

/// The shell with the first key of the replay queue `q` taken off.
pub open spec fn dequeued(s1: Shell, q: Seq<KeyPress>, sr: Shell) -> bool {
    &&& sr == (Shell { text: ShellText { replay_queue: sr.text.replay_queue, ..s1.text }, ..s1 })
    &&& sr.text.replay_queue@ == q.drop_first()
}

/// A key press: a replay in progress is cancelled, a recording captures
/// the key, then the key is handled.
pub open spec fn key_msg(m: Model, s: Shell, k: KeyPress, me: Seq<char>, now: i64, m2: Model, s2: Shell, cs: Seq<Cmd>) -> bool {
    exists|s1: Shell, sk: Shell| #[trigger] replay_cancelled(s, now, s1) && #[trigger] captured(s1, k, sk)
        && key_effect(m, sk, k, me, now, m2, s2, cs)
}

/// The refreshes asked for on a tick of frame `f`.
pub open spec fn tick_cmds(m: Model, f: usize, cs: Seq<Cmd>) -> bool {
    if f as int % refresh_ticks(refresh_interval(m)) == 0 {
        cs.len() == 4 && cs[0] is RefreshStatus && cs[1] is RefreshAgents && cs[2] is DrainMessages && cs[3] is RefreshUnread
    } else {
        cs.len() == 1 && cs[0] is RefreshStatus
    }
}

/// The frame after `f`, wrapping around.
pub open spec fn next_frame(f: usize) -> usize {
    if f == usize::MAX { 0 } else { (f + 1) as usize }
}

/// A tick: the spinner moves on, old toasts go, refreshes are asked for,
/// and one replayed key (if any is waiting) is handled. A replayed key that
/// `handle_key` cannot take is dropped.
pub open spec fn tick_effect(m: Model, s: Shell, me: Seq<char>, now: i64, m2: Model, s2: Shell, cs: Seq<Cmd>) -> bool {
    let f = next_frame(s.spinner_frame);
    exists|s1: Shell, head: Seq<Cmd>| #[trigger] ticked(s, f, now, s1) && #[trigger] tick_cmds(m, f, head) && {
        &&& if s.text.replay_queue@.len() == 0 {
            m2 == m && s2 == s1 && cs == head
        } else {
            let k = s.text.replay_queue@[0];
            exists|sr: Shell| #[trigger] dequeued(s1, s.text.replay_queue@, sr) && {
                &&& if key_allowed(m, sr, k) {
                    exists|c2: Seq<Cmd>| #[trigger] key_effect(m, sr, k, me, now, m2, s2, c2) && cs == head + c2
                } else {
                    m2 == m && s2 == sr && cs == head
                }
            }
        }
    }
}

fn cancel_replay(shell: &mut Shell, now: i64)
    ensures
        replay_cancelled(*old(shell), now, *final(shell)),
{
    let n = shell.text.replay_queue.len();
    if n > 0 {
        shell.text.replay_queue = Vec::new();
        let a = concat("replay cancelled (", u64_to_string(n as u64).as_str());
        let t = concat(a.as_str(), " keys remaining)");
        let v = vec![t];
        assert(views(v@) =~= seq![t@]);
        raise(shell, v, now);
    }
}

fn capture(shell: &mut Shell, k: KeyPress)
    ensures
        captured(*old(shell), k, *final(shell)),
{
    if shell.flags.recording_active && !(is_plain(k, KeyCode::Char('q')) || is_ctrl(k, 'c')) {
        shell.text.recording_buffer.push(k);
    }
}

fn key_step(model: &mut Model, shell: &mut Shell, k: KeyPress, me: &str, now: i64) -> (cs: Vec<Cmd>)
    requires
        old(model).wf(),
        old(shell).text.selected_set.wf(),
        old(model).generation + 3 <= u64::MAX,
        key_allowed(*old(model), *old(shell), k),
    ensures
        final(model).wf(),
        final(shell).text.selected_set.wf(),
        old(model).generation <= final(model).generation,
        key_msg(*old(model), *old(shell), k, me@, now, *final(model), *final(shell), cs@),
{
    cancel_replay(shell, now);
    let ghost s1 = *shell;
    capture(shell, k);
    let ghost sk = *shell;
    assert(key_allowed(*old(model), sk, k));
    let cs = handle_key(model, shell, k, me, now);
    cs
}

fn tick_head(model: &Model, f: usize) -> (cs: Vec<Cmd>)
    requires
        model.wf(),
    ensures
        tick_cmds(*model, f, cs@),
{
    if should_refresh_agents(model, f) {
        vec![Cmd::RefreshStatus, Cmd::RefreshAgents, Cmd::DrainMessages, Cmd::RefreshUnread]
    } else {
        vec![Cmd::RefreshStatus]
    }
}

fn tick_step(model: &mut Model, shell: &mut Shell, me: &str, now: i64) -> (cs: Vec<Cmd>)
    requires
        old(model).wf(),
        old(shell).text.selected_set.wf(),
        old(model).generation + 3 <= u64::MAX,
    ensures
        final(model).wf(),
        final(shell).text.selected_set.wf(),
        old(model).generation <= final(model).generation,
        tick_effect(*old(model), *old(shell), me@, now, *final(model), *final(shell), cs@),
{
    let f = if shell.spinner_frame == usize::MAX { 0 } else { shell.spinner_frame + 1 };
    shell.spinner_frame = f;
    shell.drain_toasts_at(3, now);
    let ghost s1 = *shell;
    let mut cs = tick_head(model, f);
    let ghost head = cs@;
    assert(f == next_frame(old(shell).spinner_frame));
    assert(ticked(*old(shell), next_frame(old(shell).spinner_frame), now, s1));
    assert(tick_cmds(*old(model), next_frame(old(shell).spinner_frame), head));
    if shell.text.replay_queue.len() == 0 {
        return cs;
    }
    let k = shell.text.replay_queue.remove(0);
    let ghost sr = *shell;
    assert(sr.text.replay_queue@ =~= old(shell).text.replay_queue@.drop_first());
    assert(dequeued(s1, old(shell).text.replay_queue@, sr));
    if key_permitted(model, shell, k) {
        let mut more = handle_key(model, shell, k, me, now);
        let ghost c2 = more@;
        cs.append(&mut more);
        assert(cs@ =~= head + c2);
    }
    cs
}

fn toast_now(shell: &mut Shell, t: String, now: i64)
    ensures
        toasted(*old(shell), seq![t@], now, *final(shell)),
{
    let v = vec![t];
    assert(views(v@) =~= seq![t@]);
    raise(shell, v, now);
}

// ──── logging several notes ────

/// The log entry of note `n` (source, text) made at `now`.
pub open spec fn logs_note(n: (Seq<char>, Seq<char>), sev: EventSeverity, cat: EventCategory, now: i64, e: Event) -> bool {
    noted(sev, cat, n.0, n.1, now, e)
}

pub open spec fn notes_view(v: Seq<(String, String)>) -> Seq<(Seq<char>, Seq<char>)> {
    Seq::new(v.len(), |i: int| (v[i].0@, v[i].1@))
}

pub open spec fn least(a: int, b: int) -> int {
    if a < b { a } else { b }
}

/// The log after each note of `ns` was recorded at `now`, in order, the
/// oldest entries leaving once the log is full.
pub open spec fn notes_logged(m: Model, ns: Seq<(Seq<char>, Seq<char>)>, sev: EventSeverity, cat: EventCategory, now: i64,
    m2: Model, cs: Seq<Cmd>) -> bool {
    let n = ns.len() as int;
    let l0 = m.events@.len() as int;
    &&& m2 == (Model { events: m2.events, generation: (m.generation + n) as u64, ..m })
    &&& m2.events@.len() == least(l0 + n, EVENTS_CAP as int)
    &&& cs.len() == n
    &&& forall|i: int| 0 <= i < n ==> ((#[trigger] cs[i]) matches Cmd::PersistActivityEvent(e) && logs_note(ns[i], sev, cat, now, e))
    &&& forall|i: int| 0 <= i < n && m2.events@.len() - n + i >= 0 ==>
        logs_note(ns[i], sev, cat, now, #[trigger] m2.events@[m2.events@.len() - n + i])
    &&& forall|j: int| 0 <= j < m2.events@.len() - n ==> #[trigger] m2.events@[j] == m.events@[l0 + n - m2.events@.len() + j]
}

/// Records each note (source, text) in turn at time `now`.
pub fn log_notes_at(model: &mut Model, ns: &Vec<(String, String)>, sev: EventSeverity, cat: EventCategory, now: i64) -> (cs: Vec<Cmd>)
    requires
        old(model).wf(),
        old(model).generation + ns@.len() <= u64::MAX,
    ensures
        final(model).wf(),
        notes_logged(*old(model), notes_view(ns@), sev, cat, now, *final(model), cs@),
{
    let ghost m0 = *model;
    let ghost l0 = m0.events@.len() as int;
    let ghost n = ns@.len() as int;
    let ghost nv = notes_view(ns@);
    let mut cs: Vec<Cmd> = Vec::new();
    let mut k: usize = 0;
    while k < ns.len()
        invariant
            k <= ns@.len(),
            n == ns@.len(),
            nv == notes_view(ns@),
            l0 == m0.events@.len(),
            l0 <= EVENTS_CAP,
            model.wf(),
            m0.generation + n <= u64::MAX,
            *model == (Model { events: model.events, generation: (m0.generation + k) as u64, ..m0 }),
            model.events@.len() == least(l0 + k, EVENTS_CAP as int),
            cs@.len() == k,
            forall|i: int| 0 <= i < k ==> ((#[trigger] cs@[i]) matches Cmd::PersistActivityEvent(e) && logs_note(nv[i], sev, cat, now, e)),
            forall|i: int| 0 <= i < k && model.events@.len() - k + i >= 0 ==>
                logs_note(nv[i], sev, cat, now, #[trigger] model.events@[model.events@.len() - k + i]),
            forall|j: int| 0 <= j < model.events@.len() - k ==>
                #[trigger] model.events@[j] == m0.events@[l0 + k - model.events@.len() + j],
        decreases ns@.len() - k,
    {
        let ghost before = model.events@;
        let c = note_event_at(model, sev, cat, ns[k].0.as_str(), ns[k].1.clone(), now);
        let ghost after = model.events@;
        proof {
            let len_b = before.len() as int;
            let len_a = after.len() as int;
            assert(nv[k as int] == (ns@[k as int].0@, ns@[k as int].1@));
            assert(after.drop_last().len() == len_a - 1);
            if len_b >= EVENTS_CAP {
                assert(after.drop_last() == before.drop_first());
                assert forall|j: int| 0 <= j < len_a - 1 implies #[trigger] after[j] == before[j + 1] by {
                    assert(after.drop_last()[j] == before.drop_first()[j]);
                }
            } else {
                assert(after.drop_last() == before);
                assert forall|j: int| 0 <= j < len_a - 1 implies #[trigger] after[j] == before[j] by {
                    assert(after.drop_last()[j] == before[j]);
                }
            }
            assert forall|i: int| 0 <= i < k + 1 && len_a - (k + 1) + i >= 0 implies
                logs_note(nv[i], sev, cat, now, #[trigger] after[len_a - (k + 1) + i]) by {
                if i < k {
                    assert(after[len_a - (k + 1) + i] == before[len_b - k + i]);
                }
            }
            assert forall|j: int| 0 <= j < len_a - (k + 1) implies
                #[trigger] after[j] == m0.events@[l0 + (k + 1) - len_a + j] by {
                if len_b >= EVENTS_CAP {
                    assert(after[j] == before[j + 1]);
                } else {
                    assert(after[j] == before[j]);
                }
            }
        }
        cs.push(c);
        k += 1;
    }
    cs
}

/// A toast and a logged note for the same happening.
pub open spec fn toast_noted(m: Model, s: Shell, toast: Seq<char>, sev: EventSeverity, cat: EventCategory, source: Seq<char>,
    text: Seq<char>, now: i64, m2: Model, s2: Shell, c: Cmd) -> bool {
    &&& toasted(s, seq![toast], now, s2)
    &&& notes_logged(m, seq![(source, text)], sev, cat, now, m2, seq![c])
}

fn toast_and_note(model: &mut Model, shell: &mut Shell, toast: String, sev: EventSeverity, cat: EventCategory, source: &str,
    text: String, now: i64) -> (c: Cmd)
    requires
        old(model).wf(),
        old(model).generation < u64::MAX,
    ensures
        final(model).wf(),
        toast_noted(*old(model), *old(shell), toast@, sev, cat, source@, text@, now, *final(model), *final(shell), c),
{
    toast_now(shell, toast, now);
    let ghost tv = text@;
    let ns = vec![(source.to_owned(), text)];
    let mut cs = log_notes_at(model, &ns, sev, cat, now);
    assert(notes_view(ns@) =~= seq![(source@, tv)]);
    let ghost all = cs@;
    let c = cs.remove(0);
    assert(seq![c] =~= all);
    c
}

// ──── agents and statuses ────

/// The notes on agents that appeared in or left the directory: none when
/// either directory is empty (a transient blank list), else the new
/// handles in the new order, then the vanished ones in the old order.
pub open spec fn presence_notes(before: StrMap<Agent>, after: StrMap<Agent>) -> Seq<(Seq<char>, Seq<char>)> {
    if before.key_seq().len() > 0 && after.key_seq().len() > 0 {
        keep_seq(after.key_seq(), |h: Seq<char>| !before.map().dom().contains(h)).map_values(|h: Seq<char>| (h, "Agent appeared: "@ + h))
            + keep_seq(before.key_seq(), |h: Seq<char>| !after.map().dom().contains(h)).map_values(|h: Seq<char>| (h, "Agent disappeared: "@ + h))
    } else {
        Seq::empty()
    }
}

/// The notes `ns`, when the model's change counter has room for them, else none.
pub open spec fn room_for(m: Model, ns: Seq<(Seq<char>, Seq<char>)>) -> Seq<(Seq<char>, Seq<char>)> {
    if m.generation + ns.len() <= u64::MAX { ns } else { Seq::empty() }
}

/// A new terminal list: the directory is rebuilt from it, persisted and
/// written out, and arrivals and departures are logged.
pub open spec fn agents_effect(m: Model, agents: Seq<Agent>, now: i64, m2: Model, cs: Seq<Cmd>) -> bool {
    exists|m1: Model| #![trigger m1.directory] {
        &&& m1.directory.wf()
        &&& exists|keyed: Seq<Agent>| #[trigger] pane_keyed_all(agents, keyed)
            && m1.directory.map() == merge_all(keyed, m.directory.map(), m.pending_status.map())
        &&& m1 == (Model { directory: m1.directory, generation: (m.generation + 1) as u64, ..m })
        &&& cs.len() >= 2 && (cs[0] matches Cmd::PersistAgents(v) && v@ == agents) && cs[1] is WriteDirectory
        &&& notes_logged(m1, room_for(m1, presence_notes(m.directory, m1.directory)), EventSeverity::Info, EventCategory::Agent,
            now, m2, cs.skip(2))
    }
}

fn keys_missing(a: &StrMap<Agent>, b: &StrMap<Agent>, label: &str) -> (r: Vec<(String, String)>)
    requires
        b.wf(),
    ensures
        notes_view(r@) == keep_seq(a.key_seq(), |h: Seq<char>| !b.map().dom().contains(h)).map_values(|h: Seq<char>| (h, label@ + h)),
{
    let ghost keep = |h: Seq<char>| !b.map().dom().contains(h);
    let ghost ks = a.key_seq();
    let mut r: Vec<(String, String)> = Vec::new();
    let mut i: usize = 0;
    while i < a.entries.len()
        invariant
            i <= a.entries.len(),
            b.wf(),
            ks == a.key_seq(),
            keep == (|h: Seq<char>| !b.map().dom().contains(h)),
            notes_view(r@) == keep_seq(ks.take(i as int), keep).map_values(|h: Seq<char>| (h, label@ + h)),
        decreases a.entries.len() - i,
    {
        assert(ks.take(i as int + 1).drop_last() =~= ks.take(i as int));
        let ghost before = notes_view(r@);
        let h = &a.entries[i].0;
        if !b.contains_key(h.as_str()) {
            r.push((h.clone(), concat(label, h.as_str())));
            assert(notes_view(r@) =~= before.push((h@, label@ + h@)));
            assert(keep_seq(ks.take(i as int + 1), keep) == keep_seq(ks.take(i as int), keep).push(ks[i as int]));
            assert(keep_seq(ks.take(i as int + 1), keep).map_values(|h: Seq<char>| (h, label@ + h))
                =~= keep_seq(ks.take(i as int), keep).map_values(|h: Seq<char>| (h, label@ + h)).push((h@, label@ + h@)));
        } else {
            assert(notes_view(r@) =~= before);
        }
        i += 1;
    }
    assert(ks.take(a.entries.len() as int) =~= ks);
    r
}

fn copy_agent(a: &Agent) -> (r: Agent)
    ensures
        r == *a,
{
    Agent {
        handle: a.handle.clone(), pty_id: clone_opt(&a.pty_id), cwd: a.cwd.clone(), worktree_id: a.worktree_id.clone(),
        branch: a.branch.clone(), tab_id: a.tab_id.clone(), leaf_id: a.leaf_id.clone(), pane_key: a.pane_key.clone(),
        title: clone_opt(&a.title), connected: a.connected, writable: a.writable, source: clone_opt(&a.source),
        state: clone_opt(&a.state), prompt: clone_opt(&a.prompt), tool_name: clone_opt(&a.tool_name),
        tool_input: clone_opt(&a.tool_input), last_assistant_msg: clone_opt(&a.last_assistant_msg),
        preview: clone_opt(&a.preview), last_output_at: a.last_output_at,
    }
}

/// A copy of a directory, entries in the same order.
pub fn copy_directory(d: &StrMap<Agent>) -> (r: StrMap<Agent>)
    ensures
        r.entries@ == d.entries@,
{
    let mut entries: Vec<(String, Agent)> = Vec::new();
    let mut i: usize = 0;
    while i < d.entries.len()
        invariant
            i <= d.entries@.len(),
            entries@ == d.entries@.take(i as int),
        decreases d.entries.len() - i,
    {
        let e = (d.entries[i].0.clone(), copy_agent(&d.entries[i].1));
        entries.push(e);
        assert(entries@ =~= d.entries@.take(i as int + 1));
        i += 1;
    }
    assert(entries@ =~= d.entries@);
    StrMap { entries }
}

fn agents_step(model: &mut Model, agents: Vec<Agent>, now: i64) -> (cs: Vec<Cmd>)
    requires
        old(model).wf(),
        old(model).generation < u64::MAX,
    ensures
        final(model).wf(),
        agents_effect(*old(model), agents@, now, *final(model), cs@),
{
    let before = copy_directory(&model.directory);
    assert(before.key_seq() =~= model.directory.key_seq());
    assert(before.map() =~= model.directory.map());
    let mut persist: Vec<Agent> = Vec::new();
    let mut i: usize = 0;
    while i < agents.len()
        invariant
            i <= agents@.len(),
            persist@ == agents@.take(i as int),
        decreases agents.len() - i,
    {
        persist.push(copy_agent(&agents[i]));
        assert(persist@ =~= agents@.take(i as int + 1));
        i += 1;
    }
    assert(persist@ =~= agents@);
    model.apply_agents(agents);
    let ghost m1 = *model;
    let mut notes: Vec<(String, String)> = Vec::new();
    if before.len() > 0 && model.directory.len() > 0 {
        let mut a = keys_missing(&model.directory, &before, "Agent appeared: ");
        let mut b = keys_missing(&before, &model.directory, "Agent disappeared: ");
        let ghost (av, bv) = (notes_view(a@), notes_view(b@));
        a.append(&mut b);
        notes = a;
        assert(notes_view(notes@) =~= av + bv);
    } else {
        assert(notes_view(notes@) =~= Seq::<(Seq<char>, Seq<char>)>::empty());
    }
    assert(notes_view(notes@) == presence_notes(before, m1.directory));
    if notes.len() as u64 > u64::MAX - model.generation {
        notes = Vec::new();
        assert(notes_view(notes@) =~= Seq::<(Seq<char>, Seq<char>)>::empty());
    }
    let mut logged = log_notes_at(model, &notes, EventSeverity::Info, EventCategory::Agent, now);
    let mut cs = vec![Cmd::PersistAgents(persist), Cmd::WriteDirectory];
    let ghost lv = logged@;
    cs.append(&mut logged);
    assert(cs@.skip(2) =~= lv);
    cs
}

/// The notices of each transition, in order.
pub open spec fn all_notices(m: Model, ts: Seq<TransitionView>) -> Seq<Seq<char>>
    decreases ts.len(),
{
    if ts.len() == 0 { Seq::empty() } else { all_notices(m, ts.drop_last()) + notices_spec(m, ts.last()) }
}

/// Status changes were logged at `now`, as `record_transitions_at` logs them.
pub open spec fn transitions_logged(m: Model, ts: Seq<TransitionView>, now: i64, m2: Model, cs: Seq<Cmd>) -> bool {
    let n = ts.len() as int;
    &&& m2 == (Model { events: m2.events, generation: (m.generation + n) as u64, ..m })
    &&& m2.events@.len() == least(m.events@.len() + n, EVENTS_CAP as int)
    &&& cs.len() == n
    &&& forall|i: int| 0 <= i < n ==> ((#[trigger] cs[i]) matches Cmd::PersistActivityEvent(e) && logs_transition(ts[i], now, e))
    &&& forall|i: int| 0 <= i < n && m2.events@.len() - n + i >= 0 ==>
        logs_transition(ts[i], now, #[trigger] m2.events@[m2.events@.len() - n + i])
    &&& forall|j: int| 0 <= j < m2.events@.len() - n ==>
        #[trigger] m2.events@[j] == m.events@[m.events@.len() + n - m2.events@.len() + j]
}

/// The transitions `ts`, when the change counter has room to log them, else none.
pub open spec fn room_for_changes(m: Model, ts: Seq<TransitionView>) -> Seq<TransitionView> {
    if m.generation + ts.len() <= u64::MAX { ts } else { Seq::empty() }
}

/// New hook statuses: they are applied, the directory is written out, each
/// change of status category is logged, and the pin, watch and alert
/// notices of the changes are shown.
pub open spec fn status_effect(m: Model, s: Shell, statuses: Seq<AgentStatus>, now: i64, m2: Model, s2: Shell, cs: Seq<Cmd>) -> bool {
    exists|m1: Model| #![trigger m1.directory] {
        &&& m1.wf()
        &&& m1.pending_status.map() == m.pending_status.map().union_prefer_right(status_map_of(statuses))
        &&& m1.directory.key_seq() == m.directory.key_seq()
        &&& m1.directory.map() == Map::new(|h: Seq<char>| m.directory.map().dom().contains(h),
            |h: Seq<char>| status_applied(m.directory.map()[h], status_map_of(statuses)))
        &&& m1 == (Model { directory: m1.directory, pending_status: m1.pending_status, generation: (m.generation + 1) as u64, ..m })
        &&& {
            let ts = room_for_changes(m1, transitions_spec(m1.directory.key_seq(), m.directory.map(), m1.directory.map(), now as int));
            &&& cs.len() >= 1 && cs[0] is WriteDirectory
            &&& transitions_logged(m1, ts, now, m2, cs.skip(1))
            &&& toasted(s, all_notices(m2, ts), now, s2)
        }
    }
}

proof fn lemma_toasts_chain(a: Seq<(String, i64)>, x: Seq<Seq<char>>, b: Seq<(String, i64)>, y: Seq<Seq<char>>,
    c: Seq<(String, i64)>, now: i64)
    requires
        toasts_added(a, x, now, b),
        toasts_added(b, y, now, c),
    ensures
        toasts_added(a, x + y, now, c),
{
    assert forall|j: int| a.len() <= j < c.len() implies (#[trigger] c[j]).0@ == (x + y)[j - a.len()] && c[j].1 == now by {
        if j < b.len() {
            assert(c[j] == b[j]);
        }
    }
}

fn status_step(model: &mut Model, shell: &mut Shell, statuses: Vec<AgentStatus>, now: i64) -> (cs: Vec<Cmd>)
    requires
        old(model).wf(),
        old(model).generation < u64::MAX,
    ensures
        final(model).wf(),
        old(model).generation <= final(model).generation,
        status_effect(*old(model), *old(shell), statuses@, now, *final(model), *final(shell), cs@),
{
    let before = copy_directory(&model.directory);
    assert(before.key_seq() =~= model.directory.key_seq());
    assert(before.map() =~= model.directory.map());
    model.apply_status(statuses);
    let ghost m1 = *model;
    let mut ts = status_transitions_at(&before, &model.directory, now);
    if ts.len() as u64 > u64::MAX - model.generation {
        ts = Vec::new();
        assert(transitions_view(ts@) =~= Seq::<TransitionView>::empty());
    }
    let ghost tv = transitions_view(ts@);
    assert(tv == room_for_changes(m1, transitions_spec(m1.directory.key_seq(), before.map(), m1.directory.map(), now as int)));
    let mut rec = record_transitions_at(model, &ts, now);
    let ghost m2 = *model;
    assert(transitions_logged(m1, tv, now, m2, rec@)) by {
        assert forall|i: int| 0 <= i < tv.len() implies ((#[trigger] rec@[i]) matches Cmd::PersistActivityEvent(e) && logs_transition(tv[i], now, e)) by {
            assert(tv[i] == transition_view(ts@[i]));
        }
        assert forall|i: int| 0 <= i < tv.len() && m2.events@.len() - tv.len() + i >= 0 implies
            logs_transition(tv[i], now, #[trigger] m2.events@[m2.events@.len() - tv.len() + i]) by {
            assert(tv[i] == transition_view(ts@[i]));
        }
    }
    let mut i: usize = 0;
    let ghost s0 = *shell;
    assert(tv.take(0) =~= Seq::<TransitionView>::empty());
    assert(s0.text.toasts@ =~= s0.text.toasts@);
    while i < ts.len()
        invariant
            i <= ts@.len(),
            tv == transitions_view(ts@),
            *shell == (Shell { text: ShellText { toasts: shell.text.toasts, ..s0.text }, ..s0 }),
            toasts_added(s0.text.toasts@, all_notices(*model, tv.take(i as int)), now, shell.text.toasts@),
        decreases ts.len() - i,
    {
        let ns = transition_notices(model, &ts[i]);
        let ghost mid = shell.text.toasts@;
        raise(shell, ns, now);
        proof {
            assert(tv.take(i as int + 1).drop_last() =~= tv.take(i as int));
            assert(tv.take(i as int + 1).last() == transition_view(ts@[i as int]));
            lemma_toasts_chain(s0.text.toasts@, all_notices(*model, tv.take(i as int)), mid,
                notices_spec(*model, transition_view(ts@[i as int])), shell.text.toasts@, now);
        }
        i += 1;
    }
    assert(tv.take(ts.len() as int) =~= tv);
    let mut cs = vec![Cmd::WriteDirectory];
    let ghost rv = rec@;
    cs.append(&mut rec);
    assert(cs@.skip(1) =~= rv);
    cs
}

// ──── the other messages ────

/// Number of entries of an imported bundle, as the import reports it
/// (capped at `u64::MAX`).
pub open spec fn bundle_count(b: ExportBundle) -> int {
    let n = b.config.key_seq().len() + b.tags.key_seq().len() + b.snippets.key_seq().len() + b.macros@.len()
        + b.saved_views@.len() + b.pinned@.len() + b.alert_rules@.len() + b.notes.key_seq().len()
        + b.aliases.key_seq().len() + b.hotkeys.key_seq().len() + b.watched@.len();
    if n <= u64::MAX { n as int } else { u64::MAX as int }
}

fn count_of(b: &ExportBundle) -> (r: u64)
    ensures
        r == bundle_count(*b),
{
    let parts: [usize; 11] = [b.config.len(), b.tags.len(), b.snippets.len(), b.macros.len(), b.saved_views.len(),
        b.pinned.len(), b.alert_rules.len(), b.notes.len(), b.aliases.len(), b.hotkeys.len(), b.watched.len()];
    let mut total: u128 = 0;
    let mut i: usize = 0;
    while i < 11
        invariant
            i <= 11,
            parts@.len() == 11,
            total <= i * (usize::MAX as int),
            total == (if i >= 1 { parts@[0] as int } else { 0 }) + (if i >= 2 { parts@[1] as int } else { 0 })
                + (if i >= 3 { parts@[2] as int } else { 0 }) + (if i >= 4 { parts@[3] as int } else { 0 })
                + (if i >= 5 { parts@[4] as int } else { 0 }) + (if i >= 6 { parts@[5] as int } else { 0 })
                + (if i >= 7 { parts@[6] as int } else { 0 }) + (if i >= 8 { parts@[7] as int } else { 0 })
                + (if i >= 9 { parts@[8] as int } else { 0 }) + (if i >= 10 { parts@[9] as int } else { 0 })
                + (if i >= 11 { parts@[10] as int } else { 0 }),
        decreases 11 - i,
    {
        total = total + parts[i] as u128;
        i += 1;
    }
    if total <= u64::MAX as u128 { total as u64 } else { u64::MAX }
}

/// What a message other than a key or a tick does.
pub open spec fn answer_effect(m: Model, s: Shell, msg: AppMsg, now: i64, m2: Model, s2: Shell, cs: Seq<Cmd>) -> bool {
    match msg {
        AppMsg::SendOk(id) => cs.len() == 1 && toast_noted(m, s, "Sent: "@ + id@, EventSeverity::Info, EventCategory::Message,
            "system"@, "Sent: "@ + id@, now, m2, s2, cs[0]),
        AppMsg::SendFailed(e) => cs.len() == 1 && toast_noted(m, s, "Send failed: "@ + e@, EventSeverity::Error, EventCategory::Message,
            "system"@, "Send failed: "@ + e@, now, m2, s2, cs[0]),
        AppMsg::AckOk(id) => cs.len() == 2 && cs[0] is RefreshUnread && toast_noted(m, s, "Marked read: "@ + id@, EventSeverity::Info,
            EventCategory::Message, "system"@, "Marked read: "@ + id@, now, m2, s2, cs[1]),
        AppMsg::AckFailed(e) => cs.len() == 1 && toast_noted(m, s, "Ack failed: "@ + e@, EventSeverity::Error, EventCategory::Message,
            "system"@, "Ack failed: "@ + e@, now, m2, s2, cs[0]),
        AppMsg::InjectOk(n) => cs.len() == 1 && toast_noted(m, s, "PTY: sent "@ + decimal(n as nat) + " bytes"@, EventSeverity::Info,
            EventCategory::System, "system"@, "PTY inject: "@ + decimal(n as nat) + " bytes"@, now, m2, s2, cs[0]),
        AppMsg::InjectFailed(e) => cs.len() == 1 && toast_noted(m, s, "PTY failed: "@ + e@, EventSeverity::Error, EventCategory::System,
            "system"@, "PTY failed: "@ + e@, now, m2, s2, cs[0]),
        AppMsg::TerminalCreated { handle, title } => {
            let label = match title { Some(t) => t@, None => handle@ };
            cs.len() == 3 && cs[0] is RefreshAgents && cs[1] is WriteDirectory && toast_noted(m, s, "Created: "@ + label,
                EventSeverity::Info, EventCategory::Agent, handle@, "Created: "@ + label, now, m2, s2, cs[2])
        },
        AppMsg::GroupActionOk(t) => cs.len() == 2 && cs[0] is RefreshAgents && toast_noted(m, s, t@, EventSeverity::Info,
            EventCategory::Group, "system"@, t@, now, m2, s2, cs[1]),
        AppMsg::Error(e) => cs.len() == 1 && toast_noted(m, s, e@, EventSeverity::Error, EventCategory::System, "system"@, e@,
            now, m2, s2, cs[0]),
        _ => shown_effect(m, s, msg, now, m2, s2, cs),
    }
}

/// Messages that only change what is shown or stored, without a log entry.
pub open spec fn shown_effect(m: Model, s: Shell, msg: AppMsg, now: i64, m2: Model, s2: Shell, cs: Seq<Cmd>) -> bool {
    match msg {
        AppMsg::Info(t) => m2 == m && toasted(s, seq![t@], now, s2) && cs.len() == 1 && cs[0] is RefreshAgents,
        AppMsg::SocketQuery(req) => m2 == m && s2 == s && cs.len() == 1 && (cs[0] matches Cmd::QuerySocket { req: r } && r == req),
        AppMsg::TerminalOutput(t) => m2 == m && cs.len() == 0
            && s2 == (Shell { overlay_scroll: 0, text: ShellText { overlay_content: s2.text.overlay_content, ..s.text }, ..s })
            && opt_view(s2.text.overlay_content) == Some(t@),
        AppMsg::WorktreePsLoaded(es) => s2 == s && cs.len() == 0
            && m2 == (Model { worktree_ps: es, generation: (m.generation + 1) as u64, ..m }),
        AppMsg::OrchSnapshotLoaded(o) => s2 == s && cs.len() == 0
            && m2 == (Model { orch_snapshot: Some(o), generation: (m.generation + 1) as u64, ..m }),
        AppMsg::ConfigUpdated { key, value } => {
            &&& cs.len() == 0
            &&& m2.config.text_map() == m.config.text_map().insert(key@, value@) && m2 == (Model { config: m2.config, ..m })
            &&& exists|s1: Shell| #[trigger] toasted(s1, seq!["config: "@ + key@ + " updated"@], now, s2)
                && (if key@ == "theme"@ {
                    s1 == (Shell { text: ShellText { theme_name: s1.text.theme_name, ..s.text }, ..s }) && s1.text.theme_name@ == value@
                } else {
                    s1 == s
                })
        },
        AppMsg::ExportOk { path, count } => m2 == m && cs.len() == 0
            && toasted(s, seq!["✓ exported "@ + decimal(count as nat) + " items to "@ + path@], now, s2),
        AppMsg::ExportFailed { reason } => m2 == m && cs.len() == 0 && toasted(s, seq!["✖ export failed: "@ + reason@], now, s2),
        AppMsg::ImportOk { path, bundle } => cs.len() == 0 && crate::bundle::imported(m, bundle, m2)
            && toasted(s, seq!["✓ imported "@ + decimal(bundle_count(bundle) as nat) + " items from "@ + path@], now, s2),
        AppMsg::ImportFailed { reason } => m2 == m && cs.len() == 0 && toasted(s, seq!["✖ import failed: "@ + reason@], now, s2),
        AppMsg::MacroEncoded { name, key_events_json, count } => {
            let mac = RecordedMacro { name, key_events_json, created_at_ms: now };
            &&& m2.macros.map() == (if m.macros.key_seq().len() >= MACROS_CAP && !m.macros.map().dom().contains(name@) {
                m.macros.map().remove(m.macros.key_seq()[0]) } else { m.macros.map() }).insert(name@, mac)
            &&& m2 == (Model { macros: m2.macros, generation: (m.generation + 1) as u64, ..m })
            &&& toasted(s, seq!["macro saved: "@ + name@ + " ("@ + decimal(count as nat) + " keys)"@], now, s2)
            &&& cs.len() == 1 && (cs[0] matches Cmd::PersistMacro(p) && p.name@ == name@ && p.key_events_json@ == key_events_json@
                && p.created_at_ms == now)
        },
        AppMsg::MacroDecoded { name, keys } => m2 == m && cs.len() == 0 && exists|s1: Shell| #[trigger] toasted(s1, seq!["▶ replaying: "@ + name@ + " ("@ + decimal(keys@.len()) + " keys)"@], now, s2)
            && s1 == (Shell { text: ShellText { replay_queue: keys, ..s.text }, ..s }),
        AppMsg::Quit => m2 == m && s2 == s && cs.len() == 1 && cs[0] is Quit,
        _ => false,
    }
}

fn noted_answer(model: &mut Model, shell: &mut Shell, toast: String, sev: EventSeverity, cat: EventCategory, source: &str,
    text: String, now: i64) -> (cs: Vec<Cmd>)
    requires
        old(model).wf(),
        old(model).generation < u64::MAX,
    ensures
        final(model).wf(),
        cs@.len() == 1,
        toast_noted(*old(model), *old(shell), toast@, sev, cat, source@, text@, now, *final(model), *final(shell), cs@[0]),
{
    let c = toast_and_note(model, shell, toast, sev, cat, source, text, now);
    vec![c]
}

#[verifier::spinoff_prover]
fn answer_step(model: &mut Model, shell: &mut Shell, msg: AppMsg, now: i64) -> (cs: Vec<Cmd>)
    requires
        old(model).wf(),
        old(model).generation + 3 <= u64::MAX,
        msg matches AppMsg::ImportOk { bundle, .. } ==> bundle.wf(),
        !(msg is Key || msg is Tick || msg is Resize || msg is AgentsLoaded || msg is StatusUpdated),
    ensures
        final(model).wf(),
        old(model).generation <= final(model).generation,
        final(shell).text.selected_set == old(shell).text.selected_set,
        answer_effect(*old(model), *old(shell), msg, now, *final(model), *final(shell), cs@),
{
    match msg {
        AppMsg::SendOk(id) => noted_answer(model, shell, concat("Sent: ", id.as_str()), EventSeverity::Info, EventCategory::Message,
            "system", concat("Sent: ", id.as_str()), now),
        AppMsg::SendFailed(e) => noted_answer(model, shell, concat("Send failed: ", e.as_str()), EventSeverity::Error,
            EventCategory::Message, "system", concat("Send failed: ", e.as_str()), now),
        AppMsg::AckOk(id) => {
            let mut tail = noted_answer(model, shell, concat("Marked read: ", id.as_str()), EventSeverity::Info,
                EventCategory::Message, "system", concat("Marked read: ", id.as_str()), now);
            let mut cs = vec![Cmd::RefreshUnread];
            cs.append(&mut tail);
            cs
        },
        AppMsg::AckFailed(e) => noted_answer(model, shell, concat("Ack failed: ", e.as_str()), EventSeverity::Error,
            EventCategory::Message, "system", concat("Ack failed: ", e.as_str()), now),
        AppMsg::InjectOk(n) => {
            let num = u64_to_string(n as u64);
            let a = concat("PTY: sent ", num.as_str());
            let b = concat("PTY inject: ", num.as_str());
            noted_answer(model, shell, concat(a.as_str(), " bytes"), EventSeverity::Info, EventCategory::System, "system",
                concat(b.as_str(), " bytes"), now)
        },
        AppMsg::InjectFailed(e) => noted_answer(model, shell, concat("PTY failed: ", e.as_str()), EventSeverity::Error,
            EventCategory::System, "system", concat("PTY failed: ", e.as_str()), now),
        AppMsg::TerminalCreated { handle, title } => {
            let label = match title { Some(t) => t, None => handle.clone() };
            let mut tail = noted_answer(model, shell, concat("Created: ", label.as_str()), EventSeverity::Info,
                EventCategory::Agent, handle.as_str(), concat("Created: ", label.as_str()), now);
            let mut cs = vec![Cmd::RefreshAgents, Cmd::WriteDirectory];
            cs.append(&mut tail);
            cs
        },
        AppMsg::GroupActionOk(t) => {
            let mut tail = noted_answer(model, shell, t.clone(), EventSeverity::Info, EventCategory::Group, "system", t, now);
            let mut cs = vec![Cmd::RefreshAgents];
            cs.append(&mut tail);
            cs
        },
        AppMsg::Error(e) => noted_answer(model, shell, e.clone(), EventSeverity::Error, EventCategory::System, "system", e, now),
        _ => shown_step(model, shell, msg, now),
    }
}

fn config_step(model: &mut Model, shell: &mut Shell, key: String, value: String, now: i64)
    requires
        old(model).wf(),
    ensures
        final(model).wf(),
        final(shell).text.selected_set == old(shell).text.selected_set,
        shown_effect(*old(model), *old(shell), AppMsg::ConfigUpdated { key, value }, now, *final(model), *final(shell), Seq::<Cmd>::empty()),
{
    let ghost (kv, vv) = (key@, value@);
    let k2 = key.clone();
    let v2 = value.clone();
    model.set_config(key, value);
    proof { reveal_strlit("theme"); }
    if crate::text::str_eq(k2.as_str(), "theme") {
        shell.text.theme_name = v2;
    }
    let ghost s1 = *shell;
    let a = concat("config: ", k2.as_str());
    toast_now(shell, concat(a.as_str(), " updated"), now);
    assert(toasted(s1, seq!["config: "@ + kv + " updated"@], now, *shell));
}

#[verifier::spinoff_prover]
fn shown_step(model: &mut Model, shell: &mut Shell, msg: AppMsg, now: i64) -> (cs: Vec<Cmd>)
    requires
        old(model).wf(),
        old(model).generation + 3 <= u64::MAX,
        msg matches AppMsg::ImportOk { bundle, .. } ==> bundle.wf(),
        !(msg is Key || msg is Tick || msg is Resize || msg is AgentsLoaded || msg is StatusUpdated
            || msg is SendOk || msg is SendFailed || msg is AckOk || msg is AckFailed || msg is InjectOk || msg is InjectFailed
            || msg is TerminalCreated || msg is GroupActionOk || msg is Error),
    ensures
        final(model).wf(),
        old(model).generation <= final(model).generation,
        final(shell).text.selected_set == old(shell).text.selected_set,
        shown_effect(*old(model), *old(shell), msg, now, *final(model), *final(shell), cs@),
{
    match msg {
        AppMsg::Info(t) => {
            toast_now(shell, t, now);
            vec![Cmd::RefreshAgents]
        },
        AppMsg::SocketQuery(req) => vec![Cmd::QuerySocket { req }],
        AppMsg::TerminalOutput(t) => {
            shell.text.overlay_content = Some(t);
            shell.overlay_scroll = 0;
            Vec::new()
        },
        AppMsg::WorktreePsLoaded(es) => {
            model.apply_worktree_ps(es);
            Vec::new()
        },
        AppMsg::OrchSnapshotLoaded(o) => {
            model.apply_orch_snapshot(o);
            Vec::new()
        },
        AppMsg::ConfigUpdated { key, value } => {
            config_step(model, shell, key, value, now);
            Vec::new()
        },
        AppMsg::ExportOk { path, count } => {
            let a = concat("✓ exported ", u64_to_string(count as u64).as_str());
            let b = concat(a.as_str(), " items to ");
            toast_now(shell, concat(b.as_str(), path.as_str()), now);
            Vec::new()
        },
        AppMsg::ExportFailed { reason } => {
            toast_now(shell, concat("✖ export failed: ", reason.as_str()), now);
            Vec::new()
        },
        AppMsg::ImportOk { path, bundle } => {
            let n = count_of(&bundle);
            model.import_bundle(bundle);
            let a = concat("✓ imported ", u64_to_string(n).as_str());
            let b = concat(a.as_str(), " items from ");
            toast_now(shell, concat(b.as_str(), path.as_str()), now);
            Vec::new()
        },
        AppMsg::ImportFailed { reason } => {
            toast_now(shell, concat("✖ import failed: ", reason.as_str()), now);
            Vec::new()
        },
        AppMsg::MacroEncoded { name, key_events_json, count } => {
            let n2 = name.clone();
            let mac = RecordedMacro { name: name.clone(), key_events_json: key_events_json.clone(), created_at_ms: now };
            let sent = RecordedMacro { name, key_events_json, created_at_ms: now };
            model.add_macro(mac);
            let a = concat("macro saved: ", n2.as_str());
            let b = concat(a.as_str(), " (");
            let c = concat(b.as_str(), u64_to_string(count as u64).as_str());
            toast_now(shell, concat(c.as_str(), " keys)"), now);
            vec![Cmd::PersistMacro(sent)]
        },
        AppMsg::MacroDecoded { name, keys } => {
            let n = keys.len();
            shell.text.replay_queue = keys;
                let a = concat("▶ replaying: ", name.as_str());
            let b = concat(a.as_str(), " (");
            let c = concat(b.as_str(), u64_to_string(n as u64).as_str());
            toast_now(shell, concat(c.as_str(), " keys)"), now);
            Vec::new()
        },
        _ => vec![Cmd::Quit],
    }
}

/// What a message does.
pub open spec fn update_effect(m: Model, s: Shell, msg: AppMsg, me: Seq<char>, now: i64, m2: Model, s2: Shell, cs: Seq<Cmd>) -> bool {
    match msg {
        AppMsg::Key(k) => key_msg(m, s, k, me, now, m2, s2, cs),
        AppMsg::Tick => tick_effect(m, s, me, now, m2, s2, cs),
        AppMsg::Resize { width, height } => m2 == m && cs.len() == 0 && s2 == (Shell { size: (width, height), ..s }),
        AppMsg::AgentsLoaded(agents) => s2 == s && agents_effect(m, agents@, now, m2, cs),
        AppMsg::StatusUpdated(st) => status_effect(m, s, st@, now, m2, s2, cs),
        _ => answer_effect(m, s, msg, now, m2, s2, cs),
    }
}

/// What `update` asks of a message: a key that `handle_key` can take, and
/// an imported bundle without repeated keys.
pub open spec fn msg_ok(m: Model, s: Shell, msg: AppMsg) -> bool {
    &&& msg matches AppMsg::Key(k) ==> key_allowed(m, s, k)
    &&& msg matches AppMsg::ImportOk { bundle, .. } ==> bundle.wf()
}

/// The update step: carries out message `msg` at time `now` (`me` is this
/// terminal's handle) on the model and the shell, and returns the commands
/// to run. No I/O.
pub fn update(model: &mut Model, shell: &mut Shell, msg: AppMsg, me: &str, now: i64) -> (cs: Vec<Cmd>)
    requires
        old(model).wf(),
        old(shell).text.selected_set.wf(),
        old(model).generation + 3 <= u64::MAX,
        msg_ok(*old(model), *old(shell), msg),
    ensures
        final(model).wf(),
        final(shell).text.selected_set.wf(),
        old(model).generation <= final(model).generation,
        update_effect(*old(model), *old(shell), msg, me@, now, *final(model), *final(shell), cs@),
{
    match msg {
        AppMsg::Key(k) => key_step(model, shell, k, me, now),
        AppMsg::Tick => tick_step(model, shell, me, now),
        AppMsg::Resize { width, height } => {
            shell.size = (width, height);
            Vec::new()
        },
        AppMsg::AgentsLoaded(agents) => agents_step(model, agents, now),
        AppMsg::StatusUpdated(st) => status_step(model, shell, st, now),
        _ => answer_step(model, shell, msg, now),
    }
}

} // verus!
