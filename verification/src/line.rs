//! Submitting an input line: alias expansion, parsing, carrying out the
//! request on the model, and what the screen shows about it (toasts, the
//! input box, macro recording, saved views, chains of lines).
use vstd::prelude::*;
use crate::input::{InputCommand, InputView, Action, PairKind, Named, Usage, Invalid, Bare, input_view, input_spec,
    parse_input, trimmed_nonblank};
use crate::model::{AlertRuleType, rule_type_name, ViewSnapshot, opt_view, sort_mode_label, sort_mode_of, clone_opt};
use crate::store::{Model, set_map, config_or, snippets_full};
use crate::dispatch::{tagged_handles, tagged, apply_input, input_effect};
use crate::text::{concat, decimal, u64_to_string, views, is_ws, trim_seq, trim_start_seq, lead_ws};
use crate::shell::{Shell, ShellText, Tab, FocusTarget, Overlays, Flags};
use crate::update::{Cmd, expand_alias, expand_spec};
use crate::bundle::copy_strings;
use crate::strmap::StrSet;

verus! {

broadcast use vstd::string::group_string_axioms;

/// The usage hint of a form used wrongly.
pub open spec fn usage_text(u: Usage) -> Seq<char> {
    match u {
        Usage::Chain => "chain: usage: chain:cmd1 | cmd2 | cmd3"@,
        Usage::Tag => "tag: usage: tag:[add|rm]:handle tagname"@,
        Usage::Snippet => "snip: usage: snip:name command_text"@,
        Usage::RuleAdd => "rule: usage: rule:add state:Error | source:handle | severity:Warn | message"@,
        Usage::Rule => "rule: usage: rule:add <type>:<value> or rule:rm:<id>"@,
        Usage::Macro => "macro: usage: macro:record:<name> | macro:stop | macro:run:<name> | macro:rm:<name> | macro:list"@,
        Usage::View => "view: usage: view:save:name | view:load:name | view:rm:name | view:list"@,
        Usage::Note => "note: usage: note:<handle> <text> | note:rm:<handle>"@,
        Usage::Export => "export: usage: export:<path>"@,
        Usage::Import => "import: usage: import:<path>"@,
        Usage::Alias => "alias: usage: alias:<name> <expansion> | alias:rm:<name>"@,
        Usage::Hotkey => "hotkey: usage: hotkey:<key> <command> | hotkey:rm:<key>"@,
        Usage::Theme => "theme: usage: theme:<key> <color> (e.g. theme:accent #ff0000)"@,
        Usage::Watch => "watch: usage: watch:<handle>"@,
        Usage::ConfigFormat => "config: use format config:key=value"@,
        Usage::ConfigEmptyKey => "config: key cannot be empty"@,
        Usage::ConfigNotNumber => "config: refresh_interval_ms must be a number"@,
    }
}

pub fn usage_hint(u: Usage) -> (r: &'static str)
    ensures
        r@ == usage_text(u),
{
    match u {
        Usage::Chain => "chain: usage: chain:cmd1 | cmd2 | cmd3",
        Usage::Tag => "tag: usage: tag:[add|rm]:handle tagname",
        Usage::Snippet => "snip: usage: snip:name command_text",
        Usage::RuleAdd => "rule: usage: rule:add state:Error | source:handle | severity:Warn | message",
        Usage::Rule => "rule: usage: rule:add <type>:<value> or rule:rm:<id>",
        Usage::Macro => "macro: usage: macro:record:<name> | macro:stop | macro:run:<name> | macro:rm:<name> | macro:list",
        Usage::View => "view: usage: view:save:name | view:load:name | view:rm:name | view:list",
        Usage::Note => "note: usage: note:<handle> <text> | note:rm:<handle>",
        Usage::Export => "export: usage: export:<path>",
        Usage::Import => "import: usage: import:<path>",
        Usage::Alias => "alias: usage: alias:<name> <expansion> | alias:rm:<name>",
        Usage::Hotkey => "hotkey: usage: hotkey:<key> <command> | hotkey:rm:<key>",
        Usage::Theme => "theme: usage: theme:<key> <color> (e.g. theme:accent #ff0000)",
        Usage::Watch => "watch: usage: watch:<handle>",
        Usage::ConfigFormat => "config: use format config:key=value",
        Usage::ConfigEmptyKey => "config: key cannot be empty",
        Usage::ConfigNotNumber => "config: refresh_interval_ms must be a number",
    }
}

/// Decimal text of a signed number.
pub open spec fn signed_text(i: int) -> Seq<char> {
    if i < 0 { "-"@ + decimal((-i) as nat) } else { decimal(i as nat) }
}

pub fn i64_to_string(i: i64) -> (r: String)
    ensures
        r@ == signed_text(i as int),
{
    if i < 0 {
        let mag: u64 = (0i128 - (i as i128)) as u64;
        concat("-", u64_to_string(mag).as_str())
    } else {
        u64_to_string(i as u64)
    }
}

/// How many settings an export of `m` carries.
pub open spec fn export_count(m: Model) -> nat {
    m.config.key_seq().len() + m.tags.key_seq().len() + m.snippets.key_seq().len() + m.macros.key_seq().len()
        + m.saved_views.key_seq().len() + m.pinned.item_seq().len() + m.alert_rules@.len() + m.notes.key_seq().len()
        + m.aliases.key_seq().len() + m.hotkeys.key_seq().len() + m.watched.item_seq().len()
}

/// The toasts raised when the request `iv` is carried out on model `m`
/// (`me` is this terminal's handle, `nsel` the number of selected agents).
pub open spec fn line_toasts_spec(m: Model, iv: InputView, me: Seq<char>, nsel: nat) -> Seq<Seq<char>> {
    match iv {
        InputView::Usage(u) => seq![usage_text(u)],
        InputView::Invalid { kind, text } => match kind {
            Invalid::ConfigKey => seq!["config: unknown key '"@ + text + "'"@],
            Invalid::ThemeKey => seq!["unknown theme key: "@ + text],
            Invalid::ThemeColor => seq!["invalid color: "@ + text + " (use #RRGGBB or named color)"@],
            Invalid::HotkeyKey => seq!["hotkey: key must be a single character"@, usage_text(Usage::Hotkey)],
        },
        InputView::Pty { ascii, .. } => if ascii { Seq::empty() } else { seq!["PTY: non-ASCII may fail"@] },
        InputView::Act { action, arg } => match action {
            Action::Inject => if nsel == 0 {
                seq!["No agents selected (Space to select)"@]
            } else {
                seq!["⚡ injected into "@ + decimal(nsel) + " agents"@]
            },
            Action::CreateGroup => seq!["Joined group: "@ + arg],
            Action::JoinGroup => if me.len() == 0 { seq!["ORCA_TERMINAL_HANDLE not set"@] } else { seq!["Joined group: "@ + arg] },
            Action::LeaveGroup => seq!["Left group: "@ + arg],
            Action::Export => if export_count(m) <= u64::MAX {
                seq!["exporting "@ + decimal(export_count(m)) + " items to "@ + arg + "…"@]
            } else {
                seq!["exporting items to "@ + arg + "…"@]
            },
            Action::Import => seq!["importing from "@ + arg + "…"@],
            Action::Watch => if m.watched.set().contains(arg) { seq!["unwatched: "@ + arg] } else { seq!["👁 watching: "@ + arg] },
            _ => Seq::empty(),
        },
        InputView::Pair { kind, first, second } => match kind {
            PairKind::Broadcast => if set_map(m.groups).dom().contains(first) && m.groups.map()[first].item_seq().len() > 0 {
                Seq::empty()
            } else {
                seq!["group '"@ + first + "' has no members"@]
            },
            PairKind::Tagged => {
                let n = tagged_handles(m.tags.key_seq(), m.tags.value_seq(), first).len();
                if n == 0 {
                    seq!["no agents tagged '"@ + first + "'"@]
                } else {
                    seq!["tagged batch to "@ + decimal(n) + " agents ("@ + first + ")"@]
                }
            },
            PairKind::TagAdd => seq!["tagged "@ + first + " +"@ + second],
            PairKind::TagRemove => seq!["untagged "@ + first + " -"@ + second],
            PairKind::Theme => seq!["theme."@ + first + " = "@ + second],
            _ => Seq::empty(),
        },
        InputView::Store { kind, name, text } => match kind {
            Named::Snippet => if snippets_full(m, name) { seq!["snippet limit (100) reached"@] } else { seq!["snippet saved: "@ + name] },
            Named::Note => seq!["note saved: "@ + name],
            Named::Alias => seq!["alias saved: "@ + name + " → "@ + text],
            Named::Hotkey => seq!["hotkey saved: "@ + name + " → "@ + text],
            _ => Seq::empty(),
        },
        InputView::Remove { kind, name } => match kind {
            Named::Snippet => seq!["snippet removed: "@ + name],
            Named::Note => seq!["note removed: "@ + name],
            Named::Alias => seq!["alias removed: "@ + name],
            Named::Hotkey => seq!["hotkey removed: "@ + name],
            Named::Macro => seq!["macro removed: "@ + name],
            Named::View => if m.saved_views.map().dom().contains(name) { seq!["view removed: "@ + name] } else { Seq::empty() },
        },
        InputView::Batch { handles, .. } => seq!["Batch sending to "@ + decimal(handles.len()) + " agents..."@],
        InputView::RemoveRule { id } => seq!["alert rule removed: "@ + signed_text(id as int)],
        InputView::AddRule { rule_type, value } => if rule_type == AlertRuleType::Message && value.len() == 0 {
            seq!["alert rule added: message"@]
        } else {
            seq!["alert rule added: "@ + rule_type_name(rule_type) + ":"@ + value]
        },
        _ => Seq::empty(),
    }
}

fn one(s: String) -> (r: Vec<String>)
    ensures
        views(r@) == seq![s@],
{
    let r = vec![s];
    assert(views(r@) =~= seq![s@]);
    r
}

fn cat3(a: &str, b: &str, c: &str) -> (r: String)
    ensures
        r@ == a@ + b@ + c@,
{
    let ab = concat(a, b);
    concat(ab.as_str(), c)
}

fn cat4(a: &str, b: &str, c: &str, d: &str) -> (r: String)
    ensures
        r@ == a@ + b@ + c@ + d@,
{
    let abc = cat3(a, b, c);
    concat(abc.as_str(), d)
}

fn cat5(a: &str, b: &str, c: &str, d: &str, e: &str) -> (r: String)
    ensures
        r@ == a@ + b@ + c@ + d@ + e@,
{
    let abcd = cat4(a, b, c, d);
    concat(abcd.as_str(), e)
}

/// The number of settings an export of the model carries, when it fits in 64 bits.
fn export_count_of(model: &Model) -> (r: Option<u64>)
    ensures
        match r {
            Some(n) => n as nat == export_count(*model),
            None => export_count(*model) > u64::MAX,
        },
{
    let parts: [usize; 11] = [
        model.config.len(), model.tags.len(), model.snippets.len(), model.macros.len(), model.saved_views.len(),
        model.pinned.len(), model.alert_rules.len(), model.notes.len(), model.aliases.len(), model.hotkeys.len(),
        model.watched.len(),
    ];
    let mut total: u128 = 0;
    let mut i: usize = 0;
    while i < 11
        invariant
            i <= 11,
            parts@.len() == 11,
            parts@[0] == model.config.key_seq().len(),
            parts@[1] == model.tags.key_seq().len(),
            parts@[2] == model.snippets.key_seq().len(),
            parts@[3] == model.macros.key_seq().len(),
            parts@[4] == model.saved_views.key_seq().len(),
            parts@[5] == model.pinned.item_seq().len(),
            parts@[6] == model.alert_rules@.len(),
            parts@[7] == model.notes.key_seq().len(),
            parts@[8] == model.aliases.key_seq().len(),
            parts@[9] == model.hotkeys.key_seq().len(),
            parts@[10] == model.watched.item_seq().len(),
            total <= i * (usize::MAX as int),
            total as int == parts_sum(parts@, i as int),
        decreases 11 - i,
    {
        total = total + parts[i] as u128;
        i += 1;
    }
    assert(parts_sum(parts@, 11) == export_count(*model)) by {
        reveal_with_fuel(parts_sum, 12);
    }
    if total <= u64::MAX as u128 { Some(total as u64) } else { None }
}

spec fn parts_sum(p: Seq<usize>, n: int) -> int
    decreases n,
{
    if n <= 0 { 0 } else { parts_sum(p, n - 1) + p[n - 1] }
}

/// The toasts raised when `cmd` is carried out on the model as it is now.
pub fn line_toasts(model: &Model, cmd: &InputCommand, me: &str, nsel: usize) -> (r: Vec<String>)
    requires
        model.wf(),
    ensures
        views(r@) == line_toasts_spec(*model, input_view(*cmd), me@, nsel as nat),
{
    match cmd {
        InputCommand::Usage(u) => one(usage_hint(*u).to_owned()),
        InputCommand::Invalid { kind, text } => match kind {
            Invalid::ConfigKey => one(cat3("config: unknown key '", text.as_str(), "'")),
            Invalid::ThemeKey => one(concat("unknown theme key: ", text.as_str())),
            Invalid::ThemeColor => one(cat3("invalid color: ", text.as_str(), " (use #RRGGBB or named color)")),
            Invalid::HotkeyKey => {
                let r = vec!["hotkey: key must be a single character".to_owned(), usage_hint(Usage::Hotkey).to_owned()];
                assert(views(r@) =~= seq!["hotkey: key must be a single character"@, usage_text(Usage::Hotkey)]);
                r
            },
        },
        InputCommand::Pty { ascii, .. } => if *ascii { Vec::new() } else { one("PTY: non-ASCII may fail".to_owned()) },
        InputCommand::Act { action, arg } => match action {
            Action::Inject => if nsel == 0 {
                one("No agents selected (Space to select)".to_owned())
            } else {
                let n = u64_to_string(nsel as u64);
                one(cat3("⚡ injected into ", n.as_str(), " agents"))
            },
            Action::CreateGroup => one(concat("Joined group: ", arg.as_str())),
            Action::JoinGroup => if me.is_empty() {
                proof { assert(me@.len() == 0); }
                one("ORCA_TERMINAL_HANDLE not set".to_owned())
            } else {
                one(concat("Joined group: ", arg.as_str()))
            },
            Action::LeaveGroup => one(concat("Left group: ", arg.as_str())),
            Action::Export => match export_count_of(model) {
                Some(n) => {
                    let t = u64_to_string(n);
                    one(cat5("exporting ", t.as_str(), " items to ", arg.as_str(), "…"))
                },
                None => one(cat3("exporting items to ", arg.as_str(), "…")),
            },
            Action::Import => one(cat3("importing from ", arg.as_str(), "…")),
            Action::Watch => if model.is_watched(arg.as_str()) {
                one(concat("unwatched: ", arg.as_str()))
            } else {
                one(concat("👁 watching: ", arg.as_str()))
            },
            _ => Vec::new(),
        },
        InputCommand::Pair { kind, first, second } => match kind {
            PairKind::Broadcast => {
                let has = match model.group_members(first.as_str()) {
                    Some(hs) => hs.len() > 0,
                    None => false,
                };
                if has { Vec::new() } else { one(cat3("group '", first.as_str(), "' has no members")) }
            },
            PairKind::Tagged => {
                let hs = tagged(&model.tags, first);
                if hs.len() == 0 {
                    one(cat3("no agents tagged '", first.as_str(), "'"))
                } else {
                    let n = u64_to_string(hs.len() as u64);
                    one(cat5("tagged batch to ", n.as_str(), " agents (", first.as_str(), ")"))
                }
            },
            PairKind::TagAdd => one(cat4("tagged ", first.as_str(), " +", second.as_str())),
            PairKind::TagRemove => one(cat4("untagged ", first.as_str(), " -", second.as_str())),
            PairKind::Theme => one(cat4("theme.", first.as_str(), " = ", second.as_str())),
            _ => Vec::new(),
        },
        InputCommand::Store { kind, name, text } => match kind {
            Named::Snippet => if model.snippet_refused(name.as_str()) {
                one("snippet limit (100) reached".to_owned())
            } else {
                one(concat("snippet saved: ", name.as_str()))
            },
            Named::Note => one(concat("note saved: ", name.as_str())),
            Named::Alias => one(cat4("alias saved: ", name.as_str(), " → ", text.as_str())),
            Named::Hotkey => one(cat4("hotkey saved: ", name.as_str(), " → ", text.as_str())),
            _ => Vec::new(),
        },
        InputCommand::Remove { kind, name } => match kind {
            Named::Snippet => one(concat("snippet removed: ", name.as_str())),
            Named::Note => one(concat("note removed: ", name.as_str())),
            Named::Alias => one(concat("alias removed: ", name.as_str())),
            Named::Hotkey => one(concat("hotkey removed: ", name.as_str())),
            Named::Macro => one(concat("macro removed: ", name.as_str())),
            Named::View => if model.saved_views.contains_key(name.as_str()) {
                one(concat("view removed: ", name.as_str()))
            } else {
                Vec::new()
            },
        },
        InputCommand::Batch { handles, .. } => {
            let n = u64_to_string(handles.len() as u64);
            one(cat3("Batch sending to ", n.as_str(), " agents..."))
        },
        InputCommand::RemoveRule { id } => {
            let t = i64_to_string(*id);
            one(concat("alert rule removed: ", t.as_str()))
        },
        InputCommand::AddRule { rule_type, value } => {
            if *rule_type == AlertRuleType::Message && value.as_str().is_empty() {
                one("alert rule added: message".to_owned())
            } else {
                one(cat4("alert rule added: ", rule_type.as_str(), ":", value.as_str()))
            }
        },
        _ => Vec::new(),
    }
}

// ──── toasts on the shell ────

/// `b` is `a` followed by one toast per text of `ts`, each raised at `now`.
pub open spec fn toasts_added(a: Seq<(String, i64)>, ts: Seq<Seq<char>>, now: i64, b: Seq<(String, i64)>) -> bool {
    &&& b.len() == a.len() + ts.len()
    &&& forall|j: int| 0 <= j < a.len() ==> #[trigger] b[j] == a[j]
    &&& forall|j: int| a.len() <= j < b.len() ==> (#[trigger] b[j]).0@ == ts[j - a.len()] && b[j].1 == now
}

/// `s2` is `s` with the toasts `ts` raised at `now`.
pub open spec fn toasted(s: Shell, ts: Seq<Seq<char>>, now: i64, s2: Shell) -> bool {
    s2 == (Shell { text: ShellText { toasts: s2.text.toasts, ..s.text }, ..s }) && toasts_added(s.text.toasts@, ts, now, s2.text.toasts@)
}

/// Raises each toast of `ts` at `now`, in order.
pub fn raise(shell: &mut Shell, ts: Vec<String>, now: i64)
    ensures
        toasted(*old(shell), views(ts@), now, *final(shell)),
{
    let ghost tv = views(ts@);
    let mut list: Vec<(String, i64)> = Vec::new();
    std::mem::swap(&mut list, &mut shell.text.toasts);
    let ghost start = list@;
    let mut rest = ts;
    let mut i: usize = 0;
    let n = rest.len();
    let ghost all = rest@;
    assert(tv.take(0).len() == 0);
    while i < n
        invariant
            n == all.len(),
            tv == views(all),
            i <= n,
            rest@ == all.skip(i as int),
            toasts_added(start, tv.take(i as int), now, list@),
        decreases n - i,
    {
        let t = rest.remove(0);
        assert(t == all[i as int]);
        assert(rest@ =~= all.skip(i as int + 1));
        let ghost before = list@;
        list.push((t, now));
        assert forall|j: int| start.len() <= j < list@.len() implies
            (#[trigger] list@[j]).0@ == tv.take(i as int + 1)[j - start.len()] && list@[j].1 == now by {
            if j < before.len() {
                assert(list@[j] == before[j]);
            }
        }
        i += 1;
    }
    assert(tv.take(n as int) =~= tv);
    shell.text.toasts = list;
}

fn raise_one(shell: &mut Shell, t: String, now: i64)
    ensures
        toasted(*old(shell), seq![t@], now, *final(shell)),
{
    let v = vec![t];
    assert(views(v@) =~= seq![t@]);
    raise(shell, v, now);
}

// ──── what a submitted line does ────

pub open spec fn tab_name_spec(t: Tab) -> Seq<char> {
    match t {
        Tab::Directory => "directory"@,
        Tab::Groups => "groups"@,
        Tab::Messages => "messages"@,
    }
}

pub open spec fn tab_of_name(n: Seq<char>) -> Tab {
    if n == "groups"@ { Tab::Groups } else if n == "messages"@ { Tab::Messages } else { Tab::Directory }
}

pub open spec fn focus_of(t: Tab) -> FocusTarget {
    match t {
        Tab::Directory => FocusTarget::Directory,
        Tab::Groups => FocusTarget::Groups,
        Tab::Messages => FocusTarget::Messages,
    }
}

/// `v` records the screen `s` at time `now`, with the sort order of `m`.
pub open spec fn snap_of(s: Shell, m: Model, now: i64, v: ViewSnapshot) -> bool {
    &&& v.tab@ == tab_name_spec(s.tab)
    &&& opt_view(v.filter_query) == opt_view(s.text.filter_query)
    &&& v.sort_mode@ == sort_mode_label(sort_mode_of(config_or(m.config.text_map(), "sort"@, "by-worktree"@)))
    &&& views(v.selected_set@) == s.text.selected_set.item_seq()
    &&& v.created_at_ms == now
}

/// The saved views after `v` is stored under `name` (the oldest leaves when full).
pub open spec fn views_after_save(m: Model, name: Seq<char>, v: ViewSnapshot) -> Map<Seq<char>, ViewSnapshot> {
    (if m.saved_views.key_seq().len() >= crate::model::SAVED_VIEWS_CAP && !m.saved_views.map().dom().contains(name) {
        m.saved_views.map().remove(m.saved_views.key_seq()[0])
    } else {
        m.saved_views.map()
    }).insert(name, v)
}

/// Ending a macro recording.
pub open spec fn stop_effect(s: Shell, now: i64, s2: Shell, cs: Seq<Cmd>) -> bool {
    if !s.flags.recording_active {
        s2 == s && cs.len() == 0
    } else {
        &&& s2 == (Shell { flags: Flags { recording_active: false, ..s.flags }, text: ShellText { recording_name: s2.text.recording_name,
            recording_buffer: s2.text.recording_buffer, toasts: s2.text.toasts, ..s.text }, ..s })
        &&& s2.text.recording_name@.len() == 0 && s2.text.recording_buffer@.len() == 0
        &&& if s.text.recording_buffer@.len() == 0 {
            toasts_added(s.text.toasts@, seq!["macro empty (no keys recorded)"@], now, s2.text.toasts@) && cs.len() == 0
        } else {
            s2.text.toasts == s.text.toasts && cs.len() == 1
                && (cs[0] matches Cmd::SaveMacro { name, keys } && name == s.text.recording_name && keys@ == s.text.recording_buffer@)
        }
    }
}

/// A request carried out on the model, with its toasts.
pub open spec fn applied(m: Model, s: Shell, iv: InputView, me: Seq<char>, now: i64, m2: Model, s2: Shell, cs: Seq<Cmd>) -> bool {
    &&& input_effect(m, iv, me, s.text.selected_set.item_seq(), now, m2, cs)
    &&& toasted(s, line_toasts_spec(m, iv, me, s.text.selected_set.item_seq().len()), now, s2)
}

pub open spec fn list_toggle_effect(s: Shell, macros: bool, s2: Shell) -> bool {
    &&& s2 == (Shell { overlays: s2.overlays, overlay_scroll: s2.overlay_scroll, ..s })
    &&& if macros {
        s2.overlays == (Overlays { macro_overlay_active: !s.overlays.macro_overlay_active, ..s.overlays })
            && s2.overlay_scroll == (if !s.overlays.macro_overlay_active { 0 } else { s.overlay_scroll })
    } else {
        s2.overlays == (Overlays { views_overlay_active: !s.overlays.views_overlay_active, ..s.overlays })
            && s2.overlay_scroll == (if !s.overlays.views_overlay_active { 0 } else { s.overlay_scroll })
    }
}

/// `run:name`: the snippet is put in the input line for confirmation.
pub open spec fn run_snippet_effect(m: Model, s: Shell, arg: Seq<char>, now: i64, s2: Shell, cs: Seq<Cmd>) -> bool {
    cs.len() == 1 && cs[0] is Noop
        && if m.snippets.text_map().dom().contains(arg) {
            &&& s2 == (Shell { insert_mode: true, focus: FocusTarget::Input,
                text: ShellText { input_buf: s2.text.input_buf, toasts: s2.text.toasts, ..s.text }, ..s })
            &&& s2.text.input_buf@ == m.snippets.text_map()[arg]
            &&& toasts_added(s.text.toasts@, seq!["replaying snippet: "@ + arg + " (Enter to confirm)"@], now, s2.text.toasts@)
        } else {
            toasted(s, seq!["snippet not found: "@ + arg], now, s2)
        }
}

/// `macro:record:name`: recording starts afresh.
pub open spec fn record_effect(s: Shell, arg: Seq<char>, now: i64, s2: Shell, cs: Seq<Cmd>) -> bool {
    &&& cs.len() == 1 && cs[0] is Noop
    &&& s2 == (Shell { flags: Flags { recording_active: true, ..s.flags }, text: ShellText { recording_buffer: s2.text.recording_buffer,
        recording_name: s2.text.recording_name, toasts: s2.text.toasts, ..s.text }, ..s })
    &&& s2.text.recording_buffer@.len() == 0 && s2.text.recording_name@ == arg
    &&& toasts_added(s.text.toasts@, seq!["● REC "@ + arg + " (Esc to stop)"@], now, s2.text.toasts@)
}

/// `macro:run:name`: the macro's keys are handed out for replay.
pub open spec fn run_macro_effect(m: Model, s: Shell, arg: Seq<char>, now: i64, s2: Shell, cs: Seq<Cmd>) -> bool {
    if m.macros.map().dom().contains(arg) {
        s2 == s && cs.len() == 1 && (cs[0] matches Cmd::ReplayMacro { name, key_events_json }
            && name@ == arg && key_events_json@ == m.macros.map()[arg].key_events_json@)
    } else {
        cs.len() == 1 && cs[0] is Noop && toasted(s, seq!["macro not found: "@ + arg], now, s2)
    }
}

/// `view:save:name`: the screen is stored as a view and persisted.
pub open spec fn save_view_effect(m: Model, s: Shell, arg: Seq<char>, now: i64, m2: Model, s2: Shell, cs: Seq<Cmd>) -> bool {
    &&& m2 == (Model { saved_views: m2.saved_views, generation: (m.generation + 1) as u64, ..m })
    &&& exists|v: ViewSnapshot| #[trigger] snap_of(s, m, now, v) && m2.saved_views.map() == views_after_save(m, arg, v)
    &&& cs.len() == 1 && (cs[0] matches Cmd::PersistView { name, view } && name@ == arg && snap_of(s, m, now, view))
    &&& toasted(s, seq!["view saved: "@ + arg], now, s2)
}

/// `view:load:name`: the screen is restored from the view.
pub open spec fn load_view_effect(m: Model, s: Shell, arg: Seq<char>, now: i64, s2: Shell, cs: Seq<Cmd>) -> bool {
    if m.saved_views.map().dom().contains(arg) {
        let v = m.saved_views.map()[arg];
        let q = match v.filter_query { Some(q) => if q@.len() > 0 { Some(q@) } else { None }, None => None };
        &&& s2 == (Shell { tab: s2.tab, focus: s2.focus, cursor: 0, flags: Flags { filter_active: q is Some, ..s.flags },
            text: ShellText { filter_query: s2.text.filter_query, selected_set: s2.text.selected_set,
            toasts: s2.text.toasts, ..s.text }, ..s })
        &&& s2.tab == tab_of_name(v.tab@) && s2.focus == focus_of(tab_of_name(v.tab@))
        &&& opt_view(s2.text.filter_query) == q
        &&& s2.text.selected_set.wf() && s2.text.selected_set.set() == views(v.selected_set@).to_set()
        &&& toasts_added(s.text.toasts@, seq!["view loaded: "@ + arg], now, s2.text.toasts@)
        &&& cs.len() == 1 && (cs[0] matches Cmd::SetConfig { key, value } && key@ == "sort"@ && value@ == v.sort_mode@)
    } else {
        cs.len() == 0 && toasted(s, seq!["view not found: "@ + arg], now, s2)
    }
}

/// What a parsed line other than a chain does.
pub open spec fn single_effect(m: Model, s: Shell, iv: InputView, me: Seq<char>, now: i64, m2: Model, s2: Shell,
    cs: Seq<Cmd>) -> bool {
    match iv {
        InputView::Nothing => m2 == m && s2 == s && cs.len() == 0,
        InputView::Bare(Bare::StopMacro) => m2 == m && stop_effect(s, now, s2, cs),
        InputView::Bare(Bare::ListMacros) => m2 == m && cs.len() == 0 && list_toggle_effect(s, true, s2),
        InputView::Bare(Bare::ListViews) => m2 == m && cs.len() == 0 && list_toggle_effect(s, false, s2),
        InputView::Act { action, arg } => match action {
            Action::RunSnippet => m2 == m && run_snippet_effect(m, s, arg, now, s2, cs),
            Action::RecordMacro => m2 == m && record_effect(s, arg, now, s2, cs),
            Action::RunMacro => m2 == m && run_macro_effect(m, s, arg, now, s2, cs),
            Action::SaveView => save_view_effect(m, s, arg, now, m2, s2, cs),
            Action::LoadView => m2 == m && load_view_effect(m, s, arg, now, s2, cs),
            _ => applied(m, s, iv, me, now, m2, s2, cs),
        },
        _ => applied(m, s, iv, me, now, m2, s2, cs),
    }
}

/// What submitting `buf` does: its alias is expanded, it is parsed, and the
/// request is carried out. A chain runs its lines in turn, nesting at most
/// `depth` chains deep; a line of a chain is skipped once the model's change
/// counter has no room left for it.
pub open spec fn line_effect(m: Model, s: Shell, buf: Seq<char>, depth: nat, me: Seq<char>, now: i64, m2: Model,
    s2: Shell, cs: Seq<Cmd>) -> bool
    decreases depth, 0nat, 0nat,
{
    let iv = input_spec(expand_spec(buf, m.aliases.text_map()));
    match iv {
        InputView::Chain { segments, count } => if depth == 0 {
            m2 == m && cs.len() == 0 && toasted(s, seq!["chain: nested too deeply"@], now, s2)
        } else {
            exists|mm: Model, ss: Shell| #[trigger] reached(mm, ss) && chain_effect(m, s, segments, (depth - 1) as nat, me, now, mm, ss, cs)
                && m2 == mm && toasted(ss, seq!["✓ chain: "@ + decimal(count as nat) + " commands executed"@], now, s2)
        },
        _ => single_effect(m, s, iv, me, now, m2, s2, cs),
    }
}

/// Names an intermediate state of a chain; always true. It serves as the
/// trigger of the quantifiers in `line_effect` and `chain_effect`: inside
/// these recursive definitions their own calls are encoded with fuel and do
/// not match the calls that callers make, so they cannot trigger there.
pub open spec fn reached(m: Model, s: Shell) -> bool {
    true
}

/// Names an intermediate state of a chain and the commands so far; always
/// true (a trigger, as `reached`).
pub open spec fn reached_with(m: Model, s: Shell, cs: Seq<Cmd>) -> bool {
    true
}

/// Names the commands of one line of a chain; always true (a trigger, as
/// `reached`).
pub open spec fn emitted(cs: Seq<Cmd>) -> bool {
    true
}

/// The lines `segs` run in turn.
pub open spec fn chain_effect(m: Model, s: Shell, segs: Seq<Seq<char>>, depth: nat, me: Seq<char>, now: i64, m2: Model,
    s2: Shell, cs: Seq<Cmd>) -> bool
    decreases depth, 1nat, segs.len(),
{
    if segs.len() == 0 {
        m2 == m && s2 == s && cs.len() == 0
    } else {
        exists|mm: Model, ss: Shell, c1: Seq<Cmd>| #[trigger] reached_with(mm, ss, c1)
            && chain_effect(m, s, segs.drop_last(), depth, me, now, mm, ss, c1)
            && if mm.generation + 2 > u64::MAX {
                m2 == mm && s2 == ss && cs == c1
            } else {
                exists|c2: Seq<Cmd>| #[trigger] emitted(c2) && line_effect(mm, ss, segs.last(), depth, me, now, m2, s2, c2)
                    && cs == c1 + c2
            }
    }
}

/// How deep chains may nest (a chain nests only through an alias that
/// expands to a chain).
pub const CHAIN_DEPTH: usize = 8;

fn tab_name(t: Tab) -> (r: &'static str)
    ensures
        r@ == tab_name_spec(t),
{
    match t {
        Tab::Directory => "directory",
        Tab::Groups => "groups",
        Tab::Messages => "messages",
    }
}

fn tab_named(n: &str) -> (t: Tab)
    ensures
        t == tab_of_name(n@),
{
    if crate::text::str_eq(n, "groups") {
        Tab::Groups
    } else if crate::text::str_eq(n, "messages") {
        Tab::Messages
    } else {
        Tab::Directory
    }
}

fn focus_for(t: Tab) -> (f: FocusTarget)
    ensures
        f == focus_of(t),
{
    match t {
        Tab::Directory => FocusTarget::Directory,
        Tab::Groups => FocusTarget::Groups,
        Tab::Messages => FocusTarget::Messages,
    }
}

/// A snapshot of the screen for a saved view.
fn snapshot(model: &Model, shell: &Shell, now: i64) -> (v: ViewSnapshot)
    requires
        model.wf(),
    ensures
        snap_of(*shell, *model, now, v),
{
    let sel = copy_strings(&shell.text.selected_set.items);
    let v = ViewSnapshot {
        tab: tab_name(shell.tab).to_owned(),
        filter_query: clone_opt(&shell.text.filter_query),
        sort_mode: model.sort_mode().label().to_owned(),
        selected_set: sel,
        created_at_ms: now,
    };
    assert(views(v.selected_set@) =~= shell.text.selected_set.item_seq());
    v
}

proof fn lemma_apply_gen(m: Model, iv: InputView, me: Seq<char>, sel: Seq<Seq<char>>, now: i64, m2: Model, cs: Seq<Cmd>)
    requires
        m.generation < u64::MAX,
        input_effect(m, iv, me, sel, now, m2, cs),
    ensures
        m.generation <= m2.generation <= m.generation + 1,
{
}

/// Carries out a request on the model and raises its toasts.
fn run_applied(model: &mut Model, shell: &mut Shell, cmd: InputCommand, me: &str, now: i64) -> (cs: Vec<Cmd>)
    requires
        old(model).wf(),
        old(model).generation < u64::MAX,
    ensures
        final(model).wf(),
        old(model).generation <= final(model).generation <= old(model).generation + 1,
        final(shell).text.selected_set == old(shell).text.selected_set,
        applied(*old(model), *old(shell), input_view(cmd), me@, now, *final(model), *final(shell), cs@),
{
    let ghost iv = input_view(cmd);
    let sel = copy_strings(&shell.text.selected_set.items);
    assert(views(sel@) =~= shell.text.selected_set.item_seq());
    let ts = line_toasts(model, &cmd, me, sel.len());
    let ghost mb = *model;
    let cs = apply_input(model, cmd, me, &sel, now);
    proof { lemma_apply_gen(mb, iv, me@, views(sel@), now, *model, cs@); }
    raise(shell, ts, now);
    cs
}

fn stop_macro(shell: &mut Shell, now: i64) -> (cs: Vec<Cmd>)
    ensures
        stop_effect(*old(shell), now, *final(shell), cs@),
{
    if !shell.flags.recording_active {
        return Vec::new();
    }
    let mut name = String::new();
    std::mem::swap(&mut name, &mut shell.text.recording_name);
    let mut keys: Vec<crate::keys::KeyPress> = Vec::new();
    std::mem::swap(&mut keys, &mut shell.text.recording_buffer);
    shell.flags.recording_active = false;
    if keys.len() == 0 {
        raise_one(shell, "macro empty (no keys recorded)".to_owned(), now);
        return Vec::new();
    }
    vec![Cmd::SaveMacro { name, keys }]
}

fn toggle_list(shell: &mut Shell, macros: bool)
    ensures
        list_toggle_effect(*old(shell), macros, *final(shell)),
{
    if macros {
        shell.overlays.macro_overlay_active = !shell.overlays.macro_overlay_active;
        if shell.overlays.macro_overlay_active {
            shell.overlay_scroll = 0;
        }
    } else {
        shell.overlays.views_overlay_active = !shell.overlays.views_overlay_active;
        if shell.overlays.views_overlay_active {
            shell.overlay_scroll = 0;
        }
    }
}

fn run_snippet(model: &Model, shell: &mut Shell, arg: String, now: i64) -> (cs: Vec<Cmd>)
    requires
        model.wf(),
    ensures
        run_snippet_effect(*model, *old(shell), arg@, now, *final(shell), cs@),
{
    match model.get_snippet(arg.as_str()) {
        Some(text) => {
            shell.insert_mode = true;
            shell.focus = FocusTarget::Input;
            shell.text.input_buf = text.clone();
            raise_one(shell, cat3("replaying snippet: ", arg.as_str(), " (Enter to confirm)"), now);
        },
        None => raise_one(shell, concat("snippet not found: ", arg.as_str()), now),
    }
    vec![Cmd::Noop]
}

fn record_macro(shell: &mut Shell, arg: String, now: i64) -> (cs: Vec<Cmd>)
    ensures
        record_effect(*old(shell), arg@, now, *final(shell), cs@),
{
    shell.flags.recording_active = true;
    shell.text.recording_buffer = Vec::new();
    let t = cat3("● REC ", arg.as_str(), " (Esc to stop)");
    shell.text.recording_name = arg;
    raise_one(shell, t, now);
    vec![Cmd::Noop]
}

fn run_macro(model: &Model, shell: &mut Shell, arg: String, now: i64) -> (cs: Vec<Cmd>)
    requires
        model.wf(),
    ensures
        run_macro_effect(*model, *old(shell), arg@, now, *final(shell), cs@),
{
    match model.get_macro(arg.as_str()) {
        Some(m) => {
            let json = m.key_events_json.clone();
            vec![Cmd::ReplayMacro { name: arg, key_events_json: json }]
        },
        None => {
            raise_one(shell, concat("macro not found: ", arg.as_str()), now);
            vec![Cmd::Noop]
        },
    }
}

fn save_view(model: &mut Model, shell: &mut Shell, arg: String, now: i64) -> (cs: Vec<Cmd>)
    requires
        old(model).wf(),
        old(model).generation < u64::MAX,
    ensures
        final(model).wf(),
        save_view_effect(*old(model), *old(shell), arg@, now, *final(model), *final(shell), cs@),
{
    let kept = snapshot(model, shell, now);
    let sent = snapshot(model, shell, now);
    let t = concat("view saved: ", arg.as_str());
    let name = arg.clone();
    let ghost a = arg@;
    let ghost k = kept;
    model.add_saved_view(arg, kept);
    assert(views_after_save(*old(model), a, k) == model.saved_views.map());
    raise_one(shell, t, now);
    vec![Cmd::PersistView { name, view: sent }]
}

fn restored_filter(fq: &Option<String>) -> (r: (bool, Option<String>))
    ensures
        r.0 == (match *fq { Some(q) => q@.len() > 0, None => false }),
        opt_view(r.1) == (match *fq { Some(q) => if q@.len() > 0 { Some(q@) } else { None }, None => None }),
{
    match fq {
        Some(q) => if q.as_str().is_empty() { (false, None) } else { (true, Some(q.clone())) },
        None => (false, None),
    }
}

pub(crate) fn load_view(model: &Model, shell: &mut Shell, arg: String, now: i64) -> (cs: Vec<Cmd>)
    requires
        model.wf(),
    ensures
        model.saved_views.map().dom().contains(arg@) ==> final(shell).text.selected_set.wf(),
        !model.saved_views.map().dom().contains(arg@) ==> final(shell).text.selected_set == old(shell).text.selected_set,
        load_view_effect(*model, *old(shell), arg@, now, *final(shell), cs@),
{
    match model.get_saved_view(arg.as_str()) {
        Some(v) => {
            let tab = tab_named(v.tab.as_str());
            shell.tab = tab;
            shell.focus = focus_for(tab);
            shell.cursor = 0;
            let (active, query) = restored_filter(&v.filter_query);
            shell.flags.filter_active = active;
            shell.text.filter_query = query;
            shell.text.selected_set = StrSet::from_vec(copy_strings(&v.selected_set));
            let sort = v.sort_mode.clone();
            raise_one(shell, concat("view loaded: ", arg.as_str()), now);
            vec![Cmd::SetConfig { key: "sort".to_owned(), value: sort }]
        },
        None => {
            raise_one(shell, concat("view not found: ", arg.as_str()), now);
            Vec::new()
        },
    }
}

proof fn lemma_chain_skip(m: Model, s: Shell, segs: Seq<Seq<char>>, depth: nat, me: Seq<char>, now: i64, m2: Model,
    s2: Shell, cs: Seq<Cmd>)
    requires
        segs.len() > 0,
        chain_effect(m, s, segs.drop_last(), depth, me, now, m2, s2, cs),
        m2.generation + 2 > u64::MAX,
    ensures
        chain_effect(m, s, segs, depth, me, now, m2, s2, cs),
{
    assert(reached_with(m2, s2, cs));
}

proof fn lemma_chain_step(m: Model, s: Shell, segs: Seq<Seq<char>>, depth: nat, me: Seq<char>, now: i64, mm: Model,
    ss: Shell, c1: Seq<Cmd>, m2: Model, s2: Shell, c2: Seq<Cmd>)
    requires
        segs.len() > 0,
        chain_effect(m, s, segs.drop_last(), depth, me, now, mm, ss, c1),
        mm.generation + 2 <= u64::MAX,
        line_effect(mm, ss, segs.last(), depth, me, now, m2, s2, c2),
    ensures
        chain_effect(m, s, segs, depth, me, now, m2, s2, c1 + c2),
{
    assert(reached_with(mm, ss, c1));
    assert(emitted(c2));
}

/// Runs the lines of a chain in turn, one level deeper.
fn run_chain(model: &mut Model, shell: &mut Shell, segments: Vec<String>, depth: usize, me: &str, now: i64) -> (cs: Vec<Cmd>)
    requires
        old(model).wf(),
        old(shell).text.selected_set.wf(),
        old(model).generation + 1 <= u64::MAX,
    ensures
        final(model).wf(),
        final(shell).text.selected_set.wf(),
        old(model).generation <= final(model).generation,
        final(model).generation + 1 <= u64::MAX,
        chain_effect(*old(model), *old(shell), views(segments@), depth as nat, me@, now, *final(model), *final(shell), cs@),
    decreases depth, 1nat,
{
    let ghost m0 = *model;
    let ghost s0 = *shell;
    let ghost segs = views(segments@);
    let mut all: Vec<Cmd> = Vec::new();
    let mut i: usize = 0;
    assert(segs.take(0) =~= Seq::<Seq<char>>::empty());
    while i < segments.len()
        invariant
            segs == views(segments@),
            i <= segments.len(),
            model.wf(),
            shell.text.selected_set.wf(),
            m0.generation <= model.generation,
            model.generation + 1 <= u64::MAX,
            chain_effect(m0, s0, segs.take(i as int), depth as nat, me@, now, *model, *shell, all@),
        decreases segments.len() - i,
    {
        let ghost pm = *model;
        let ghost ps = *shell;
        let ghost pc = all@;
        let ghost pre = segs.take(i as int + 1);
        assert(pre.drop_last() =~= segs.take(i as int));
        assert(pre.last() == segs[i as int]);
        if model.generation > u64::MAX - 2 {
            proof { lemma_chain_skip(m0, s0, pre, depth as nat, me@, now, pm, ps, pc); }
        } else {
            let seg = segments[i].clone();
            assert(seg@ == segs[i as int]);
            let mut c = dispatch_line(model, shell, seg, depth, me, now);
            let ghost c2 = c@;
            all.append(&mut c);
            proof { lemma_chain_step(m0, s0, pre, depth as nat, me@, now, pm, ps, pc, *model, *shell, c2); }
            assert(all@ == pc + c2);
        }
        i += 1;
    }
    assert(segs.take(segments.len() as int) =~= segs);
    all
}

/// Carries out one submitted line (see `line_effect`).
pub fn dispatch_line(model: &mut Model, shell: &mut Shell, buf: String, depth: usize, me: &str, now: i64) -> (cs: Vec<Cmd>)
    requires
        old(model).wf(),
        old(shell).text.selected_set.wf(),
        old(model).generation + 2 <= u64::MAX,
    ensures
        final(model).wf(),
        final(shell).text.selected_set.wf(),
        old(model).generation <= final(model).generation,
        final(model).generation + 1 <= u64::MAX,
        line_effect(*old(model), *old(shell), buf@, depth as nat, me@, now, *final(model), *final(shell), cs@),
    decreases depth, 0nat,
{
    let line = expand_alias(model, buf);
    let cmd = parse_input(line.as_str());
    match cmd {
        InputCommand::Chain { segments, count } => {
            if depth == 0 {
                raise_one(shell, "chain: nested too deeply".to_owned(), now);
                return Vec::new();
            }
            let all = run_chain(model, shell, segments, depth - 1, me, now);
            let ghost mm = *model;
            let ghost ss = *shell;
            let n = u64_to_string(count as u64);
            raise_one(shell, cat3("✓ chain: ", n.as_str(), " commands executed"), now);
            assert(reached(mm, ss));
            all
        },
        InputCommand::Nothing => Vec::new(),
        InputCommand::Bare(Bare::StopMacro) => stop_macro(shell, now),
        InputCommand::Bare(Bare::ListMacros) => {
            toggle_list(shell, true);
            Vec::new()
        },
        InputCommand::Bare(Bare::ListViews) => {
            toggle_list(shell, false);
            Vec::new()
        },
        InputCommand::Act { action: Action::RunSnippet, arg } => run_snippet(model, shell, arg, now),
        InputCommand::Act { action: Action::RecordMacro, arg } => record_macro(shell, arg, now),
        InputCommand::Act { action: Action::RunMacro, arg } => run_macro(model, shell, arg, now),
        InputCommand::Act { action: Action::SaveView, arg } => save_view(model, shell, arg, now),
        InputCommand::Act { action: Action::LoadView, arg } => load_view(model, shell, arg, now),
        cmd => run_applied(model, shell, cmd, me, now),
    }
}

} // verus!

