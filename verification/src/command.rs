//! Fuzzy matching, the command catalog, and input autocompletion.
use vstd::prelude::*;
use crate::text::{fuzzy, lower_seq, embeds, subseq_at, lemma_is_subseq_positions, lower_chars, subseq_vec, starts_with, trim_start_seq, chars_of, string_of,
    skip_chars, join_chars, has_char, starts_with_vec, trim_start_vec};
use crate::store::Model;
use crate::strmap::StrMap;

verus! {

broadcast use vstd::string::group_string_axioms;

/// Fuzzy matching is subsequence matching by positions: `fuzzy_match`
/// holds exactly when some increasing positions of the lowercased target
/// spell the lowercased query.
pub proof fn law_fuzzy_is_subsequence(q: Seq<char>, t: Seq<char>)
    ensures
        fuzzy(q, t) == subseq_at(lower_seq(q), lower_seq(t)),
{
    lemma_is_subseq_positions(lower_seq(q), lower_seq(t));
}

/// The empty query matches every target.
pub proof fn law_fuzzy_empty_query(t: Seq<char>)
    ensures
        fuzzy(Seq::empty(), t),
{
    assert(lower_seq(Seq::<char>::empty()) =~= Seq::<char>::empty());
}

/// A match survives text added to the end of the target.
pub proof fn law_fuzzy_extend(q: Seq<char>, t: Seq<char>, more: Seq<char>)
    requires
        fuzzy(q, t),
    ensures
        fuzzy(q, t + more),
{
    let lq = lower_seq(q);
    lemma_is_subseq_positions(lq, lower_seq(t));
    lemma_is_subseq_positions(lq, lower_seq(t + more));
    let idx = choose|idx: Seq<int>| embeds(lq, lower_seq(t), idx);
    assert(embeds(lq, lower_seq(t + more), idx));
}

/// Whether the characters of `query` occur in order in `target`, ignoring
/// ASCII case. An empty query matches everything.
pub fn fuzzy_match(query: &str, target: &str) -> (r: bool)
    ensures
        r == fuzzy(query@, target@),
{
    let q = lower_chars(query);
    let t = lower_chars(target);
    subseq_vec(&q, &t)
}

/// A command of the palette: its name and description. What it does is
/// bound to the name by the program that shows the palette.
#[derive(Clone, Copy, Debug)]
pub struct Command {
    pub name: &'static str,
    pub description: &'static str,
}

impl Command {
    /// A command entry.
    pub fn new(name: &'static str, description: &'static str) -> (r: Self)
        ensures
            r.name == name,
            r.description == description,
    {
        Command { name, description }
    }
}

/// The built-in commands, in palette order.
pub open spec fn command_catalog() -> Seq<Command> {
    seq![
        Command { name: "switch terminal", description: "Activate selected agent's terminal tab" },
        Command { name: "send message", description: "Compose a message to the selected agent" },
        Command { name: "jump directory", description: "Go to Directory tab" },
        Command { name: "jump groups", description: "Go to Groups tab" },
        Command { name: "jump messages", description: "Go to Messages tab" },
        Command { name: "refresh agents", description: "Force refresh terminal list + status + inbox" },
        Command { name: "filter agents", description: "Enter filter mode in Directory (search by worktree/source/state)" },
        Command { name: "inject pty", description: "Send text directly to agent PTY (real-time, ASCII only)" },
        Command { name: "close terminal", description: "Close the selected agent's terminal" },
        Command { name: "rename terminal", description: "Rename the selected agent's tab (enters input mode)" },
        Command { name: "read output", description: "Read selected agent's terminal output" },
        Command { name: "worktree ps", description: "Show cross-worktree orchestration summary" },
        Command { name: "new terminal", description: "Create a blank terminal in the current worktree (enter input mode)" },
        Command { name: "spawn codex", description: "Launch OpenAI Codex agent in a new terminal" },
        Command { name: "spawn pi", description: "Launch Pi agent in a new terminal" },
        Command { name: "create group", description: "Create a new group and join it (enter input mode: group:<name>)" },
        Command { name: "join group", description: "Join an existing group (enter input mode: join:<group>)" },
        Command { name: "leave group", description: "Leave the selected group (enter input mode: leave:<group>)" },
        Command { name: "broadcast", description: "Send message to all members of the selected group" },
        Command { name: "show config", description: "Display all configuration items and current values" },
        Command { name: "set config", description: "Set a configuration value (enters input mode: config:key=value)" },
        Command { name: "reply to message", description: "Reply to the selected message in Messages tab (enter reply mode)" },
        Command { name: "show tasks", description: "Show orchestration tasks/runs/gates overview" },
        Command { name: "batch send", description: "Send a message to all selected agents (Space to multi-select first)" },
        Command { name: "batch close", description: "Close all selected agent terminals" },
        Command { name: "clear selection", description: "Clear multi-selection" },
        Command { name: "theme mocha", description: "Switch to Mocha (dark) theme" },
        Command { name: "theme light", description: "Switch to light theme" },
        Command { name: "theme contrast", description: "Switch to high-contrast theme" },
        Command { name: "quit", description: "Exit hub-tui" },
        Command { name: "sort by worktree", description: "Sort agents by worktree group (default: recent activity)" },
        Command { name: "sort by state", description: "Sort agents by status (working first)" },
        Command { name: "sort by source", description: "Sort agents by source (pi/omp/codex)" },
        Command { name: "sort by name", description: "Sort agents by title name (alphabetical)" },
        Command { name: "yank handle", description: "Copy selected agent handle to clipboard (press y in Directory)" },
        Command { name: "activity log", description: "Open the Activity Log overlay (recent events across all agents)" },
        Command { name: "command history", description: "Open command history overlay (H) — recall and re-edit past inputs" },
        Command { name: "global search", description: "Search across all data sources — agents, messages, events, history (Ctrl-S)" },
        Command { name: "dashboard", description: "Open dashboard overlay — live aggregate stats (D)" },
        Command { name: "save snippet", description: "Save a named snippet (enters input mode: snip:name text)" },
        Command { name: "run snippet", description: "Run a saved snippet by name (enters input mode: run:name)" },
        Command { name: "snippet library", description: "Browse saved snippets overlay (S) — select and run" },
        Command { name: "add alert rule", description: "Create an alert rule (enters input mode: rule:add type:value)" },
        Command { name: "alert rules", description: "View and manage alert rules overlay (N)" },
        Command { name: "record macro", description: "Start recording a named macro (enters input mode: macro:record:<name>)" },
        Command { name: "run macro", description: "Replay a saved macro by name (enters input mode: macro:run:<name>)" },
        Command { name: "macro library", description: "Browse saved macros overlay (e) — select to replay, d to delete" },
        Command { name: "save view", description: "Save current view as named preset (enters input mode: view:save:name)" },
        Command { name: "add note", description: "Add a note to an agent (enters input mode: note:handle text)" },
        Command { name: "view presets", description: "Browse saved view presets (V)" },
        Command { name: "add alias", description: "Create a command alias (enters input mode: alias:name expansion)" },
        Command { name: "bind hotkey", description: "Bind a custom hotkey to a command (enters input mode: hotkey:key command)" }
    ]
}

/// The built-in commands, in palette order.
#[verifier::spinoff_prover]
#[verifier::rlimit(60)]
pub fn builtin_commands() -> (r: Vec<Command>)
    ensures
        r@ == command_catalog(),
{
    let mut v: Vec<Command> = Vec::new();
    v.push(Command::new("switch terminal", "Activate selected agent's terminal tab"));
    v.push(Command::new("send message", "Compose a message to the selected agent"));
    v.push(Command::new("jump directory", "Go to Directory tab"));
    v.push(Command::new("jump groups", "Go to Groups tab"));
    v.push(Command::new("jump messages", "Go to Messages tab"));
    v.push(Command::new("refresh agents", "Force refresh terminal list + status + inbox"));
    v.push(Command::new("filter agents", "Enter filter mode in Directory (search by worktree/source/state)"));
    v.push(Command::new("inject pty", "Send text directly to agent PTY (real-time, ASCII only)"));
    v.push(Command::new("close terminal", "Close the selected agent's terminal"));
    v.push(Command::new("rename terminal", "Rename the selected agent's tab (enters input mode)"));
    v.push(Command::new("read output", "Read selected agent's terminal output"));
    v.push(Command::new("worktree ps", "Show cross-worktree orchestration summary"));
    v.push(Command::new("new terminal", "Create a blank terminal in the current worktree (enter input mode)"));
    v.push(Command::new("spawn codex", "Launch OpenAI Codex agent in a new terminal"));
    v.push(Command::new("spawn pi", "Launch Pi agent in a new terminal"));
    v.push(Command::new("create group", "Create a new group and join it (enter input mode: group:<name>)"));
    v.push(Command::new("join group", "Join an existing group (enter input mode: join:<group>)"));
    v.push(Command::new("leave group", "Leave the selected group (enter input mode: leave:<group>)"));
    v.push(Command::new("broadcast", "Send message to all members of the selected group"));
    v.push(Command::new("show config", "Display all configuration items and current values"));
    v.push(Command::new("set config", "Set a configuration value (enters input mode: config:key=value)"));
    v.push(Command::new("reply to message", "Reply to the selected message in Messages tab (enter reply mode)"));
    v.push(Command::new("show tasks", "Show orchestration tasks/runs/gates overview"));
    v.push(Command::new("batch send", "Send a message to all selected agents (Space to multi-select first)"));
    v.push(Command::new("batch close", "Close all selected agent terminals"));
    v.push(Command::new("clear selection", "Clear multi-selection"));
    v.push(Command::new("theme mocha", "Switch to Mocha (dark) theme"));
    v.push(Command::new("theme light", "Switch to light theme"));
    v.push(Command::new("theme contrast", "Switch to high-contrast theme"));
    v.push(Command::new("quit", "Exit hub-tui"));
    v.push(Command::new("sort by worktree", "Sort agents by worktree group (default: recent activity)"));
    v.push(Command::new("sort by state", "Sort agents by status (working first)"));
    v.push(Command::new("sort by source", "Sort agents by source (pi/omp/codex)"));
    v.push(Command::new("sort by name", "Sort agents by title name (alphabetical)"));
    v.push(Command::new("yank handle", "Copy selected agent handle to clipboard (press y in Directory)"));
    v.push(Command::new("activity log", "Open the Activity Log overlay (recent events across all agents)"));
    v.push(Command::new("command history", "Open command history overlay (H) — recall and re-edit past inputs"));
    v.push(Command::new("global search", "Search across all data sources — agents, messages, events, history (Ctrl-S)"));
    v.push(Command::new("dashboard", "Open dashboard overlay — live aggregate stats (D)"));
    v.push(Command::new("save snippet", "Save a named snippet (enters input mode: snip:name text)"));
    v.push(Command::new("run snippet", "Run a saved snippet by name (enters input mode: run:name)"));
    v.push(Command::new("snippet library", "Browse saved snippets overlay (S) — select and run"));
    v.push(Command::new("add alert rule", "Create an alert rule (enters input mode: rule:add type:value)"));
    v.push(Command::new("alert rules", "View and manage alert rules overlay (N)"));
    v.push(Command::new("record macro", "Start recording a named macro (enters input mode: macro:record:<name>)"));
    v.push(Command::new("run macro", "Replay a saved macro by name (enters input mode: macro:run:<name>)"));
    v.push(Command::new("macro library", "Browse saved macros overlay (e) — select to replay, d to delete"));
    v.push(Command::new("save view", "Save current view as named preset (enters input mode: view:save:name)"));
    v.push(Command::new("add note", "Add a note to an agent (enters input mode: note:handle text)"));
    v.push(Command::new("view presets", "Browse saved view presets (V)"));
    v.push(Command::new("add alias", "Create a command alias (enters input mode: alias:name expansion)"));
    v.push(Command::new("bind hotkey", "Bind a custom hotkey to a command (enters input mode: hotkey:key command)"));
    assert(v@ =~= command_catalog());
    v
}

/// The commands of `cmds` whose name or description fuzzy-matches `query`, in order.
pub open spec fn commands_matching(cmds: Seq<Command>, query: Seq<char>) -> Seq<Command>
    decreases cmds.len(),
{
    if cmds.len() == 0 {
        Seq::empty()
    } else {
        let prev = commands_matching(cmds.drop_last(), query);
        let c = cmds.last();
        if fuzzy(query, c.name@) || fuzzy(query, c.description@) { prev.push(c) } else { prev }
    }
}

/// A command is among the matches exactly when it is one of `cmds` and its
/// name or its description holds the query's characters in order (ignoring
/// ASCII case); the matches keep the order of `cmds`.
pub proof fn law_commands_matching(cmds: Seq<Command>, query: Seq<char>, c: Command)
    ensures
        commands_matching(cmds, query).contains(c) == (cmds.contains(c) && (fuzzy(query, c.name@) || fuzzy(query, c.description@))),
    decreases cmds.len(),
{
    if cmds.len() > 0 {
        let d = cmds.drop_last();
        law_commands_matching(d, query, c);
        let prev = commands_matching(d, query);
        if d.contains(c) {
            let k = choose|k: int| 0 <= k < d.len() && d[k] == c;
            assert(cmds[k] == c);
        }
        if cmds.contains(c) && c != cmds.last() {
            let k = choose|k: int| 0 <= k < cmds.len() && cmds[k] == c;
            assert(d[k] == c);
        }
        assert(cmds[cmds.len() - 1] == cmds.last());
        let l = cmds.last();
        if fuzzy(query, l.name@) || fuzzy(query, l.description@) {
            if prev.contains(c) {
                let k = choose|k: int| 0 <= k < prev.len() && prev[k] == c;
                assert(prev.push(l)[k] == c);
            }
            if prev.push(l).contains(c) && c != l {
                let k = choose|k: int| 0 <= k < prev.len() + 1 && prev.push(l)[k] == c;
                assert(prev[k] == c);
            }
            assert(prev.push(l)[prev.len() as int] == l);
        }
    }
}

/// The built-in commands whose name or description fuzzy-matches `query`
/// (all of them for an empty query), in palette order.
pub fn filter_commands(query: &str) -> (r: Vec<Command>)
    ensures
        r@ == commands_matching(command_catalog(), query@),
        query@.len() == 0 ==> r@ == command_catalog(),
{
    let all = builtin_commands();
    let mut out: Vec<Command> = Vec::new();
    let mut i: usize = 0;
    while i < all.len()
        invariant
            all@ == command_catalog(),
            i <= all.len(),
            out@ == commands_matching(all@.take(i as int), query@),
            query@.len() == 0 ==> out@ == all@.take(i as int),
        decreases all.len() - i,
    {
        let c = all[i];
        assert(all@.take(i + 1).drop_last() =~= all@.take(i as int));
        if fuzzy_match(query, c.name) || fuzzy_match(query, c.description) {
            out.push(c);
        }
        proof {
            if query@.len() == 0 {
                assert(crate::text::lower_seq(query@).len() == 0);
                assert(fuzzy(query@, c.name@));
                assert(all@.take(i + 1) =~= all@.take(i as int).push(c));
            }
        }
        i += 1;
    }
    assert(all@.take(all.len() as int) =~= all@);
    out
}

/// A Tab-completion suggestion.
#[derive(Debug, Clone)]
pub struct AcSuggestion {
    /// Text shown in the dropdown.
    pub label: String,
    /// Text that replaces the input on accept.
    pub insert: String,
    /// Badge: "prefix", "agent", "group", "snippet", "macro", "view", "alias" or "subcmd".
    pub source: &'static str,
}

/// A suggestion as plain text: label, inserted text, badge.
pub type SugView = (Seq<char>, Seq<char>, Seq<char>);

pub open spec fn sug_view(s: AcSuggestion) -> SugView {
    (s.label@, s.insert@, s.source@)
}

pub open spec fn sugs_view(v: Seq<AcSuggestion>) -> Seq<SugView> {
    Seq::new(v.len(), |i: int| sug_view(v[i]))
}

/// The input prefixes, in the order in which they are tried.
pub open spec fn input_prefixes_spec() -> Seq<Seq<char>> {
    seq![
        "to:"@, "pty:"@, "inject:"@, "rename:"@, "group:"@, "join:"@, "leave:"@,
        "broadcast:"@, "create:"@, "config:"@, "reply:"@, "batch:"@, "tag:"@,
        "tagged:"@, "snip:"@, "run:"@, "rule:"@, "macro:"@, "view:"@, "note:"@,
        "export:"@, "import:"@, "alias:"@, "hotkey:"@, "theme:"@, "watch:"@,
        "chain:"@
    ]
}

/// The input prefixes, in the order in which they are tried.
pub fn input_prefixes() -> (r: Vec<&'static str>)
    ensures
        Seq::new(r@.len(), |i: int| r@[i]@) == input_prefixes_spec(),
{
    let r = vec![
        "to:", "pty:", "inject:", "rename:", "group:", "join:", "leave:",
        "broadcast:", "create:", "config:", "reply:", "batch:", "tag:",
        "tagged:", "snip:", "run:", "rule:", "macro:", "view:", "note:",
        "export:", "import:", "alias:", "hotkey:", "theme:", "watch:",
        "chain:",
    ];
    assert(Seq::new(r@.len(), |i: int| r@[i]@) =~= input_prefixes_spec());
    r
}

/// Index of the first prefix of `t` that `q` starts with.
pub open spec fn first_prefix(q: Seq<char>, t: Seq<Seq<char>>) -> Option<int>
    decreases t.len(),
{
    if t.len() == 0 {
        None
    } else {
        match first_prefix(q, t.drop_last()) {
            Some(i) => Some(i),
            None => if starts_with(q, t.last()) { Some(t.len() - 1) } else { None },
        }
    }
}

/// Completions of a partial prefix `q`: the prefixes of `t` that extend it.
pub open spec fn prefix_sugs(q: Seq<char>, t: Seq<Seq<char>>) -> Seq<SugView>
    decreases t.len(),
{
    if t.len() == 0 {
        Seq::empty()
    } else {
        let prev = prefix_sugs(q, t.drop_last());
        let p = t.last();
        if starts_with(p, q) && q.len() < p.len() { prev.push((p + "  [prefix]"@, p, "prefix"@)) } else { prev }
    }
}

/// The names that fuzzy-match `partial`, in order, each after `lp`; the
/// inserted text ends with a space when `spaced`.
pub open spec fn name_sugs(lp: Seq<char>, partial: Seq<char>, names: Seq<Seq<char>>, spaced: bool, src: Seq<char>) -> Seq<SugView>
    decreases names.len(),
{
    if names.len() == 0 {
        Seq::empty()
    } else {
        let prev = name_sugs(lp, partial, names.drop_last(), spaced, src);
        let n = names.last();
        if fuzzy(partial, n) {
            prev.push((lp + n, if spaced { lp + n + seq![' '] } else { lp + n }, src))
        } else {
            prev
        }
    }
}

/// A subcommand suggestion.
pub open spec fn sub_sug(pfx: Seq<char>, sub: Seq<char>) -> SugView {
    (pfx + sub, pfx + sub, "subcmd"@)
}

/// Suggestions for the argument of `snip:` and `alias:`: names, or names to remove after "rm:".
pub open spec fn named_arg_sugs(pfx: Seq<char>, arg: Seq<char>, names: Seq<Seq<char>>, src: Seq<char>) -> Seq<SugView> {
    if starts_with(arg, "rm:"@) {
        name_sugs(pfx + "rm:"@, arg.skip("rm:"@.len() as int), names, false, src)
    } else {
        name_sugs(pfx, arg, names, false, src)
    }
}

/// Suggestions after `macro:` or `view:`: the subcommands for an empty
/// argument; names after one of the three subcommands that take one.
pub open spec fn sub_arg_sugs(pfx: Seq<char>, arg: Seq<char>, subs: Seq<Seq<char>>, named: Seq<Seq<char>>,
    names: Seq<Seq<char>>, src: Seq<char>) -> Seq<SugView> {
    if arg.len() == 0 {
        Seq::new(subs.len(), |k: int| sub_sug(pfx, subs[k]))
    } else if starts_with(arg, named[0]) {
        name_sugs(pfx + named[0], arg.skip(named[0].len() as int), names, false, src)
    } else if starts_with(arg, named[1]) {
        name_sugs(pfx + named[1], arg.skip(named[1].len() as int), names, false, src)
    } else if starts_with(arg, named[2]) {
        name_sugs(pfx + named[2], arg.skip(named[2].len() as int), names, false, src)
    } else {
        Seq::empty()
    }
}

/// Suggestions after `tag:`: the two subcommands for an empty argument,
/// then agent handles.
pub open spec fn tag_arg_sugs(arg: Seq<char>, handles: Seq<Seq<char>>) -> Seq<SugView> {
    let subs = if arg.len() == 0 { seq![sub_sug("tag:"@, "add:"@), sub_sug("tag:"@, "rm:"@)] } else { Seq::empty() };
    if starts_with(arg, "add:"@) {
        subs + name_sugs("tag:add:"@, arg.skip("add:"@.len() as int), handles, true, "agent"@)
    } else if starts_with(arg, "rm:"@) {
        subs + name_sugs("tag:rm:"@, arg.skip("rm:"@.len() as int), handles, true, "agent"@)
    } else if !arg.contains(':') {
        subs + name_sugs("tag:"@, arg, handles, true, "agent"@)
    } else {
        subs
    }
}

/// Suggestions after the `i`-th input prefix, for the text `rest` that follows it.
pub open spec fn after_prefix_sugs(i: int, rest: Seq<char>, m: Model) -> Seq<SugView> {
    let pfx = input_prefixes_spec()[i];
    let arg = trim_start_seq(rest);
    if i == 0 || i == 1 || i == 3 || i == 25 {
        name_sugs(pfx, arg, m.directory.key_seq(), true, "agent"@)
    } else if 4 <= i <= 7 {
        name_sugs(pfx, arg, m.groups.key_seq(), false, "group"@)
    } else if i == 14 {
        named_arg_sugs(pfx, arg, m.snippets.key_seq(), "snippet"@)
    } else if i == 22 {
        named_arg_sugs(pfx, arg, m.aliases.key_seq(), "alias"@)
    } else if i == 17 {
        sub_arg_sugs(pfx, arg, seq!["record:"@, "run:"@, "rm:"@, "stop"@, "list"@], seq!["run:"@, "rm:"@, "record:"@],
            m.macros.key_seq(), "macro"@)
    } else if i == 18 {
        sub_arg_sugs(pfx, arg, seq!["save:"@, "load:"@, "rm:"@, "list"@], seq!["load:"@, "rm:"@, "save:"@],
            m.saved_views.key_seq(), "view"@)
    } else if i == 12 {
        tag_arg_sugs(arg, m.directory.key_seq())
    } else {
        Seq::empty()
    }
}

/// All suggestions for the (trimmed, non-empty) input `q`.
pub open spec fn all_sugs(q: Seq<char>, m: Model) -> Seq<SugView> {
    match first_prefix(q, input_prefixes_spec()) {
        Some(i) => after_prefix_sugs(i, q.skip(input_prefixes_spec()[i].len() as int), m),
        None => prefix_sugs(q, input_prefixes_spec()),
    }
}

/// What the dropdown shows for input `input`: nothing for blank input, else
/// at most eight suggestions.
pub open spec fn autocomplete_spec(input: Seq<char>, m: Model) -> Seq<SugView> {
    let q = crate::text::trim_seq(input);
    if q.len() == 0 { Seq::empty() } else { crate::search::first_n(all_sugs(q, m), 8) }
}

fn sug(label: Vec<char>, insert: Vec<char>, source: &'static str) -> (r: AcSuggestion)
    ensures
        sug_view(r) == (label@, insert@, source@),
{
    AcSuggestion { label: string_of(&label), insert: string_of(&insert), source }
}

/// Appends a suggestion for each key of `m` that fuzzy-matches `partial`.
fn push_names<V>(lp: &Vec<char>, partial: &Vec<char>, m: &StrMap<V>, spaced: bool, source: &'static str,
    out: &mut Vec<AcSuggestion>)
    ensures
        sugs_view(final(out)@) == sugs_view(old(out)@) + name_sugs(lp@, partial@, m.key_seq(), spaced, source@),
{
    let ghost start = sugs_view(out@);
    let mut i: usize = 0;
    while i < m.entries.len()
        invariant
            i <= m.entries.len(),
            sugs_view(out@) == start + name_sugs(lp@, partial@, m.key_seq().take(i as int), spaced, source@),
        decreases m.entries.len() - i,
    {
        let key = &m.entries[i].0;
        assert(m.key_seq().take(i + 1).drop_last() =~= m.key_seq().take(i as int));
        assert(m.key_seq().take(i + 1).last() == key@);
        let kc = chars_of(key.as_str());
        if subseq_vec(&crate::text::lower_vec(partial), &crate::text::lower_vec(&kc)) {
            let label = join_chars(lp, &kc);
            let insert = if spaced {
                let mut t = label.clone();
                t.push(' ');
                t
            } else {
                label.clone()
            };
            let ghost before = out@;
            let ghost item = (label@, insert@, source@);
            out.push(sug(label, insert, source));
            proof {
                assert(fuzzy(partial@, key@));
                assert(item == (lp@ + key@, if spaced { lp@ + key@ + seq![' '] } else { lp@ + key@ }, source@));
                assert(name_sugs(lp@, partial@, m.key_seq().take(i + 1), spaced, source@)
                    == name_sugs(lp@, partial@, m.key_seq().take(i as int), spaced, source@).push(item));
                assert(sugs_view(out@) =~= sugs_view(before).push(item));
                assert(sugs_view(out@) =~= start + name_sugs(lp@, partial@, m.key_seq().take(i + 1), spaced, source@));
            }
        } else {
            assert(!fuzzy(partial@, key@));
            assert(name_sugs(lp@, partial@, m.key_seq().take(i + 1), spaced, source@)
                == name_sugs(lp@, partial@, m.key_seq().take(i as int), spaced, source@));
        }
        i += 1;
    }
    assert(m.key_seq().take(m.entries.len() as int) =~= m.key_seq());
}

fn push_sub(pfx: &Vec<char>, sub: &str, out: &mut Vec<AcSuggestion>)
    ensures
        sugs_view(final(out)@) == sugs_view(old(out)@).push(sub_sug(pfx@, sub@)),
{
    let t = join_chars(pfx, &chars_of(sub));
    let ghost before = out@;
    out.push(sug(t.clone(), t, "subcmd"));
    assert(sugs_view(out@) =~= sugs_view(before).push(sub_sug(pfx@, sub@)));
}

/// Suggestions after `macro:` or `view:`.
fn push_sub_args<V>(pfx: &Vec<char>, arg: &Vec<char>, subs: &Vec<&'static str>, named: &Vec<&'static str>,
    m: &StrMap<V>, source: &'static str, out: &mut Vec<AcSuggestion>)
    requires
        named@.len() == 3,
    ensures
        sugs_view(final(out)@) == sugs_view(old(out)@) + sub_arg_sugs(pfx@, arg@,
            Seq::new(subs@.len(), |k: int| subs@[k]@), Seq::new(3, |k: int| named@[k]@), m.key_seq(), source@),
{
    let ghost start = sugs_view(out@);
    let ghost sv = Seq::new(subs@.len(), |k: int| subs@[k]@);
    let ghost nv = Seq::new(3, |k: int| named@[k]@);
    if arg.len() == 0 {
        let mut k: usize = 0;
        while k < subs.len()
            invariant
                k <= subs.len(),
                sv == Seq::new(subs@.len(), |j: int| subs@[j]@),
                sugs_view(out@) == start + Seq::new(k as nat, |j: int| sub_sug(pfx@, sv[j])),
            decreases subs.len() - k,
        {
            push_sub(pfx, subs[k], out);
            assert(start + Seq::new((k + 1) as nat, |j: int| sub_sug(pfx@, sv[j]))
                =~= (start + Seq::new(k as nat, |j: int| sub_sug(pfx@, sv[j]))).push(sub_sug(pfx@, sv[k as int])));
            k += 1;
        }
        return;
    }
    let mut j: usize = 0;
    while j < 3
        invariant
            sv == Seq::new(subs@.len(), |k: int| subs@[k]@),
            j <= 3,
            named@.len() == 3,
            nv == Seq::new(3, |k: int| named@[k]@),
            arg@.len() != 0,
            start == sugs_view(old(out)@),
            sugs_view(out@) == start,
            forall|k: int| 0 <= k < j ==> !starts_with(arg@, #[trigger] nv[k]),
        decreases 3 - j,
    {
        let sub = chars_of(named[j]);
        assert(sub@ == nv[j as int]);
        if starts_with_vec(arg, &sub) {
            let lp = join_chars(pfx, &sub);
            let partial = skip_chars(arg, sub.len());
            push_names(&lp, &partial, m, false, source, out);
            proof {
                if j == 0 {
                    assert(sub_arg_sugs(pfx@, arg@, sv, nv, m.key_seq(), source@)
                        == name_sugs(pfx@ + nv[0], arg@.skip(nv[0].len() as int), m.key_seq(), false, source@));
                } else if j == 1 {
                    assert(!starts_with(arg@, nv[0]));
                    assert(sub_arg_sugs(pfx@, arg@, sv, nv, m.key_seq(), source@)
                        == name_sugs(pfx@ + nv[1], arg@.skip(nv[1].len() as int), m.key_seq(), false, source@));
                } else {
                    assert(!starts_with(arg@, nv[0]));
                    assert(!starts_with(arg@, nv[1]));
                    assert(sub_arg_sugs(pfx@, arg@, sv, nv, m.key_seq(), source@)
                        == name_sugs(pfx@ + nv[2], arg@.skip(nv[2].len() as int), m.key_seq(), false, source@));
                }
            }
            return;
        }
        j += 1;
    }
}

/// Suggestions after `tag:`.
fn push_tag_args(arg: &Vec<char>, model: &Model, out: &mut Vec<AcSuggestion>)
    ensures
        sugs_view(final(out)@) == sugs_view(old(out)@) + tag_arg_sugs(arg@, model.directory.key_seq()),
{
    let ghost start = sugs_view(out@);
    let tag = chars_of("tag:");
    if arg.len() == 0 {
        push_sub(&tag, "add:", out);
        push_sub(&tag, "rm:", out);
    }
    let ghost mid = sugs_view(out@);
    let add = chars_of("add:");
    let rm = chars_of("rm:");
    if starts_with_vec(arg, &add) {
        push_names(&chars_of("tag:add:"), &skip_chars(arg, add.len()), &model.directory, true, "agent", out);
    } else if starts_with_vec(arg, &rm) {
        push_names(&chars_of("tag:rm:"), &skip_chars(arg, rm.len()), &model.directory, true, "agent", out);
    } else if !has_char(arg, ':') {
        push_names(&tag, arg, &model.directory, true, "agent", out);
    }
    assert(sugs_view(out@) =~= start + tag_arg_sugs(arg@, model.directory.key_seq()));
}

/// Suggestions after the `i`-th input prefix `pfx`, for the text `rest` after it.
fn suggest_after_prefix(i: usize, pfx: &Vec<char>, rest: &Vec<char>, model: &Model, out: &mut Vec<AcSuggestion>)
    requires
        i < 27,
        pfx@ == input_prefixes_spec()[i as int],
    ensures
        sugs_view(final(out)@) == sugs_view(old(out)@) + after_prefix_sugs(i as int, rest@, *model),
{
    let arg = trim_start_vec(rest);
    if i == 0 || i == 1 || i == 3 || i == 25 {
        push_names(pfx, &arg, &model.directory, true, "agent", out);
    } else if 4 <= i && i <= 7 {
        push_names(pfx, &arg, &model.groups, false, "group", out);
    } else if i == 14 || i == 22 {
        let rm = chars_of("rm:");
        let (lp, partial) = if starts_with_vec(&arg, &rm) {
            (join_chars(pfx, &rm), skip_chars(&arg, rm.len()))
        } else {
            (pfx.clone(), arg.clone())
        };
        if i == 14 {
            push_names(&lp, &partial, &model.snippets, false, "snippet", out);
        } else {
            push_names(&lp, &partial, &model.aliases, false, "alias", out);
        }
    } else if i == 17 {
        let subs = vec!["record:", "run:", "rm:", "stop", "list"];
        let named = vec!["run:", "rm:", "record:"];
        assert(Seq::new(subs@.len(), |k: int| subs@[k]@) =~= seq!["record:"@, "run:"@, "rm:"@, "stop"@, "list"@]);
        assert(Seq::new(3, |k: int| named@[k]@) =~= seq!["run:"@, "rm:"@, "record:"@]);
        push_sub_args(pfx, &arg, &subs, &named, &model.macros, "macro", out);
    } else if i == 18 {
        let subs = vec!["save:", "load:", "rm:", "list"];
        let named = vec!["load:", "rm:", "save:"];
        assert(Seq::new(subs@.len(), |k: int| subs@[k]@) =~= seq!["save:"@, "load:"@, "rm:"@, "list"@]);
        assert(Seq::new(3, |k: int| named@[k]@) =~= seq!["load:"@, "rm:"@, "save:"@]);
        push_sub_args(pfx, &arg, &subs, &named, &model.saved_views, "view", out);
    } else if i == 12 {
        push_tag_args(&arg, model, out);
    } else {
        assert(sugs_view(out@) =~= sugs_view(out@) + Seq::<SugView>::empty());
    }
}

/// Appends the suggestions for the trimmed, non-empty input `q`.
fn autocomplete_into(q: &Vec<char>, model: &Model, out: &mut Vec<AcSuggestion>)
    ensures
        sugs_view(final(out)@) == sugs_view(old(out)@) + all_sugs(q@, *model),
{
    let ghost start = sugs_view(out@);
    let table = input_prefixes();
    let ghost tv = input_prefixes_spec();
    let mut i: usize = 0;
    while i < table.len()
        invariant
            i <= table.len(),
            Seq::new(table@.len(), |k: int| table@[k]@) == tv,
            tv == input_prefixes_spec(),
            first_prefix(q@, tv.take(i as int)) is None,
            start == sugs_view(old(out)@),
            sugs_view(out@) == start,
        decreases table.len() - i,
    {
        assert(tv.take(i + 1).drop_last() =~= tv.take(i as int));
        let p = chars_of(table[i]);
        assert(p@ == tv[i as int]);
        if starts_with_vec(q, &p) {
            proof {
                assert(first_prefix(q@, tv.take(i + 1)) == Some(i as int));
                lemma_first_prefix_extends(q@, tv, i + 1);
            }
            let rest = skip_chars(q, p.len());
            suggest_after_prefix(i, &p, &rest, model, out);
            assert(all_sugs(q@, *model) == after_prefix_sugs(i as int, rest@, *model));
            return;
        }
        i += 1;
    }
    assert(tv.take(table.len() as int) =~= tv);
    let mut j: usize = 0;
    while j < table.len()
        invariant
            j <= table.len(),
            Seq::new(table@.len(), |k: int| table@[k]@) == tv,
            tv == input_prefixes_spec(),
            first_prefix(q@, tv) is None,
            sugs_view(out@) == start + prefix_sugs(q@, tv.take(j as int)),
        decreases table.len() - j,
    {
        assert(tv.take(j + 1).drop_last() =~= tv.take(j as int));
        let p = chars_of(table[j]);
        assert(p@ == tv[j as int]);
        if starts_with_vec(&p, q) && q.len() < p.len() {
            let label = join_chars(&p, &chars_of("  [prefix]"));
            let ghost before = out@;
            out.push(sug(label, p, "prefix"));
            assert(sugs_view(out@) =~= sugs_view(before).push(sugs_view(out@).last()));
        }
        j += 1;
    }
    assert(tv.take(table.len() as int) =~= tv);
}

/// Once a prefix of the table matched, the rest of the table does not change the answer.
proof fn lemma_first_prefix_extends(q: Seq<char>, t: Seq<Seq<char>>, n: int)
    requires
        0 < n <= t.len(),
        first_prefix(q, t.take(n)) is Some,
    ensures
        first_prefix(q, t) == first_prefix(q, t.take(n)),
    decreases t.len() - n,
{
    if n < t.len() {
        assert(t.take(n + 1).drop_last() =~= t.take(n));
        lemma_first_prefix_extends(q, t, n + 1);
    } else {
        assert(t.take(n) =~= t);
    }
}

/// Ranked completions for the input box: known prefixes for a partial
/// prefix; after a known prefix, agent handles, group names, or snippet,
/// macro, view and alias names (with their subcommands) that fuzzy-match
/// the argument. At most eight; none for blank input.
pub fn autocomplete_suggestions(input: &str, model: &Model) -> (r: Vec<AcSuggestion>)
    ensures
        sugs_view(r@) == autocomplete_spec(input@, *model),
{
    let q = crate::text::trim_vec(&chars_of(input));
    let mut out: Vec<AcSuggestion> = Vec::new();
    if q.len() == 0 {
        assert(sugs_view(out@) =~= Seq::<SugView>::empty());
        return out;
    }
    autocomplete_into(&q, model, &mut out);
    assert(sugs_view(out@) =~= all_sugs(q@, *model));
    let ghost full = out@;
    out.truncate(8);
    assert(sugs_view(out@) =~= crate::search::first_n(sugs_view(full), 8));
    out
}

} // verus!
