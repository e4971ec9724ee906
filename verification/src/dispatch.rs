//! Carrying out a parsed input line on the model: the changes to the user's
//! data and the commands handed to the program. What a line does to the
//! screen (toasts, input box, macro recording, overlays) is the caller's.
use vstd::prelude::*;
use crate::store::{Model, set_map, with_member, without_member, toggled, rules_without, snippets_full};
use crate::strmap::{StrMap, StrSet};
use crate::model::{AlertRule, AlertRuleType};
use crate::input::{InputCommand, InputView, Action, PairKind, Named, input_view};
use crate::update::Cmd;
use crate::bundle::{ExportBundle, exported};
use crate::text::{views, concat};

verus! {

broadcast use vstd::string::group_string_axioms;

pub open spec fn is_send(c: Cmd, to: Seq<char>, subject: Seq<char>) -> bool {
    c matches Cmd::OrchestrationSend { to: t, subject: s, body: b } && t@ == to && s@ == subject && b@.len() == 0
}

pub open spec fn is_terminal_send(c: Cmd, handle: Seq<char>, text: Seq<char>) -> bool {
    c matches Cmd::TerminalSend { handle: h, text: t } && h@ == handle && t@ == text
}

/// `cs` sends `subject` to each of `to`, in order.
pub open spec fn sends_to_each(cs: Seq<Cmd>, to: Seq<Seq<char>>, subject: Seq<char>) -> bool {
    cs.len() == to.len() && forall|i: int| 0 <= i < cs.len() ==> #[trigger] is_send(cs[i], to[i], subject)
}

/// `cs` types `text` into each of the terminals `to`, in order.
pub open spec fn types_into_each(cs: Seq<Cmd>, to: Seq<Seq<char>>, text: Seq<char>) -> bool {
    cs.len() == to.len() && forall|i: int| 0 <= i < cs.len() ==> #[trigger] is_terminal_send(cs[i], to[i], text)
}

/// The handles whose tags include `tag`, in the order of the tag map.
pub open spec fn tagged_handles(keys: Seq<Seq<char>>, sets: Seq<StrSet>, tag: Seq<char>) -> Seq<Seq<char>>
    decreases keys.len(),
{
    if keys.len() == 0 || sets.len() != keys.len() {
        Seq::empty()
    } else {
        let prev = tagged_handles(keys.drop_last(), sets.drop_last(), tag);
        if sets.last().set().contains(tag) { prev.push(keys.last()) } else { prev }
    }
}

/// The same model with its generation moved on by one.
pub open spec fn bumped(m: Model, m2: Model) -> bool {
    m2.generation == m.generation + 1
}

/// What carrying out the parsed line `iv` does: `m2` is the model after it
/// and `cs` the commands to run. `me` is this terminal's own handle (empty
/// when unknown), `selected` the selected agents, `now` the time.
pub open spec fn input_effect(m: Model, iv: InputView, me: Seq<char>, selected: Seq<Seq<char>>, now: i64, m2: Model, cs: Seq<Cmd>) -> bool {
    match iv {
        InputView::Pty { handle, text, ascii } => m2 == m && types_into_each(cs, seq![handle], text),
        InputView::Pair { kind, first, second } => match kind {
            PairKind::Send => m2 == m && sends_to_each(cs, seq![first], second),
            PairKind::Rename => m2 == m && cs.len() == 1
                && (cs[0] matches Cmd::RenameTerminal { handle, new_title } && handle@ == first && new_title@ == second),
            PairKind::Broadcast => m2 == m && if set_map(m.groups).dom().contains(first) && m.groups.map()[first].item_seq().len() > 0 {
                cs.len() == 1 && (cs[0] matches Cmd::GroupBroadcast { name, message, handles }
                    && name@ == first && message@ == second && views(handles@) == m.groups.map()[first].item_seq())
            } else {
                cs.len() == 0
            },
            PairKind::Reply => m2 == m && cs.len() == 1
                && (cs[0] matches Cmd::OrchestrationReply { id, body } && id@ == first && body@ == second),
            PairKind::Tagged => m2 == m && sends_to_each(cs, tagged_handles(m.tags.key_seq(), m.tags.value_seq(), first), second),
            PairKind::Config => m2 == m && cs.len() == 1
                && (cs[0] matches Cmd::SetConfig { key, value } && key@ == first && value@ == second),
            PairKind::Theme => {
                &&& m2.config.text_map() == m.config.text_map().insert("theme."@ + first, second)
                &&& m2 == (Model { config: m2.config, ..m })
                &&& cs.len() == 1 && (cs[0] matches Cmd::SetConfig { key, value } && key@ == "theme."@ + first && value@ == second)
            },
            PairKind::TagAdd => {
                &&& set_map(m2.tags) == with_member(set_map(m.tags), first, second)
                &&& m2 == (Model { tags: m2.tags, generation: (m.generation + 1) as u64, ..m })
                &&& cs.len() == 1 && (cs[0] matches Cmd::PersistTagAdd { handle, tag } && handle@ == first && tag@ == second)
            },
            PairKind::TagRemove => {
                &&& set_map(m2.tags) == without_member(set_map(m.tags), first, second)
                &&& m2 == (Model { tags: m2.tags, generation: (m.generation + 1) as u64, ..m })
                &&& cs.len() == 1 && (cs[0] matches Cmd::PersistTagRemove { handle, tag } && handle@ == first && tag@ == second)
            },
        },
        InputView::Act { action, arg } => match action {
            Action::Inject => m2 == m && if selected.len() == 0 { cs.len() == 0 } else { types_into_each(cs, selected, arg) },
            Action::CreateGroup => {
                &&& (if me.len() > 0 {
                        set_map(m2.groups) == with_member(set_map(m.groups), arg, me) && m2 == (Model { groups: m2.groups, ..m })
                    } else {
                        m2 == m
                    })
                &&& cs.len() == 2 && (cs[0] matches Cmd::PersistGroupJoin { name, handle } && name@ == arg && handle@ == me)
                    && cs[1] is WriteDirectory
            },
            Action::JoinGroup => if me.len() == 0 {
                m2 == m && cs.len() == 0
            } else {
                &&& set_map(m2.groups) == with_member(set_map(m.groups), arg, me) && m2 == (Model { groups: m2.groups, ..m })
                &&& cs.len() == 2 && (cs[0] matches Cmd::PersistGroupJoin { name, handle } && name@ == arg && handle@ == me)
                    && cs[1] is WriteDirectory
            },
            Action::LeaveGroup => {
                &&& (if me.len() > 0 {
                        set_map(m2.groups) == without_member(set_map(m.groups), arg, me) && m2 == (Model { groups: m2.groups, ..m })
                    } else {
                        m2 == m
                    })
                &&& cs.len() == 2 && (cs[0] matches Cmd::PersistGroupLeave { name, handle } && name@ == arg && handle@ == me)
                    && cs[1] is WriteDirectory
            },
            Action::Export => {
                &&& m2 == m
                &&& cs.len() == 1 && (cs[0] matches Cmd::ExportSettings { path, bundle } && path@ == arg && exported(m, bundle))
            },
            Action::Import => m2 == m && cs.len() == 1 && (cs[0] matches Cmd::ImportSettings { path } && path@ == arg),
            Action::Watch => {
                &&& m2.watched.set() == toggled(m.watched.set(), arg)
                &&& m2 == (Model { watched: m2.watched, ..m })
                &&& cs.len() == 1 && if m2.watched.set().contains(arg) {
                    cs[0] matches Cmd::PersistWatchAdd { handle } && handle@ == arg
                } else {
                    cs[0] matches Cmd::PersistWatchRemove { handle } && handle@ == arg
                }
            },
            // Replaying snippets and macros, recording macros and saving or
            // loading views act on the screen only.
            _ => m2 == m && cs.len() == 1 && cs[0] is Noop,
        },
        InputView::Store { kind, name, text } => match kind {
            Named::Snippet => if snippets_full(m, name) {
                m2 == m && cs.len() == 0
            } else {
                &&& m2.snippets.text_map() == m.snippets.text_map().insert(name, text)
                &&& m2 == (Model { snippets: m2.snippets, generation: (m.generation + 1) as u64, ..m })
                &&& cs.len() == 1 && (cs[0] matches Cmd::PersistSnippet { name: n, text: t } && n@ == name && t@ == text)
            },
            Named::Note => {
                &&& m2.notes.text_map() == m.notes.text_map().insert(name, text)
                &&& m2 == (Model { notes: m2.notes, generation: (m.generation + 1) as u64, ..m })
                &&& cs.len() == 1 && (cs[0] matches Cmd::PersistNote { handle: n, text: t } && n@ == name && t@ == text)
            },
            Named::Alias => {
                &&& m2.aliases.text_map() == m.aliases.text_map().insert(name, text)
                &&& m2 == (Model { aliases: m2.aliases, generation: (m.generation + 1) as u64, ..m })
                &&& cs.len() == 1 && (cs[0] matches Cmd::PersistAlias { name: n, expansion: t } && n@ == name && t@ == text)
            },
            Named::Hotkey => {
                &&& m2.hotkeys.text_map() == m.hotkeys.text_map().insert(name, text)
                &&& m2 == (Model { hotkeys: m2.hotkeys, generation: (m.generation + 1) as u64, ..m })
                &&& cs.len() == 1 && (cs[0] matches Cmd::PersistHotkey { key: n, command: t } && n@ == name && t@ == text)
            },
            _ => m2 == m && cs.len() == 0,
        },
        InputView::Remove { kind, name } => match kind {
            Named::Snippet => {
                &&& m2.snippets.text_map() == m.snippets.text_map().remove(name)
                &&& m2 == (Model { snippets: m2.snippets, generation: (m.generation + 1) as u64, ..m })
                &&& cs.len() == 1 && (cs[0] matches Cmd::RemoveSnippet { name: n } && n@ == name)
            },
            Named::Note => {
                &&& m2.notes.text_map() == m.notes.text_map().remove(name)
                &&& m2 == (Model { notes: m2.notes, generation: (m.generation + 1) as u64, ..m })
                &&& cs.len() == 1 && (cs[0] matches Cmd::RemoveNote { handle: n } && n@ == name)
            },
            Named::Alias => {
                &&& m2.aliases.text_map() == m.aliases.text_map().remove(name)
                &&& m2 == (Model { aliases: m2.aliases, generation: (m.generation + 1) as u64, ..m })
                &&& cs.len() == 1 && (cs[0] matches Cmd::RemoveAlias { name: n } && n@ == name)
            },
            Named::Hotkey => {
                &&& m2.hotkeys.text_map() == m.hotkeys.text_map().remove(name)
                &&& m2 == (Model { hotkeys: m2.hotkeys, generation: (m.generation + 1) as u64, ..m })
                &&& cs.len() == 1 && (cs[0] matches Cmd::RemoveHotkey { key: n } && n@ == name)
            },
            Named::Macro => {
                &&& m2.macros.map() == m.macros.map().remove(name)
                &&& m2 == (Model { macros: m2.macros, generation: (m.generation + 1) as u64, ..m })
                &&& cs.len() == 1 && (cs[0] matches Cmd::RemoveMacro { name: n } && n@ == name)
            },
            Named::View => {
                &&& m2.saved_views.map() == m.saved_views.map().remove(name)
                &&& if m.saved_views.map().dom().contains(name) {
                    m2 == (Model { saved_views: m2.saved_views, generation: (m.generation + 1) as u64, ..m })
                        && cs.len() == 1 && (cs[0] matches Cmd::RemoveView { name: n } && n@ == name)
                } else {
                    m2 == m && cs.len() == 0
                }
            },
        },
        InputView::Create { worktree, command } => m2 == m && cs.len() == 1
            && (cs[0] matches Cmd::CreateTerminal { worktree: w, command: c, title }
                && (match w { Some(x) => Some(x@), None => None::<Seq<char>> }) == worktree && c@ == command && title is None),
        InputView::Batch { handles, message } => m2 == m && sends_to_each(cs, handles, message),
        InputView::RemoveRule { id } => {
            &&& m2.alert_rules@ == rules_without(m.alert_rules@, id)
            &&& m2 == (Model { alert_rules: m2.alert_rules, generation: (m.generation + 1) as u64, ..m })
            &&& cs.len() == 1 && (cs[0] matches Cmd::RemoveAlertRule { id: i } && i == id)
        },
        InputView::AddRule { rule_type, value } => {
            let rule_ok = |r: AlertRule| r.id == 0 && r.rule_type == rule_type && r.value@ == value && r.created_at_ms == now;
            &&& (if m.alert_rules@.len() < crate::model::ALERT_RULES_CAP {
                    m2 == (Model { alert_rules: m2.alert_rules, generation: (m.generation + 1) as u64, ..m })
                        && m2.alert_rules@.len() == m.alert_rules@.len() + 1
                        && m2.alert_rules@.drop_last() == m.alert_rules@
                        && rule_ok(m2.alert_rules@.last())
                } else {
                    m2 == m
                })
            &&& cs.len() == 1 && (cs[0] matches Cmd::PersistAlertRule(r) && rule_ok(r))
        },
        _ => m2 == m && cs.len() == 0,
    }
}

fn send(to: &String, subject: &String) -> (c: Cmd)
    ensures
        is_send(c, to@, subject@),
{
    Cmd::OrchestrationSend { to: to.clone(), subject: subject.clone(), body: String::new() }
}

/// Sends `subject` to each handle of `to`.
fn sends(to: &Vec<String>, subject: &String) -> (cs: Vec<Cmd>)
    ensures
        sends_to_each(cs@, views(to@), subject@),
{
    let mut cs: Vec<Cmd> = Vec::new();
    let mut i: usize = 0;
    while i < to.len()
        invariant
            i <= to@.len(),
            cs@.len() == i,
            forall|k: int| 0 <= k < i ==> #[trigger] is_send(cs@[k], to@[k]@, subject@),
        decreases to.len() - i,
    {
        cs.push(send(&to[i], subject));
        i += 1;
    }
    cs
}

/// The handles whose tag set holds `tag`, in map order.
pub(crate) fn tagged(tags: &StrMap<StrSet>, tag: &String) -> (r: Vec<String>)
    ensures
        views(r@) == tagged_handles(tags.key_seq(), tags.value_seq(), tag@),
{
    let mut r: Vec<String> = Vec::new();
    let mut i: usize = 0;
    while i < tags.entries.len()
        invariant
            i <= tags.entries@.len(),
            views(r@) == tagged_handles(tags.key_seq().take(i as int), tags.value_seq().take(i as int), tag@),
        decreases tags.entries.len() - i,
    {
        assert(tags.key_seq().take(i + 1).drop_last() =~= tags.key_seq().take(i as int));
        assert(tags.value_seq().take(i + 1).drop_last() =~= tags.value_seq().take(i as int));
        if tags.entries[i].1.contains(tag.as_str()) {
            let ghost prev = r@;
            r.push(tags.entries[i].0.clone());
            assert(views(r@) =~= views(prev).push(tags.key_seq()[i as int]));
        }
        i += 1;
    }
    assert(tags.key_seq().take(i as int) =~= tags.key_seq());
    assert(tags.value_seq().take(i as int) =~= tags.value_seq());
    r
}

/// Carries out a parsed input line: changes the model as the line asks and
/// returns the commands to run. `me` is this terminal's own handle (empty
/// when unknown), `selected` the selected agents, `now` the time.
pub fn apply_input(model: &mut Model, cmd: InputCommand, me: &str, selected: &Vec<String>, now: i64) -> (cs: Vec<Cmd>)
    requires
        old(model).wf(),
        old(model).generation < u64::MAX,
    ensures
        final(model).wf(),
        input_effect(*old(model), input_view(cmd), me@, views(selected@), now, *final(model), cs@),
{
    let ghost iv = input_view(cmd);
    match cmd {
        InputCommand::Pty { handle, text, ascii } => {
            let c = Cmd::TerminalSend { handle, text };
            let cs = vec![c];
            assert(views(seq![handle])[0] == handle@);
            cs
        },
        InputCommand::Pair { kind, first, second } => match kind {
            PairKind::Send => {
                let v = vec![first];
                let cs = sends(&v, &second);
                assert(views(v@) =~= seq![v@[0]@]);
                cs
            },
            PairKind::Rename => vec![Cmd::RenameTerminal { handle: first, new_title: second }],
            PairKind::Broadcast => match model.group_members(first.as_str()) {
                Some(handles) => if handles.len() > 0 {
                    vec![Cmd::GroupBroadcast { name: first, message: second, handles }]
                } else {
                    Vec::new()
                },
                None => Vec::new(),
            },
            PairKind::Reply => vec![Cmd::OrchestrationReply { id: first, body: second }],
            PairKind::Tagged => {
                let hs = tagged(&model.tags, &first);
                sends(&hs, &second)
            },
            PairKind::Config => vec![Cmd::SetConfig { key: first, value: second }],
            PairKind::Theme => {
                let key = concat("theme.", first.as_str());
                model.set_config(key.clone(), second.clone());
                vec![Cmd::SetConfig { key, value: second }]
            },
            PairKind::TagAdd => {
                model.add_tag(first.as_str(), second.as_str());
                vec![Cmd::PersistTagAdd { handle: first, tag: second }]
            },
            PairKind::TagRemove => {
                model.remove_tag(first.as_str(), second.as_str());
                vec![Cmd::PersistTagRemove { handle: first, tag: second }]
            },
        },
        InputCommand::Act { action, arg } => match action {
            Action::Inject => {
                if selected.len() == 0 {
                    Vec::new()
                } else {
                    let mut cs: Vec<Cmd> = Vec::new();
                    let mut i: usize = 0;
                    while i < selected.len()
                        invariant
                            i <= selected@.len(),
                            cs@.len() == i,
                            forall|k: int| 0 <= k < i ==> #[trigger] is_terminal_send(cs@[k], selected@[k]@, arg@),
                        decreases selected.len() - i,
                    {
                        cs.push(Cmd::TerminalSend { handle: selected[i].clone(), text: arg.clone() });
                        i += 1;
                    }
                    cs
                }
            },
            Action::CreateGroup => {
                if !me.is_empty() {
                    model.join_group(arg.as_str(), me);
                }
                vec![Cmd::PersistGroupJoin { name: arg, handle: me.to_owned() }, Cmd::WriteDirectory]
            },
            Action::JoinGroup => {
                if me.is_empty() {
                    Vec::new()
                } else {
                    model.join_group(arg.as_str(), me);
                    vec![Cmd::PersistGroupJoin { name: arg, handle: me.to_owned() }, Cmd::WriteDirectory]
                }
            },
            Action::LeaveGroup => {
                if !me.is_empty() {
                    model.leave_group(arg.as_str(), me);
                }
                vec![Cmd::PersistGroupLeave { name: arg, handle: me.to_owned() }, Cmd::WriteDirectory]
            },
            Action::Export => {
                let bundle = model.export_bundle();
                vec![Cmd::ExportSettings { path: arg, bundle }]
            },
            Action::Import => vec![Cmd::ImportSettings { path: arg }],
            Action::Watch => {
                model.toggle_watch(arg.as_str());
                if model.is_watched(arg.as_str()) {
                    vec![Cmd::PersistWatchAdd { handle: arg }]
                } else {
                    vec![Cmd::PersistWatchRemove { handle: arg }]
                }
            },
            _ => vec![Cmd::Noop],
        },
        InputCommand::Store { kind, name, text } => match kind {
            Named::Snippet => {
                if model.snippet_refused(name.as_str()) {
                    return Vec::new();
                }
                model.add_snippet(name.as_str(), text.as_str());
                vec![Cmd::PersistSnippet { name, text }]
            },
            Named::Note => {
                model.add_note(name.as_str(), text.as_str());
                vec![Cmd::PersistNote { handle: name, text }]
            },
            Named::Alias => {
                model.add_alias(name.as_str(), text.as_str());
                vec![Cmd::PersistAlias { name, expansion: text }]
            },
            Named::Hotkey => {
                model.add_hotkey(name.as_str(), text.as_str());
                vec![Cmd::PersistHotkey { key: name, command: text }]
            },
            _ => Vec::new(),
        },
        InputCommand::Remove { kind, name } => match kind {
            Named::Snippet => {
                model.remove_snippet(name.as_str());
                vec![Cmd::RemoveSnippet { name }]
            },
            Named::Note => {
                model.remove_note(name.as_str());
                vec![Cmd::RemoveNote { handle: name }]
            },
            Named::Alias => {
                model.remove_alias(name.as_str());
                vec![Cmd::RemoveAlias { name }]
            },
            Named::Hotkey => {
                model.remove_hotkey(name.as_str());
                vec![Cmd::RemoveHotkey { key: name }]
            },
            Named::Macro => {
                model.remove_macro(name.as_str());
                vec![Cmd::RemoveMacro { name }]
            },
            Named::View => {
                if model.remove_saved_view(name.as_str()) {
                    vec![Cmd::RemoveView { name }]
                } else {
                    Vec::new()
                }
            },
        },
        InputCommand::Create { worktree, command } => vec![Cmd::CreateTerminal { worktree, command, title: None }],
        InputCommand::Batch { handles, message } => sends(&handles, &message),
        InputCommand::RemoveRule { id } => {
            model.remove_alert_rule(id);
            vec![Cmd::RemoveAlertRule { id }]
        },
        InputCommand::AddRule { rule_type, value } => {
            let kept = AlertRule { id: 0, rule_type, value: value.clone(), created_at_ms: now };
            let sent = AlertRule { id: 0, rule_type, value, created_at_ms: now };
            let ghost before = model.alert_rules@;
            model.add_alert_rule(kept);
            proof {
                if before.len() < crate::model::ALERT_RULES_CAP {
                    assert(model.alert_rules@.drop_last() =~= before);
                }
            }
            vec![Cmd::PersistAlertRule(sent)]
        },
        _ => Vec::new(),
    }
}

} // verus!
