//! The grammar of the input line: what a submitted line asks for. Each form
//! is a prefix followed by arguments (`to:handle subject`, `tag:rm:handle
//! tag`, `config:key=value`, ...). Parsing decides the request and checks
//! its arguments; carrying it out is the caller's.
use vstd::prelude::*;
use crate::text::{is_ws, lead_ws, strip, split_once, char_pos, lemma_char_pos, starts_with, trim_seq, trim_start_seq, split_sep, parse_signed, parse_unsigned,
    chars_of, string_of, strip_vec, split_once_vec, trim_vec, trim_start_vec, split_on, parse_i64, parse_u64,
    vec_is, views};
use crate::model::{AlertRuleType, rule_type_of};

verus! {

broadcast use vstd::string::group_string_axioms;

/// A form used wrongly: the caller shows its usage hint.
#[derive(Debug, Clone, Copy, PartialEq, Eq, Structural)]
pub enum Usage {
    Chain,
    Tag,
    Snippet,
    RuleAdd,
    Rule,
    Macro,
    View,
    Note,
    Export,
    Import,
    Alias,
    Hotkey,
    Theme,
    Watch,
    /// `config:` without `=`.
    ConfigFormat,
    /// `config:=value`.
    ConfigEmptyKey,
    /// `config:refresh_interval_ms=` with a value that is not a number.
    ConfigNotNumber,
}

/// Named user data that a line stores or removes.
#[derive(Debug, Clone, Copy, PartialEq, Eq, Structural)]
pub enum Named {
    Snippet,
    Note,
    Alias,
    Hotkey,
    Macro,
    View,
}

/// Requests with one argument.
#[derive(Debug, Clone, Copy, PartialEq, Eq, Structural)]
pub enum Action {
    /// Send text to every selected agent's terminal.
    Inject,
    CreateGroup,
    JoinGroup,
    LeaveGroup,
    RunSnippet,
    RecordMacro,
    RunMacro,
    SaveView,
    LoadView,
    Export,
    Import,
    Watch,
}

/// Requests with two arguments.
#[derive(Debug, Clone, Copy, PartialEq, Eq, Structural)]
pub enum PairKind {
    /// Orchestration message: recipient, subject.
    Send,
    /// Terminal rename: handle, new title.
    Rename,
    /// Group broadcast: group, message.
    Broadcast,
    /// Reply: message id, body.
    Reply,
    /// Message to every agent with a tag: tag, message.
    Tagged,
    /// Configuration: key, value.
    Config,
    /// Theme colour: key, colour.
    Theme,
    TagAdd,
    TagRemove,
}

/// Requests without arguments.
#[derive(Debug, Clone, Copy, PartialEq, Eq, Structural)]
pub enum Bare {
    StopMacro,
    ListMacros,
    ListViews,
}

/// An argument that was refused.
#[derive(Debug, Clone, Copy, PartialEq, Eq, Structural)]
pub enum Invalid {
    /// Unknown configuration key.
    ConfigKey,
    /// Unknown theme key.
    ThemeKey,
    /// Not a colour.
    ThemeColor,
    /// A hotkey that is not one single-byte character.
    HotkeyKey,
}

/// What an input line asks for.
#[derive(Debug, Clone)]
pub enum InputCommand {
    /// Nothing to do.
    Nothing,
    Usage(Usage),
    /// Lines to run in turn (trimmed, blanks dropped); `count` pieces in all.
    Chain { segments: Vec<String>, count: usize },
    /// Text typed into a terminal; `ascii` when it has only ASCII characters.
    Pty { handle: String, text: String, ascii: bool },
    Pair { kind: PairKind, first: String, second: String },
    Act { action: Action, arg: String },
    Store { kind: Named, name: String, text: String },
    Remove { kind: Named, name: String },
    /// A new terminal, in a named worktree or the current one.
    Create { worktree: Option<String>, command: String },
    /// The same message to each handle.
    Batch { handles: Vec<String>, message: String },
    RemoveRule { id: i64 },
    AddRule { rule_type: AlertRuleType, value: String },
    Bare(Bare),
    Invalid { kind: Invalid, text: String },
}

/// An input command with texts in place of strings.
pub enum InputView {
    Nothing,
    Usage(Usage),
    Chain { segments: Seq<Seq<char>>, count: usize },
    Pty { handle: Seq<char>, text: Seq<char>, ascii: bool },
    Pair { kind: PairKind, first: Seq<char>, second: Seq<char> },
    Act { action: Action, arg: Seq<char> },
    Store { kind: Named, name: Seq<char>, text: Seq<char> },
    Remove { kind: Named, name: Seq<char> },
    Create { worktree: Option<Seq<char>>, command: Seq<char> },
    Batch { handles: Seq<Seq<char>>, message: Seq<char> },
    RemoveRule { id: i64 },
    AddRule { rule_type: AlertRuleType, value: Seq<char> },
    Bare(Bare),
    Invalid { kind: Invalid, text: Seq<char> },
}

pub open spec fn input_view(c: InputCommand) -> InputView {
    match c {
        InputCommand::Nothing => InputView::Nothing,
        InputCommand::Usage(u) => InputView::Usage(u),
        InputCommand::Chain { segments, count } => InputView::Chain { segments: views(segments@), count },
        InputCommand::Pty { handle, text, ascii } => InputView::Pty { handle: handle@, text: text@, ascii },
        InputCommand::Pair { kind, first, second } => InputView::Pair { kind, first: first@, second: second@ },
        InputCommand::Act { action, arg } => InputView::Act { action, arg: arg@ },
        InputCommand::Store { kind, name, text } => InputView::Store { kind, name: name@, text: text@ },
        InputCommand::Remove { kind, name } => InputView::Remove { kind, name: name@ },
        InputCommand::Create { worktree, command } => InputView::Create {
            worktree: match worktree { Some(w) => Some(w@), None => None },
            command: command@,
        },
        InputCommand::Batch { handles, message } => InputView::Batch { handles: views(handles@), message: message@ },
        InputCommand::RemoveRule { id } => InputView::RemoveRule { id },
        InputCommand::AddRule { rule_type, value } => InputView::AddRule { rule_type, value: value@ },
        InputCommand::Bare(b) => InputView::Bare(b),
        InputCommand::Invalid { kind, text } => InputView::Invalid { kind, text: text@ },
    }
}

// ──── the grammar ────

/// Every character is ASCII.
pub open spec fn all_ascii(s: Seq<char>) -> bool {
    forall|i: int| 0 <= i < s.len() ==> #[trigger] s[i] < '\u{80}'
}

/// One character that is one byte long.
pub open spec fn single_byte(s: Seq<char>) -> bool {
    s.len() == 1 && s[0] < '\u{80}'
}

/// The trimmed pieces that are not blank, in order.
pub open spec fn trimmed_nonblank(pieces: Seq<Seq<char>>) -> Seq<Seq<char>>
    decreases pieces.len(),
{
    if pieces.len() == 0 {
        Seq::empty()
    } else {
        let prev = trimmed_nonblank(pieces.drop_last());
        let t = trim_seq(pieces.last());
        if t.len() > 0 { prev.push(t) } else { prev }
    }
}

/// The keys of the theme that a line may set.
pub open spec fn theme_keys() -> Seq<Seq<char>> {
    seq!["fg"@, "bg"@, "accent"@, "muted"@, "working"@, "idle"@, "error"@, "warn"@,
        "border"@, "border_focus"@, "selection_bg"@, "selection_fg"@, "success"@, "tab_active"@, "tab_inactive"@]
}

/// Whether the colour library reads `s` as a colour (a name, an index or `#RRGGBB`).
pub uninterp spec fn color_parses(s: Seq<char>) -> bool;

/// Whether `ratatui`'s colour parser (`Color::from_str`) accepts `s`. What
/// it accepts (colour names after folding case and separators, a `u8`
/// index, `#RRGGBB`) depends on `s` alone; the contract names that answer
/// `color_parses` and says nothing more of it.
#[verifier::external_body]
fn color_ok(s: &str) -> (r: bool)
    ensures
        r == color_parses(s@),
{
    s.parse::<ratatui::style::Color>().is_ok()
}

/// `rest` after `prefix` when `b` starts with it, split at its first `c`.
pub open spec fn after_split(b: Seq<char>, prefix: Seq<char>, c: char) -> Option<(Seq<char>, Seq<char>)> {
    match strip(b, prefix) {
        Some(rest) => split_once(rest, c),
        None => None,
    }
}

pub open spec fn act_nonblank(rest: Seq<char>, a: Action) -> InputView {
    let t = trim_seq(rest);
    if t.len() > 0 { InputView::Act { action: a, arg: t } } else { InputView::Nothing }
}

/// `rm:name` removes; `name text` stores; anything else is a usage error.
pub open spec fn named_form(rest: Seq<char>, kind: Named, usage: Usage) -> InputView {
    match strip(rest, "rm:"@) {
        Some(n) => if trim_seq(n).len() > 0 { InputView::Remove { kind, name: trim_seq(n) } } else { InputView::Nothing },
        None => match split_once(rest, ' ') {
            Some((n, t)) => if trim_seq(n).len() > 0 && trim_seq(t).len() > 0 {
                InputView::Store { kind, name: trim_seq(n), text: trim_seq(t) }
            } else {
                InputView::Usage(usage)
            },
            None => InputView::Usage(usage),
        },
    }
}

pub open spec fn chain_form(rest: Seq<char>) -> InputView {
    let pieces = split_sep(rest, " | "@);
    if pieces.len() < 2 {
        InputView::Usage(Usage::Chain)
    } else {
        InputView::Chain { segments: trimmed_nonblank(pieces), count: pieces.len() as usize }
    }
}

pub open spec fn config_form(rest: Seq<char>) -> InputView {
    match split_once(rest, '=') {
        Some((k, v)) => {
            let key = trim_seq(k);
            let value = trim_seq(v);
            if key.len() == 0 {
                InputView::Usage(Usage::ConfigEmptyKey)
            } else if key == "refresh_interval_ms"@ {
                if parse_unsigned(value, u64::MAX as int) is None {
                    InputView::Usage(Usage::ConfigNotNumber)
                } else {
                    InputView::Pair { kind: PairKind::Config, first: key, second: value }
                }
            } else if key == "theme"@ || key == "default_filter"@ || key == "sort"@ {
                InputView::Pair { kind: PairKind::Config, first: key, second: value }
            } else {
                InputView::Invalid { kind: Invalid::ConfigKey, text: key }
            }
        },
        None => InputView::Usage(Usage::ConfigFormat),
    }
}

pub open spec fn tag_form(rest: Seq<char>) -> InputView {
    let (add, r) = match strip(rest, "add:"@) {
        Some(r) => (true, r),
        None => match strip(rest, "rm:"@) {
            Some(r) => (false, r),
            None => (true, rest),
        },
    };
    match split_once(r, ' ') {
        Some((h, t)) => if trim_seq(t).len() > 0 {
            InputView::Pair { kind: if add { PairKind::TagAdd } else { PairKind::TagRemove }, first: h, second: trim_seq(t) }
        } else {
            InputView::Usage(Usage::Tag)
        },
        None => InputView::Usage(Usage::Tag),
    }
}

pub open spec fn rule_form(rest: Seq<char>) -> InputView {
    match strip(rest, "rm:"@) {
        Some(id) => match parse_signed(trim_seq(id)) {
            Some(v) => InputView::RemoveRule { id: v as i64 },
            None => InputView::Nothing,
        },
        None => match strip(rest, "add "@) {
            Some(sp0) => {
                let sp = trim_seq(sp0);
                if sp == "message"@ {
                    InputView::AddRule { rule_type: AlertRuleType::Message, value: Seq::empty() }
                } else {
                    match split_once(sp, ':') {
                        Some((rt, val)) => match rule_type_of(rt) {
                            Some(t) => InputView::AddRule { rule_type: t, value: val },
                            None => InputView::Usage(Usage::RuleAdd),
                        },
                        None => InputView::Usage(Usage::RuleAdd),
                    }
                }
            },
            None => InputView::Usage(Usage::Rule),
        },
    }
}

pub open spec fn macro_form(rest: Seq<char>) -> InputView {
    if strip(rest, "record:"@) is Some {
        act_nonblank(strip(rest, "record:"@).unwrap(), Action::RecordMacro)
    } else if rest == "stop"@ {
        InputView::Bare(Bare::StopMacro)
    } else if strip(rest, "run:"@) is Some {
        InputView::Act { action: Action::RunMacro, arg: trim_seq(strip(rest, "run:"@).unwrap()) }
    } else if strip(rest, "rm:"@) is Some {
        let n = trim_seq(strip(rest, "rm:"@).unwrap());
        if n.len() > 0 { InputView::Remove { kind: Named::Macro, name: n } } else { InputView::Nothing }
    } else if rest == "list"@ {
        InputView::Bare(Bare::ListMacros)
    } else {
        InputView::Usage(Usage::Macro)
    }
}

pub open spec fn view_form(rest: Seq<char>) -> InputView {
    if strip(rest, "save:"@) is Some {
        act_nonblank(strip(rest, "save:"@).unwrap(), Action::SaveView)
    } else if strip(rest, "load:"@) is Some {
        InputView::Act { action: Action::LoadView, arg: trim_seq(strip(rest, "load:"@).unwrap()) }
    } else if strip(rest, "rm:"@) is Some {
        let n = trim_seq(strip(rest, "rm:"@).unwrap());
        if n.len() > 0 { InputView::Remove { kind: Named::View, name: n } } else { InputView::Nothing }
    } else if trim_seq(rest) == "list"@ {
        InputView::Bare(Bare::ListViews)
    } else {
        InputView::Usage(Usage::View)
    }
}

pub open spec fn hotkey_form(rest: Seq<char>) -> InputView {
    match strip(rest, "rm:"@) {
        Some(n) => if trim_seq(n).len() > 0 { InputView::Remove { kind: Named::Hotkey, name: trim_seq(n) } } else { InputView::Nothing },
        None => match split_once(rest, ' ') {
            Some((k, c)) => {
                let key = trim_seq(k);
                let cmd = trim_seq(c);
                if single_byte(key) && cmd.len() > 0 {
                    InputView::Store { kind: Named::Hotkey, name: key, text: cmd }
                } else if !single_byte(key) {
                    InputView::Invalid { kind: Invalid::HotkeyKey, text: key }
                } else {
                    InputView::Usage(Usage::Hotkey)
                }
            },
            None => InputView::Usage(Usage::Hotkey),
        },
    }
}

pub open spec fn theme_form(rest: Seq<char>) -> InputView {
    match split_once(rest, ' ') {
        Some((k, v)) => {
            let key = trim_seq(k);
            let value = trim_seq(v);
            if theme_keys().contains(key) {
                if value == "reset"@ || color_parses(value) {
                    InputView::Pair { kind: PairKind::Theme, first: key, second: value }
                } else {
                    InputView::Invalid { kind: Invalid::ThemeColor, text: value }
                }
            } else {
                InputView::Invalid { kind: Invalid::ThemeKey, text: key }
            }
        },
        None => InputView::Usage(Usage::Theme),
    }
}

/// What the line `b` asks for; the forms are tried in this order and a form
/// whose prefix matches but whose arguments do not split falls through to
/// the next.
pub open spec fn input_spec(b: Seq<char>) -> InputView {
    if strip(b, "chain:"@) is Some {
        chain_form(strip(b, "chain:"@).unwrap())
    } else if after_split(b, "to:"@, ' ') is Some {
        let (to, subject) = after_split(b, "to:"@, ' ').unwrap();
        InputView::Pair { kind: PairKind::Send, first: to, second: subject }
    } else if after_split(b, "pty:"@, ' ') is Some {
        let (h, t) = after_split(b, "pty:"@, ' ').unwrap();
        InputView::Pty { handle: h, text: t, ascii: all_ascii(t) }
    } else if strip(b, "inject:"@) is Some {
        act_nonblank(strip(b, "inject:"@).unwrap(), Action::Inject)
    } else if after_split(b, "rename:"@, ' ') is Some {
        let (h, t) = after_split(b, "rename:"@, ' ').unwrap();
        if t.len() == 0 { InputView::Nothing } else { InputView::Pair { kind: PairKind::Rename, first: h, second: t } }
    } else if strip(b, "group:"@) is Some {
        act_nonblank(strip(b, "group:"@).unwrap(), Action::CreateGroup)
    } else if strip(b, "join:"@) is Some {
        act_nonblank(strip(b, "join:"@).unwrap(), Action::JoinGroup)
    } else if strip(b, "leave:"@) is Some {
        act_nonblank(strip(b, "leave:"@).unwrap(), Action::LeaveGroup)
    } else if strip(b, "broadcast:"@) is Some {
        match split_once(trim_start_seq(strip(b, "broadcast:"@).unwrap()), ' ') {
            Some((g, m)) => if g.len() > 0 && m.len() > 0 {
                InputView::Pair { kind: PairKind::Broadcast, first: g, second: m }
            } else {
                InputView::Nothing
            },
            None => InputView::Nothing,
        }
    } else if strip(b, "create:"@) is Some {
        let rest = strip(b, "create:"@).unwrap();
        if rest.len() == 0 {
            InputView::Nothing
        } else {
            match split_once(rest, ':') {
                Some((wt, cmd)) => if cmd.len() > 0 {
                    InputView::Create { worktree: Some(wt), command: cmd }
                } else {
                    InputView::Create { worktree: None, command: rest }
                },
                None => InputView::Create { worktree: None, command: rest },
            }
        }
    } else if strip(b, "config:"@) is Some {
        config_form(strip(b, "config:"@).unwrap())
    } else if after_split(b, "reply:"@, ' ') is Some {
        let (id, body) = after_split(b, "reply:"@, ' ').unwrap();
        if body.len() == 0 { InputView::Nothing } else { InputView::Pair { kind: PairKind::Reply, first: id, second: body } }
    } else if strip(b, "tag:"@) is Some {
        tag_form(strip(b, "tag:"@).unwrap())
    } else if after_split(b, "batch:"@, ' ') is Some {
        let (hs, m) = after_split(b, "batch:"@, ' ').unwrap();
        if m.len() == 0 {
            InputView::Nothing
        } else {
            let pieces = split_sep(hs, seq![',']);
            InputView::Batch { handles: Seq::new(pieces.len(), |i: int| trim_seq(pieces[i])), message: m }
        }
    } else if after_split(b, "tagged:"@, ' ') is Some {
        let (t, m) = after_split(b, "tagged:"@, ' ').unwrap();
        if trim_seq(t).len() == 0 || m.len() == 0 {
            InputView::Nothing
        } else {
            InputView::Pair { kind: PairKind::Tagged, first: trim_seq(t), second: m }
        }
    } else if strip(b, "snip:"@) is Some {
        named_form(strip(b, "snip:"@).unwrap(), Named::Snippet, Usage::Snippet)
    } else if strip(b, "run:"@) is Some {
        InputView::Act { action: Action::RunSnippet, arg: trim_seq(strip(b, "run:"@).unwrap()) }
    } else if strip(b, "rule:"@) is Some {
        rule_form(strip(b, "rule:"@).unwrap())
    } else if strip(b, "macro:"@) is Some {
        macro_form(strip(b, "macro:"@).unwrap())
    } else if strip(b, "view:"@) is Some {
        view_form(strip(b, "view:"@).unwrap())
    } else if strip(b, "note:"@) is Some {
        named_form(strip(b, "note:"@).unwrap(), Named::Note, Usage::Note)
    } else if strip(b, "export:"@) is Some {
        let p = trim_seq(strip(b, "export:"@).unwrap());
        if p.len() == 0 { InputView::Usage(Usage::Export) } else { InputView::Act { action: Action::Export, arg: p } }
    } else if strip(b, "import:"@) is Some {
        let p = trim_seq(strip(b, "import:"@).unwrap());
        if p.len() == 0 { InputView::Usage(Usage::Import) } else { InputView::Act { action: Action::Import, arg: p } }
    } else if strip(b, "alias:"@) is Some {
        named_form(strip(b, "alias:"@).unwrap(), Named::Alias, Usage::Alias)
    } else if strip(b, "hotkey:"@) is Some {
        hotkey_form(strip(b, "hotkey:"@).unwrap())
    } else if strip(b, "theme:"@) is Some {
        theme_form(strip(b, "theme:"@).unwrap())
    } else if strip(b, "watch:"@) is Some {
        let h = trim_seq(strip(b, "watch:"@).unwrap());
        if h.len() > 0 { InputView::Act { action: Action::Watch, arg: h } } else { InputView::Usage(Usage::Watch) }
    } else {
        InputView::Nothing
    }
}

// ──── parsing ────

fn text(v: &Vec<char>) -> (r: String)
    ensures
        r@ == v@,
{
    string_of(v)
}

fn act_nonblank_of(rest: &Vec<char>, a: Action) -> (r: InputCommand)
    ensures
        input_view(r) == act_nonblank(rest@, a),
{
    let t = trim_vec(rest);
    if t.len() > 0 { InputCommand::Act { action: a, arg: text(&t) } } else { InputCommand::Nothing }
}

fn named_form_of(rest: &Vec<char>, kind: Named, usage: Usage) -> (r: InputCommand)
    ensures
        input_view(r) == named_form(rest@, kind, usage),
{
    match strip_vec(rest, "rm:") {
        Some(n) => {
            let t = trim_vec(&n);
            if t.len() > 0 { InputCommand::Remove { kind, name: text(&t) } } else { InputCommand::Nothing }
        },
        None => match split_once_vec(rest, ' ') {
            Some((n, t)) => {
                let name = trim_vec(&n);
                let body = trim_vec(&t);
                if name.len() > 0 && body.len() > 0 {
                    InputCommand::Store { kind, name: text(&name), text: text(&body) }
                } else {
                    InputCommand::Usage(usage)
                }
            },
            None => InputCommand::Usage(usage),
        },
    }
}

fn chain_form_of(rest: &Vec<char>) -> (r: InputCommand)
    ensures
        input_view(r) == chain_form(rest@),
{
    let sep = chars_of(" | ");
    proof { reveal_strlit(" | "); }
    let pieces = split_on(rest, &sep);
    let ghost pv = split_sep(rest@, " | "@);
    if pieces.len() < 2 {
        return InputCommand::Usage(Usage::Chain);
    }
    let mut segments: Vec<String> = Vec::new();
    let mut i: usize = 0;
    while i < pieces.len()
        invariant
            i <= pieces@.len(),
            pieces@.len() == pv.len(),
            forall|k: int| 0 <= k < pieces@.len() ==> #[trigger] pieces@[k]@ == pv[k],
            views(segments@) == trimmed_nonblank(pv.take(i as int)),
        decreases pieces.len() - i,
    {
        assert(pv.take(i + 1).drop_last() =~= pv.take(i as int));
        assert(pv.take(i + 1).last() == pieces@[i as int]@);
        let t = trim_vec(&pieces[i]);
        if t.len() > 0 {
            let ghost prev = segments@;
            segments.push(text(&t));
            assert(views(segments@) =~= views(prev).push(t@));
        }
        i += 1;
    }
    assert(pv.take(pieces.len() as int) =~= pv);
    InputCommand::Chain { segments, count: pieces.len() }
}

fn config_form_of(rest: &Vec<char>) -> (r: InputCommand)
    ensures
        input_view(r) == config_form(rest@),
{
    match split_once_vec(rest, '=') {
        Some((k, v)) => {
            let key = trim_vec(&k);
            let value = trim_vec(&v);
            if key.len() == 0 {
                InputCommand::Usage(Usage::ConfigEmptyKey)
            } else if vec_is(&key, "refresh_interval_ms") {
                if parse_u64(text(&value).as_str()).is_none() {
                    InputCommand::Usage(Usage::ConfigNotNumber)
                } else {
                    InputCommand::Pair { kind: PairKind::Config, first: text(&key), second: text(&value) }
                }
            } else if vec_is(&key, "theme") || vec_is(&key, "default_filter") || vec_is(&key, "sort") {
                InputCommand::Pair { kind: PairKind::Config, first: text(&key), second: text(&value) }
            } else {
                InputCommand::Invalid { kind: Invalid::ConfigKey, text: text(&key) }
            }
        },
        None => InputCommand::Usage(Usage::ConfigFormat),
    }
}

fn tag_form_of(rest: &Vec<char>) -> (r: InputCommand)
    ensures
        input_view(r) == tag_form(rest@),
{
    let (add, r) = match strip_vec(rest, "add:") {
        Some(r) => (true, r),
        None => match strip_vec(rest, "rm:") {
            Some(r) => (false, r),
            None => (true, rest.clone()),
        },
    };
    match split_once_vec(&r, ' ') {
        Some((h, t)) => {
            let tag = trim_vec(&t);
            if tag.len() > 0 {
                InputCommand::Pair {
                    kind: if add { PairKind::TagAdd } else { PairKind::TagRemove },
                    first: text(&h),
                    second: text(&tag),
                }
            } else {
                InputCommand::Usage(Usage::Tag)
            }
        },
        None => InputCommand::Usage(Usage::Tag),
    }
}

fn rule_form_of(rest: &Vec<char>) -> (r: InputCommand)
    ensures
        input_view(r) == rule_form(rest@),
{
    match strip_vec(rest, "rm:") {
        Some(id) => match parse_i64(&trim_vec(&id)) {
            Some(v) => InputCommand::RemoveRule { id: v },
            None => InputCommand::Nothing,
        },
        None => match strip_vec(rest, "add ") {
            Some(sp0) => {
                let sp = trim_vec(&sp0);
                if vec_is(&sp, "message") {
                    InputCommand::AddRule { rule_type: AlertRuleType::Message, value: String::new() }
                } else {
                    match split_once_vec(&sp, ':') {
                        Some((rt, val)) => match AlertRuleType::from_str(text(&rt).as_str()) {
                            Some(t) => InputCommand::AddRule { rule_type: t, value: text(&val) },
                            None => InputCommand::Usage(Usage::RuleAdd),
                        },
                        None => InputCommand::Usage(Usage::RuleAdd),
                    }
                }
            },
            None => InputCommand::Usage(Usage::Rule),
        },
    }
}

fn macro_form_of(rest: &Vec<char>) -> (r: InputCommand)
    ensures
        input_view(r) == macro_form(rest@),
{
    if let Some(n) = strip_vec(rest, "record:") {
        act_nonblank_of(&n, Action::RecordMacro)
    } else if vec_is(rest, "stop") {
        InputCommand::Bare(Bare::StopMacro)
    } else if let Some(n) = strip_vec(rest, "run:") {
        InputCommand::Act { action: Action::RunMacro, arg: text(&trim_vec(&n)) }
    } else if let Some(n) = strip_vec(rest, "rm:") {
        let t = trim_vec(&n);
        if t.len() > 0 { InputCommand::Remove { kind: Named::Macro, name: text(&t) } } else { InputCommand::Nothing }
    } else if vec_is(rest, "list") {
        InputCommand::Bare(Bare::ListMacros)
    } else {
        InputCommand::Usage(Usage::Macro)
    }
}

fn view_form_of(rest: &Vec<char>) -> (r: InputCommand)
    ensures
        input_view(r) == view_form(rest@),
{
    if let Some(n) = strip_vec(rest, "save:") {
        act_nonblank_of(&n, Action::SaveView)
    } else if let Some(n) = strip_vec(rest, "load:") {
        InputCommand::Act { action: Action::LoadView, arg: text(&trim_vec(&n)) }
    } else if let Some(n) = strip_vec(rest, "rm:") {
        let t = trim_vec(&n);
        if t.len() > 0 { InputCommand::Remove { kind: Named::View, name: text(&t) } } else { InputCommand::Nothing }
    } else if vec_is(&trim_vec(rest), "list") {
        InputCommand::Bare(Bare::ListViews)
    } else {
        InputCommand::Usage(Usage::View)
    }
}

fn hotkey_form_of(rest: &Vec<char>) -> (r: InputCommand)
    ensures
        input_view(r) == hotkey_form(rest@),
{
    match strip_vec(rest, "rm:") {
        Some(n) => {
            let t = trim_vec(&n);
            if t.len() > 0 { InputCommand::Remove { kind: Named::Hotkey, name: text(&t) } } else { InputCommand::Nothing }
        },
        None => match split_once_vec(rest, ' ') {
            Some((k, c)) => {
                let key = trim_vec(&k);
                let cmd = trim_vec(&c);
                let single = key.len() == 1 && key[0] < '\u{80}';
                if single && cmd.len() > 0 {
                    InputCommand::Store { kind: Named::Hotkey, name: text(&key), text: text(&cmd) }
                } else if !single {
                    InputCommand::Invalid { kind: Invalid::HotkeyKey, text: text(&key) }
                } else {
                    InputCommand::Usage(Usage::Hotkey)
                }
            },
            None => InputCommand::Usage(Usage::Hotkey),
        },
    }
}

fn is_theme_key(key: &Vec<char>) -> (r: bool)
    ensures
        r == theme_keys().contains(key@),
{
    let keys = vec!["fg", "bg", "accent", "muted", "working", "idle", "error", "warn",
        "border", "border_focus", "selection_bg", "selection_fg", "success", "tab_active", "tab_inactive"];
    let ghost kv = Seq::new(keys@.len(), |i: int| keys@[i]@);
    assert(kv =~= theme_keys());
    let mut i: usize = 0;
    while i < keys.len()
        invariant
            i <= keys@.len(),
            kv == Seq::new(keys@.len(), |j: int| keys@[j]@),
            kv == theme_keys(),
            forall|j: int| 0 <= j < i ==> kv[j] != key@,
        decreases keys.len() - i,
    {
        if vec_is(key, keys[i]) {
            assert(kv[i as int] == key@);
            return true;
        }
        i += 1;
    }
    false
}

fn theme_form_of(rest: &Vec<char>) -> (r: InputCommand)
    ensures
        input_view(r) == theme_form(rest@),
{
    match split_once_vec(rest, ' ') {
        Some((k, v)) => {
            let key = trim_vec(&k);
            let value = trim_vec(&v);
            if is_theme_key(&key) {
                if vec_is(&value, "reset") || color_ok(text(&value).as_str()) {
                    InputCommand::Pair { kind: PairKind::Theme, first: text(&key), second: text(&value) }
                } else {
                    InputCommand::Invalid { kind: Invalid::ThemeColor, text: text(&value) }
                }
            } else {
                InputCommand::Invalid { kind: Invalid::ThemeKey, text: text(&key) }
            }
        },
        None => InputCommand::Usage(Usage::Theme),
    }
}

fn is_ascii_chars(v: &Vec<char>) -> (r: bool)
    ensures
        r == all_ascii(v@),
{
    let mut i: usize = 0;
    while i < v.len()
        invariant
            i <= v.len(),
            forall|j: int| 0 <= j < i ==> #[trigger] v@[j] < '\u{80}',
        decreases v.len() - i,
    {
        if v[i] >= '\u{80}' {
            assert(!(v@[i as int] < '\u{80}'));
            return false;
        }
        i += 1;
    }
    true
}

/// `rest` after `prefix` in `b`, split at its first `c`.
fn after_split_of(b: &Vec<char>, prefix: &str, c: char) -> (r: Option<(Vec<char>, Vec<char>)>)
    ensures
        match r {
            Some((x, y)) => after_split(b@, prefix@, c) == Some((x@, y@)),
            None => after_split(b@, prefix@, c) is None,
        },
{
    match strip_vec(b, prefix) {
        Some(rest) => split_once_vec(&rest, c),
        None => None,
    }
}

/// What a submitted input line asks for (after alias expansion).
proof fn lemma_split_at_first(h: Seq<char>, c: char, t: Seq<char>)
    requires
        !h.contains(c),
    ensures
        split_once(h + seq![c] + t, c) == Some((h, t)),
{
    let rest = h + seq![c] + t;
    lemma_char_pos(rest, c);
    let i = char_pos(rest, c);
    assert(rest[h.len() as int] == c);
    if i < h.len() {
        assert(rest[i] == h[i]);
        assert(h.contains(h[i]));
    }
    assert(i == h.len());
    assert(rest.take(i) =~= h);
    assert(rest.skip(i + 1) =~= t);
}

proof fn lemma_not_prefixed(b: Seq<char>, p: Seq<char>)
    requires
        b.len() > 0,
        p.len() > 0,
        b[0] != p[0],
    ensures
        strip(b, p) is None,
{
    if starts_with(b, p) {
        assert(b.subrange(0, p.len() as int)[0] == b[0]);
    }
}

proof fn lemma_prefix_mismatch(p: Seq<char>, rest: Seq<char>, q: Seq<char>, i: int)
    requires
        0 <= i < p.len(),
        i < q.len(),
        p[i] != q[i],
    ensures
        strip(p + rest, q) is None,
{
    if starts_with(p + rest, q) {
        assert((p + rest).subrange(0, q.len() as int)[i] == (p + rest)[i]);
    }
}

proof fn lemma_prefix_strip(p: Seq<char>, rest: Seq<char>)
    ensures
        strip(p + rest, p) == Some(rest),
{
    assert((p + rest).subrange(0, p.len() as int) =~= p);
    assert((p + rest).skip(p.len() as int) =~= rest);
}

/// `reply:<id> <body>` answers message `id` with `body`: the id is what
/// comes before the first space, the body all that follows (an empty body
/// asks for nothing).
pub proof fn law_reply_parses(id: Seq<char>, body: Seq<char>)
    requires
        !id.contains(' '),
    ensures
        input_spec("reply:"@ + (id + seq![' '] + body)) == (if body.len() > 0 {
            InputView::Pair { kind: PairKind::Reply, first: id, second: body }
        } else {
            InputView::Nothing
        }),
{
    reveal_strlit("reply:");
    reveal_strlit("chain:");
    reveal_strlit("to:");
    reveal_strlit("pty:");
    reveal_strlit("inject:");
    reveal_strlit("rename:");
    reveal_strlit("group:");
    reveal_strlit("join:");
    reveal_strlit("leave:");
    reveal_strlit("broadcast:");
    reveal_strlit("create:");
    reveal_strlit("config:");
    let rest = id + seq![' '] + body;
    lemma_prefix_strip("reply:"@, rest);
    lemma_prefix_mismatch("reply:"@, rest, "chain:"@, 0);
    lemma_prefix_mismatch("reply:"@, rest, "to:"@, 0);
    lemma_prefix_mismatch("reply:"@, rest, "pty:"@, 0);
    lemma_prefix_mismatch("reply:"@, rest, "inject:"@, 0);
    lemma_prefix_mismatch("reply:"@, rest, "rename:"@, 2);
    lemma_prefix_mismatch("reply:"@, rest, "group:"@, 0);
    lemma_prefix_mismatch("reply:"@, rest, "join:"@, 0);
    lemma_prefix_mismatch("reply:"@, rest, "leave:"@, 0);
    lemma_prefix_mismatch("reply:"@, rest, "broadcast:"@, 0);
    lemma_prefix_mismatch("reply:"@, rest, "create:"@, 0);
    lemma_prefix_mismatch("reply:"@, rest, "config:"@, 0);
    lemma_split_at_first(id, ' ', body);
}

/// `tag:add:<handle> <tag>` adds the trimmed `tag` to `handle` (a blank
/// tag is a usage error).
pub proof fn law_tag_add_parses(h: Seq<char>, t: Seq<char>)
    requires
        !h.contains(' '),
    ensures
        input_spec("tag:"@ + ("add:"@ + (h + seq![' '] + t))) == (if trim_seq(t).len() > 0 {
            InputView::Pair { kind: PairKind::TagAdd, first: h, second: trim_seq(t) }
        } else {
            InputView::Usage(Usage::Tag)
        }),
{
    reveal_strlit("tag:");
    reveal_strlit("chain:");
    reveal_strlit("to:");
    reveal_strlit("pty:");
    reveal_strlit("inject:");
    reveal_strlit("rename:");
    reveal_strlit("group:");
    reveal_strlit("join:");
    reveal_strlit("leave:");
    reveal_strlit("broadcast:");
    reveal_strlit("create:");
    reveal_strlit("config:");
    reveal_strlit("reply:");
    let rest = "add:"@ + (h + seq![' '] + t);
    lemma_prefix_strip("tag:"@, rest);
    lemma_prefix_mismatch("tag:"@, rest, "chain:"@, 0);
    lemma_prefix_mismatch("tag:"@, rest, "to:"@, 1);
    lemma_prefix_mismatch("tag:"@, rest, "pty:"@, 0);
    lemma_prefix_mismatch("tag:"@, rest, "inject:"@, 0);
    lemma_prefix_mismatch("tag:"@, rest, "rename:"@, 0);
    lemma_prefix_mismatch("tag:"@, rest, "group:"@, 0);
    lemma_prefix_mismatch("tag:"@, rest, "join:"@, 0);
    lemma_prefix_mismatch("tag:"@, rest, "leave:"@, 0);
    lemma_prefix_mismatch("tag:"@, rest, "broadcast:"@, 0);
    lemma_prefix_mismatch("tag:"@, rest, "create:"@, 0);
    lemma_prefix_mismatch("tag:"@, rest, "config:"@, 0);
    lemma_prefix_mismatch("tag:"@, rest, "reply:"@, 0);
    reveal_strlit("add:");
    reveal_strlit("rm:");
    lemma_prefix_strip("add:"@, h + seq![' '] + t);
    
    lemma_split_at_first(h, ' ', t);
}

/// `tag:rm:<handle> <tag>` removes the trimmed `tag` from `handle` (a blank
/// tag is a usage error).
pub proof fn law_tag_rm_parses(h: Seq<char>, t: Seq<char>)
    requires
        !h.contains(' '),
    ensures
        input_spec("tag:"@ + ("rm:"@ + (h + seq![' '] + t))) == (if trim_seq(t).len() > 0 {
            InputView::Pair { kind: PairKind::TagRemove, first: h, second: trim_seq(t) }
        } else {
            InputView::Usage(Usage::Tag)
        }),
{
    reveal_strlit("tag:");
    reveal_strlit("chain:");
    reveal_strlit("to:");
    reveal_strlit("pty:");
    reveal_strlit("inject:");
    reveal_strlit("rename:");
    reveal_strlit("group:");
    reveal_strlit("join:");
    reveal_strlit("leave:");
    reveal_strlit("broadcast:");
    reveal_strlit("create:");
    reveal_strlit("config:");
    reveal_strlit("reply:");
    let rest = "rm:"@ + (h + seq![' '] + t);
    lemma_prefix_strip("tag:"@, rest);
    lemma_prefix_mismatch("tag:"@, rest, "chain:"@, 0);
    lemma_prefix_mismatch("tag:"@, rest, "to:"@, 1);
    lemma_prefix_mismatch("tag:"@, rest, "pty:"@, 0);
    lemma_prefix_mismatch("tag:"@, rest, "inject:"@, 0);
    lemma_prefix_mismatch("tag:"@, rest, "rename:"@, 0);
    lemma_prefix_mismatch("tag:"@, rest, "group:"@, 0);
    lemma_prefix_mismatch("tag:"@, rest, "join:"@, 0);
    lemma_prefix_mismatch("tag:"@, rest, "leave:"@, 0);
    lemma_prefix_mismatch("tag:"@, rest, "broadcast:"@, 0);
    lemma_prefix_mismatch("tag:"@, rest, "create:"@, 0);
    lemma_prefix_mismatch("tag:"@, rest, "config:"@, 0);
    lemma_prefix_mismatch("tag:"@, rest, "reply:"@, 0);
    reveal_strlit("add:");
    reveal_strlit("rm:");
    lemma_prefix_strip("rm:"@, h + seq![' '] + t);
    lemma_prefix_mismatch("rm:"@, h + seq![' '] + t, "add:"@, 0);
    lemma_split_at_first(h, ' ', t);
}

/// `tagged:<tag> <message>` sends `message` to the agents with `tag` (the
/// tag trimmed; a blank tag or an empty message asks for nothing).
pub proof fn law_tagged_parses(t: Seq<char>, m: Seq<char>)
    requires
        !t.contains(' '),
    ensures
        input_spec("tagged:"@ + (t + seq![' '] + m)) == (if trim_seq(t).len() == 0 || m.len() == 0 {
            InputView::Nothing
        } else {
            InputView::Pair { kind: PairKind::Tagged, first: trim_seq(t), second: m }
        }),
{
    reveal_strlit("tagged:");
    reveal_strlit("chain:");
    reveal_strlit("to:");
    reveal_strlit("pty:");
    reveal_strlit("inject:");
    reveal_strlit("rename:");
    reveal_strlit("group:");
    reveal_strlit("join:");
    reveal_strlit("leave:");
    reveal_strlit("broadcast:");
    reveal_strlit("create:");
    reveal_strlit("config:");
    reveal_strlit("reply:");
    reveal_strlit("tag:");
    reveal_strlit("batch:");
    let rest = t + seq![' '] + m;
    lemma_prefix_strip("tagged:"@, rest);
    lemma_prefix_mismatch("tagged:"@, rest, "chain:"@, 0);
    lemma_prefix_mismatch("tagged:"@, rest, "to:"@, 1);
    lemma_prefix_mismatch("tagged:"@, rest, "pty:"@, 0);
    lemma_prefix_mismatch("tagged:"@, rest, "inject:"@, 0);
    lemma_prefix_mismatch("tagged:"@, rest, "rename:"@, 0);
    lemma_prefix_mismatch("tagged:"@, rest, "group:"@, 0);
    lemma_prefix_mismatch("tagged:"@, rest, "join:"@, 0);
    lemma_prefix_mismatch("tagged:"@, rest, "leave:"@, 0);
    lemma_prefix_mismatch("tagged:"@, rest, "broadcast:"@, 0);
    lemma_prefix_mismatch("tagged:"@, rest, "create:"@, 0);
    lemma_prefix_mismatch("tagged:"@, rest, "config:"@, 0);
    lemma_prefix_mismatch("tagged:"@, rest, "reply:"@, 0);
    lemma_prefix_mismatch("tagged:"@, rest, "tag:"@, 3);
    lemma_prefix_mismatch("tagged:"@, rest, "batch:"@, 0);
    lemma_split_at_first(t, ' ', m);
}

/// `snip:<name> <text>` stores the trimmed `text` under the trimmed `name`
/// (both must be non-blank; otherwise it is a usage error).
pub proof fn law_snip_store_parses(n: Seq<char>, t: Seq<char>)
    requires
        !n.contains(' '),
        strip(n + seq![' '] + t, "rm:"@) is None,
    ensures
        input_spec("snip:"@ + (n + seq![' '] + t)) == (if trim_seq(n).len() > 0 && trim_seq(t).len() > 0 {
            InputView::Store { kind: Named::Snippet, name: trim_seq(n), text: trim_seq(t) }
        } else {
            InputView::Usage(Usage::Snippet)
        }),
{
    reveal_strlit("snip:");
    reveal_strlit("chain:");
    reveal_strlit("to:");
    reveal_strlit("pty:");
    reveal_strlit("inject:");
    reveal_strlit("rename:");
    reveal_strlit("group:");
    reveal_strlit("join:");
    reveal_strlit("leave:");
    reveal_strlit("broadcast:");
    reveal_strlit("create:");
    reveal_strlit("config:");
    reveal_strlit("reply:");
    reveal_strlit("tag:");
    reveal_strlit("batch:");
    reveal_strlit("tagged:");
    let rest = n + seq![' '] + t;
    lemma_prefix_strip("snip:"@, rest);
    lemma_prefix_mismatch("snip:"@, rest, "chain:"@, 0);
    lemma_prefix_mismatch("snip:"@, rest, "to:"@, 0);
    lemma_prefix_mismatch("snip:"@, rest, "pty:"@, 0);
    lemma_prefix_mismatch("snip:"@, rest, "inject:"@, 0);
    lemma_prefix_mismatch("snip:"@, rest, "rename:"@, 0);
    lemma_prefix_mismatch("snip:"@, rest, "group:"@, 0);
    lemma_prefix_mismatch("snip:"@, rest, "join:"@, 0);
    lemma_prefix_mismatch("snip:"@, rest, "leave:"@, 0);
    lemma_prefix_mismatch("snip:"@, rest, "broadcast:"@, 0);
    lemma_prefix_mismatch("snip:"@, rest, "create:"@, 0);
    lemma_prefix_mismatch("snip:"@, rest, "config:"@, 0);
    lemma_prefix_mismatch("snip:"@, rest, "reply:"@, 0);
    lemma_prefix_mismatch("snip:"@, rest, "tag:"@, 0);
    lemma_prefix_mismatch("snip:"@, rest, "batch:"@, 0);
    lemma_prefix_mismatch("snip:"@, rest, "tagged:"@, 0);
    lemma_split_at_first(n, ' ', t);
}

/// `snip:rm:<name>` removes the trimmed `name` (a blank name asks for nothing).
pub proof fn law_snip_remove_parses(n: Seq<char>)
    ensures
        input_spec("snip:"@ + ("rm:"@ + n)) == (if trim_seq(n).len() > 0 {
            InputView::Remove { kind: Named::Snippet, name: trim_seq(n) }
        } else {
            InputView::Nothing
        }),
{
    reveal_strlit("snip:");
    reveal_strlit("chain:");
    reveal_strlit("to:");
    reveal_strlit("pty:");
    reveal_strlit("inject:");
    reveal_strlit("rename:");
    reveal_strlit("group:");
    reveal_strlit("join:");
    reveal_strlit("leave:");
    reveal_strlit("broadcast:");
    reveal_strlit("create:");
    reveal_strlit("config:");
    reveal_strlit("reply:");
    reveal_strlit("tag:");
    reveal_strlit("batch:");
    reveal_strlit("tagged:");
    let rest = "rm:"@ + n;
    lemma_prefix_strip("snip:"@, rest);
    lemma_prefix_mismatch("snip:"@, rest, "chain:"@, 0);
    lemma_prefix_mismatch("snip:"@, rest, "to:"@, 0);
    lemma_prefix_mismatch("snip:"@, rest, "pty:"@, 0);
    lemma_prefix_mismatch("snip:"@, rest, "inject:"@, 0);
    lemma_prefix_mismatch("snip:"@, rest, "rename:"@, 0);
    lemma_prefix_mismatch("snip:"@, rest, "group:"@, 0);
    lemma_prefix_mismatch("snip:"@, rest, "join:"@, 0);
    lemma_prefix_mismatch("snip:"@, rest, "leave:"@, 0);
    lemma_prefix_mismatch("snip:"@, rest, "broadcast:"@, 0);
    lemma_prefix_mismatch("snip:"@, rest, "create:"@, 0);
    lemma_prefix_mismatch("snip:"@, rest, "config:"@, 0);
    lemma_prefix_mismatch("snip:"@, rest, "reply:"@, 0);
    lemma_prefix_mismatch("snip:"@, rest, "tag:"@, 0);
    lemma_prefix_mismatch("snip:"@, rest, "batch:"@, 0);
    lemma_prefix_mismatch("snip:"@, rest, "tagged:"@, 0);
    reveal_strlit("rm:");
    lemma_prefix_strip("rm:"@, n);
}

/// `note:<name> <text>` stores the trimmed `text` under the trimmed `name`
/// (both must be non-blank; otherwise it is a usage error).
pub proof fn law_note_store_parses(n: Seq<char>, t: Seq<char>)
    requires
        !n.contains(' '),
        strip(n + seq![' '] + t, "rm:"@) is None,
    ensures
        input_spec("note:"@ + (n + seq![' '] + t)) == (if trim_seq(n).len() > 0 && trim_seq(t).len() > 0 {
            InputView::Store { kind: Named::Note, name: trim_seq(n), text: trim_seq(t) }
        } else {
            InputView::Usage(Usage::Note)
        }),
{
    reveal_strlit("note:");
    reveal_strlit("chain:");
    reveal_strlit("to:");
    reveal_strlit("pty:");
    reveal_strlit("inject:");
    reveal_strlit("rename:");
    reveal_strlit("group:");
    reveal_strlit("join:");
    reveal_strlit("leave:");
    reveal_strlit("broadcast:");
    reveal_strlit("create:");
    reveal_strlit("config:");
    reveal_strlit("reply:");
    reveal_strlit("tag:");
    reveal_strlit("batch:");
    reveal_strlit("tagged:");
    reveal_strlit("snip:");
    reveal_strlit("run:");
    reveal_strlit("rule:");
    reveal_strlit("macro:");
    reveal_strlit("view:");
    let rest = n + seq![' '] + t;
    lemma_prefix_strip("note:"@, rest);
    lemma_prefix_mismatch("note:"@, rest, "chain:"@, 0);
    lemma_prefix_mismatch("note:"@, rest, "to:"@, 0);
    lemma_prefix_mismatch("note:"@, rest, "pty:"@, 0);
    lemma_prefix_mismatch("note:"@, rest, "inject:"@, 0);
    lemma_prefix_mismatch("note:"@, rest, "rename:"@, 0);
    lemma_prefix_mismatch("note:"@, rest, "group:"@, 0);
    lemma_prefix_mismatch("note:"@, rest, "join:"@, 0);
    lemma_prefix_mismatch("note:"@, rest, "leave:"@, 0);
    lemma_prefix_mismatch("note:"@, rest, "broadcast:"@, 0);
    lemma_prefix_mismatch("note:"@, rest, "create:"@, 0);
    lemma_prefix_mismatch("note:"@, rest, "config:"@, 0);
    lemma_prefix_mismatch("note:"@, rest, "reply:"@, 0);
    lemma_prefix_mismatch("note:"@, rest, "tag:"@, 0);
    lemma_prefix_mismatch("note:"@, rest, "batch:"@, 0);
    lemma_prefix_mismatch("note:"@, rest, "tagged:"@, 0);
    lemma_prefix_mismatch("note:"@, rest, "snip:"@, 0);
    lemma_prefix_mismatch("note:"@, rest, "run:"@, 0);
    lemma_prefix_mismatch("note:"@, rest, "rule:"@, 0);
    lemma_prefix_mismatch("note:"@, rest, "macro:"@, 0);
    lemma_prefix_mismatch("note:"@, rest, "view:"@, 0);
    lemma_split_at_first(n, ' ', t);
}

/// `note:rm:<name>` removes the trimmed `name` (a blank name asks for nothing).
pub proof fn law_note_remove_parses(n: Seq<char>)
    ensures
        input_spec("note:"@ + ("rm:"@ + n)) == (if trim_seq(n).len() > 0 {
            InputView::Remove { kind: Named::Note, name: trim_seq(n) }
        } else {
            InputView::Nothing
        }),
{
    reveal_strlit("note:");
    reveal_strlit("chain:");
    reveal_strlit("to:");
    reveal_strlit("pty:");
    reveal_strlit("inject:");
    reveal_strlit("rename:");
    reveal_strlit("group:");
    reveal_strlit("join:");
    reveal_strlit("leave:");
    reveal_strlit("broadcast:");
    reveal_strlit("create:");
    reveal_strlit("config:");
    reveal_strlit("reply:");
    reveal_strlit("tag:");
    reveal_strlit("batch:");
    reveal_strlit("tagged:");
    reveal_strlit("snip:");
    reveal_strlit("run:");
    reveal_strlit("rule:");
    reveal_strlit("macro:");
    reveal_strlit("view:");
    let rest = "rm:"@ + n;
    lemma_prefix_strip("note:"@, rest);
    lemma_prefix_mismatch("note:"@, rest, "chain:"@, 0);
    lemma_prefix_mismatch("note:"@, rest, "to:"@, 0);
    lemma_prefix_mismatch("note:"@, rest, "pty:"@, 0);
    lemma_prefix_mismatch("note:"@, rest, "inject:"@, 0);
    lemma_prefix_mismatch("note:"@, rest, "rename:"@, 0);
    lemma_prefix_mismatch("note:"@, rest, "group:"@, 0);
    lemma_prefix_mismatch("note:"@, rest, "join:"@, 0);
    lemma_prefix_mismatch("note:"@, rest, "leave:"@, 0);
    lemma_prefix_mismatch("note:"@, rest, "broadcast:"@, 0);
    lemma_prefix_mismatch("note:"@, rest, "create:"@, 0);
    lemma_prefix_mismatch("note:"@, rest, "config:"@, 0);
    lemma_prefix_mismatch("note:"@, rest, "reply:"@, 0);
    lemma_prefix_mismatch("note:"@, rest, "tag:"@, 0);
    lemma_prefix_mismatch("note:"@, rest, "batch:"@, 0);
    lemma_prefix_mismatch("note:"@, rest, "tagged:"@, 0);
    lemma_prefix_mismatch("note:"@, rest, "snip:"@, 0);
    lemma_prefix_mismatch("note:"@, rest, "run:"@, 0);
    lemma_prefix_mismatch("note:"@, rest, "rule:"@, 0);
    lemma_prefix_mismatch("note:"@, rest, "macro:"@, 0);
    lemma_prefix_mismatch("note:"@, rest, "view:"@, 0);
    reveal_strlit("rm:");
    lemma_prefix_strip("rm:"@, n);
}

/// `alias:<name> <text>` stores the trimmed `text` under the trimmed `name`
/// (both must be non-blank; otherwise it is a usage error).
pub proof fn law_alias_store_parses(n: Seq<char>, t: Seq<char>)
    requires
        !n.contains(' '),
        strip(n + seq![' '] + t, "rm:"@) is None,
    ensures
        input_spec("alias:"@ + (n + seq![' '] + t)) == (if trim_seq(n).len() > 0 && trim_seq(t).len() > 0 {
            InputView::Store { kind: Named::Alias, name: trim_seq(n), text: trim_seq(t) }
        } else {
            InputView::Usage(Usage::Alias)
        }),
{
    reveal_strlit("alias:");
    reveal_strlit("chain:");
    reveal_strlit("to:");
    reveal_strlit("pty:");
    reveal_strlit("inject:");
    reveal_strlit("rename:");
    reveal_strlit("group:");
    reveal_strlit("join:");
    reveal_strlit("leave:");
    reveal_strlit("broadcast:");
    reveal_strlit("create:");
    reveal_strlit("config:");
    reveal_strlit("reply:");
    reveal_strlit("tag:");
    reveal_strlit("batch:");
    reveal_strlit("tagged:");
    reveal_strlit("snip:");
    reveal_strlit("run:");
    reveal_strlit("rule:");
    reveal_strlit("macro:");
    reveal_strlit("view:");
    reveal_strlit("note:");
    reveal_strlit("export:");
    reveal_strlit("import:");
    let rest = n + seq![' '] + t;
    lemma_prefix_strip("alias:"@, rest);
    lemma_prefix_mismatch("alias:"@, rest, "chain:"@, 0);
    lemma_prefix_mismatch("alias:"@, rest, "to:"@, 0);
    lemma_prefix_mismatch("alias:"@, rest, "pty:"@, 0);
    lemma_prefix_mismatch("alias:"@, rest, "inject:"@, 0);
    lemma_prefix_mismatch("alias:"@, rest, "rename:"@, 0);
    lemma_prefix_mismatch("alias:"@, rest, "group:"@, 0);
    lemma_prefix_mismatch("alias:"@, rest, "join:"@, 0);
    lemma_prefix_mismatch("alias:"@, rest, "leave:"@, 0);
    lemma_prefix_mismatch("alias:"@, rest, "broadcast:"@, 0);
    lemma_prefix_mismatch("alias:"@, rest, "create:"@, 0);
    lemma_prefix_mismatch("alias:"@, rest, "config:"@, 0);
    lemma_prefix_mismatch("alias:"@, rest, "reply:"@, 0);
    lemma_prefix_mismatch("alias:"@, rest, "tag:"@, 0);
    lemma_prefix_mismatch("alias:"@, rest, "batch:"@, 0);
    lemma_prefix_mismatch("alias:"@, rest, "tagged:"@, 0);
    lemma_prefix_mismatch("alias:"@, rest, "snip:"@, 0);
    lemma_prefix_mismatch("alias:"@, rest, "run:"@, 0);
    lemma_prefix_mismatch("alias:"@, rest, "rule:"@, 0);
    lemma_prefix_mismatch("alias:"@, rest, "macro:"@, 0);
    lemma_prefix_mismatch("alias:"@, rest, "view:"@, 0);
    lemma_prefix_mismatch("alias:"@, rest, "note:"@, 0);
    lemma_prefix_mismatch("alias:"@, rest, "export:"@, 0);
    lemma_prefix_mismatch("alias:"@, rest, "import:"@, 0);
    lemma_split_at_first(n, ' ', t);
}

/// `alias:rm:<name>` removes the trimmed `name` (a blank name asks for nothing).
pub proof fn law_alias_remove_parses(n: Seq<char>)
    ensures
        input_spec("alias:"@ + ("rm:"@ + n)) == (if trim_seq(n).len() > 0 {
            InputView::Remove { kind: Named::Alias, name: trim_seq(n) }
        } else {
            InputView::Nothing
        }),
{
    reveal_strlit("alias:");
    reveal_strlit("chain:");
    reveal_strlit("to:");
    reveal_strlit("pty:");
    reveal_strlit("inject:");
    reveal_strlit("rename:");
    reveal_strlit("group:");
    reveal_strlit("join:");
    reveal_strlit("leave:");
    reveal_strlit("broadcast:");
    reveal_strlit("create:");
    reveal_strlit("config:");
    reveal_strlit("reply:");
    reveal_strlit("tag:");
    reveal_strlit("batch:");
    reveal_strlit("tagged:");
    reveal_strlit("snip:");
    reveal_strlit("run:");
    reveal_strlit("rule:");
    reveal_strlit("macro:");
    reveal_strlit("view:");
    reveal_strlit("note:");
    reveal_strlit("export:");
    reveal_strlit("import:");
    let rest = "rm:"@ + n;
    lemma_prefix_strip("alias:"@, rest);
    lemma_prefix_mismatch("alias:"@, rest, "chain:"@, 0);
    lemma_prefix_mismatch("alias:"@, rest, "to:"@, 0);
    lemma_prefix_mismatch("alias:"@, rest, "pty:"@, 0);
    lemma_prefix_mismatch("alias:"@, rest, "inject:"@, 0);
    lemma_prefix_mismatch("alias:"@, rest, "rename:"@, 0);
    lemma_prefix_mismatch("alias:"@, rest, "group:"@, 0);
    lemma_prefix_mismatch("alias:"@, rest, "join:"@, 0);
    lemma_prefix_mismatch("alias:"@, rest, "leave:"@, 0);
    lemma_prefix_mismatch("alias:"@, rest, "broadcast:"@, 0);
    lemma_prefix_mismatch("alias:"@, rest, "create:"@, 0);
    lemma_prefix_mismatch("alias:"@, rest, "config:"@, 0);
    lemma_prefix_mismatch("alias:"@, rest, "reply:"@, 0);
    lemma_prefix_mismatch("alias:"@, rest, "tag:"@, 0);
    lemma_prefix_mismatch("alias:"@, rest, "batch:"@, 0);
    lemma_prefix_mismatch("alias:"@, rest, "tagged:"@, 0);
    lemma_prefix_mismatch("alias:"@, rest, "snip:"@, 0);
    lemma_prefix_mismatch("alias:"@, rest, "run:"@, 0);
    lemma_prefix_mismatch("alias:"@, rest, "rule:"@, 0);
    lemma_prefix_mismatch("alias:"@, rest, "macro:"@, 0);
    lemma_prefix_mismatch("alias:"@, rest, "view:"@, 0);
    lemma_prefix_mismatch("alias:"@, rest, "note:"@, 0);
    lemma_prefix_mismatch("alias:"@, rest, "export:"@, 0);
    lemma_prefix_mismatch("alias:"@, rest, "import:"@, 0);
    reveal_strlit("rm:");
    lemma_prefix_strip("rm:"@, n);
}

/// `group:<x>` asks for CreateGroup with the trimmed `x` (nothing when it is blank).
pub proof fn law_group_parses(x: Seq<char>)
    ensures
        input_spec("group:"@ + x) == (if trim_seq(x).len() > 0 {
            InputView::Act { action: Action::CreateGroup, arg: trim_seq(x) }
        } else {
            InputView::Nothing
        }),
{
    reveal_strlit("group:");
    reveal_strlit("chain:");
    reveal_strlit("to:");
    reveal_strlit("pty:");
    reveal_strlit("inject:");
    reveal_strlit("rename:");
    let rest = x;
    lemma_prefix_strip("group:"@, rest);
    lemma_prefix_mismatch("group:"@, rest, "chain:"@, 0);
    lemma_prefix_mismatch("group:"@, rest, "to:"@, 0);
    lemma_prefix_mismatch("group:"@, rest, "pty:"@, 0);
    lemma_prefix_mismatch("group:"@, rest, "inject:"@, 0);
    lemma_prefix_mismatch("group:"@, rest, "rename:"@, 0);
}

/// `join:<x>` asks for JoinGroup with the trimmed `x` (nothing when it is blank).
pub proof fn law_join_parses(x: Seq<char>)
    ensures
        input_spec("join:"@ + x) == (if trim_seq(x).len() > 0 {
            InputView::Act { action: Action::JoinGroup, arg: trim_seq(x) }
        } else {
            InputView::Nothing
        }),
{
    reveal_strlit("join:");
    reveal_strlit("chain:");
    reveal_strlit("to:");
    reveal_strlit("pty:");
    reveal_strlit("inject:");
    reveal_strlit("rename:");
    reveal_strlit("group:");
    let rest = x;
    lemma_prefix_strip("join:"@, rest);
    lemma_prefix_mismatch("join:"@, rest, "chain:"@, 0);
    lemma_prefix_mismatch("join:"@, rest, "to:"@, 0);
    lemma_prefix_mismatch("join:"@, rest, "pty:"@, 0);
    lemma_prefix_mismatch("join:"@, rest, "inject:"@, 0);
    lemma_prefix_mismatch("join:"@, rest, "rename:"@, 0);
    lemma_prefix_mismatch("join:"@, rest, "group:"@, 0);
}

/// `leave:<x>` asks for LeaveGroup with the trimmed `x` (nothing when it is blank).
pub proof fn law_leave_parses(x: Seq<char>)
    ensures
        input_spec("leave:"@ + x) == (if trim_seq(x).len() > 0 {
            InputView::Act { action: Action::LeaveGroup, arg: trim_seq(x) }
        } else {
            InputView::Nothing
        }),
{
    reveal_strlit("leave:");
    reveal_strlit("chain:");
    reveal_strlit("to:");
    reveal_strlit("pty:");
    reveal_strlit("inject:");
    reveal_strlit("rename:");
    reveal_strlit("group:");
    reveal_strlit("join:");
    let rest = x;
    lemma_prefix_strip("leave:"@, rest);
    lemma_prefix_mismatch("leave:"@, rest, "chain:"@, 0);
    lemma_prefix_mismatch("leave:"@, rest, "to:"@, 0);
    lemma_prefix_mismatch("leave:"@, rest, "pty:"@, 0);
    lemma_prefix_mismatch("leave:"@, rest, "inject:"@, 0);
    lemma_prefix_mismatch("leave:"@, rest, "rename:"@, 0);
    lemma_prefix_mismatch("leave:"@, rest, "group:"@, 0);
    lemma_prefix_mismatch("leave:"@, rest, "join:"@, 0);
}

/// `inject:<x>` asks for Inject with the trimmed `x` (nothing when it is blank).
pub proof fn law_inject_parses(x: Seq<char>)
    ensures
        input_spec("inject:"@ + x) == (if trim_seq(x).len() > 0 {
            InputView::Act { action: Action::Inject, arg: trim_seq(x) }
        } else {
            InputView::Nothing
        }),
{
    reveal_strlit("inject:");
    reveal_strlit("chain:");
    reveal_strlit("to:");
    reveal_strlit("pty:");
    let rest = x;
    lemma_prefix_strip("inject:"@, rest);
    lemma_prefix_mismatch("inject:"@, rest, "chain:"@, 0);
    lemma_prefix_mismatch("inject:"@, rest, "to:"@, 0);
    lemma_prefix_mismatch("inject:"@, rest, "pty:"@, 0);
}

/// `export:<x>` asks for Export with the trimmed `x` (a usage error when blank).
pub proof fn law_export_parses(x: Seq<char>)
    ensures
        input_spec("export:"@ + x) == (if trim_seq(x).len() > 0 {
            InputView::Act { action: Action::Export, arg: trim_seq(x) }
        } else {
            InputView::Usage(Usage::Export)
        }),
{
    reveal_strlit("export:");
    reveal_strlit("chain:");
    reveal_strlit("to:");
    reveal_strlit("pty:");
    reveal_strlit("inject:");
    reveal_strlit("rename:");
    reveal_strlit("group:");
    reveal_strlit("join:");
    reveal_strlit("leave:");
    reveal_strlit("broadcast:");
    reveal_strlit("create:");
    reveal_strlit("config:");
    reveal_strlit("reply:");
    reveal_strlit("tag:");
    reveal_strlit("batch:");
    reveal_strlit("tagged:");
    reveal_strlit("snip:");
    reveal_strlit("run:");
    reveal_strlit("rule:");
    reveal_strlit("macro:");
    reveal_strlit("view:");
    reveal_strlit("note:");
    let rest = x;
    lemma_prefix_strip("export:"@, rest);
    lemma_prefix_mismatch("export:"@, rest, "chain:"@, 0);
    lemma_prefix_mismatch("export:"@, rest, "to:"@, 0);
    lemma_prefix_mismatch("export:"@, rest, "pty:"@, 0);
    lemma_prefix_mismatch("export:"@, rest, "inject:"@, 0);
    lemma_prefix_mismatch("export:"@, rest, "rename:"@, 0);
    lemma_prefix_mismatch("export:"@, rest, "group:"@, 0);
    lemma_prefix_mismatch("export:"@, rest, "join:"@, 0);
    lemma_prefix_mismatch("export:"@, rest, "leave:"@, 0);
    lemma_prefix_mismatch("export:"@, rest, "broadcast:"@, 0);
    lemma_prefix_mismatch("export:"@, rest, "create:"@, 0);
    lemma_prefix_mismatch("export:"@, rest, "config:"@, 0);
    lemma_prefix_mismatch("export:"@, rest, "reply:"@, 0);
    lemma_prefix_mismatch("export:"@, rest, "tag:"@, 0);
    lemma_prefix_mismatch("export:"@, rest, "batch:"@, 0);
    lemma_prefix_mismatch("export:"@, rest, "tagged:"@, 0);
    lemma_prefix_mismatch("export:"@, rest, "snip:"@, 0);
    lemma_prefix_mismatch("export:"@, rest, "run:"@, 0);
    lemma_prefix_mismatch("export:"@, rest, "rule:"@, 0);
    lemma_prefix_mismatch("export:"@, rest, "macro:"@, 0);
    lemma_prefix_mismatch("export:"@, rest, "view:"@, 0);
    lemma_prefix_mismatch("export:"@, rest, "note:"@, 0);
}

/// `import:<x>` asks for Import with the trimmed `x` (a usage error when blank).
pub proof fn law_import_parses(x: Seq<char>)
    ensures
        input_spec("import:"@ + x) == (if trim_seq(x).len() > 0 {
            InputView::Act { action: Action::Import, arg: trim_seq(x) }
        } else {
            InputView::Usage(Usage::Import)
        }),
{
    reveal_strlit("import:");
    reveal_strlit("chain:");
    reveal_strlit("to:");
    reveal_strlit("pty:");
    reveal_strlit("inject:");
    reveal_strlit("rename:");
    reveal_strlit("group:");
    reveal_strlit("join:");
    reveal_strlit("leave:");
    reveal_strlit("broadcast:");
    reveal_strlit("create:");
    reveal_strlit("config:");
    reveal_strlit("reply:");
    reveal_strlit("tag:");
    reveal_strlit("batch:");
    reveal_strlit("tagged:");
    reveal_strlit("snip:");
    reveal_strlit("run:");
    reveal_strlit("rule:");
    reveal_strlit("macro:");
    reveal_strlit("view:");
    reveal_strlit("note:");
    reveal_strlit("export:");
    let rest = x;
    lemma_prefix_strip("import:"@, rest);
    lemma_prefix_mismatch("import:"@, rest, "chain:"@, 0);
    lemma_prefix_mismatch("import:"@, rest, "to:"@, 0);
    lemma_prefix_mismatch("import:"@, rest, "pty:"@, 0);
    lemma_prefix_mismatch("import:"@, rest, "inject:"@, 1);
    lemma_prefix_mismatch("import:"@, rest, "rename:"@, 0);
    lemma_prefix_mismatch("import:"@, rest, "group:"@, 0);
    lemma_prefix_mismatch("import:"@, rest, "join:"@, 0);
    lemma_prefix_mismatch("import:"@, rest, "leave:"@, 0);
    lemma_prefix_mismatch("import:"@, rest, "broadcast:"@, 0);
    lemma_prefix_mismatch("import:"@, rest, "create:"@, 0);
    lemma_prefix_mismatch("import:"@, rest, "config:"@, 0);
    lemma_prefix_mismatch("import:"@, rest, "reply:"@, 0);
    lemma_prefix_mismatch("import:"@, rest, "tag:"@, 0);
    lemma_prefix_mismatch("import:"@, rest, "batch:"@, 0);
    lemma_prefix_mismatch("import:"@, rest, "tagged:"@, 0);
    lemma_prefix_mismatch("import:"@, rest, "snip:"@, 0);
    lemma_prefix_mismatch("import:"@, rest, "run:"@, 0);
    lemma_prefix_mismatch("import:"@, rest, "rule:"@, 0);
    lemma_prefix_mismatch("import:"@, rest, "macro:"@, 0);
    lemma_prefix_mismatch("import:"@, rest, "view:"@, 0);
    lemma_prefix_mismatch("import:"@, rest, "note:"@, 0);
    lemma_prefix_mismatch("import:"@, rest, "export:"@, 0);
}

/// `watch:<x>` asks for Watch with the trimmed `x` (a usage error when blank).
pub proof fn law_watch_parses(x: Seq<char>)
    ensures
        input_spec("watch:"@ + x) == (if trim_seq(x).len() > 0 {
            InputView::Act { action: Action::Watch, arg: trim_seq(x) }
        } else {
            InputView::Usage(Usage::Watch)
        }),
{
    reveal_strlit("watch:");
    reveal_strlit("chain:");
    reveal_strlit("to:");
    reveal_strlit("pty:");
    reveal_strlit("inject:");
    reveal_strlit("rename:");
    reveal_strlit("group:");
    reveal_strlit("join:");
    reveal_strlit("leave:");
    reveal_strlit("broadcast:");
    reveal_strlit("create:");
    reveal_strlit("config:");
    reveal_strlit("reply:");
    reveal_strlit("tag:");
    reveal_strlit("batch:");
    reveal_strlit("tagged:");
    reveal_strlit("snip:");
    reveal_strlit("run:");
    reveal_strlit("rule:");
    reveal_strlit("macro:");
    reveal_strlit("view:");
    reveal_strlit("note:");
    reveal_strlit("export:");
    reveal_strlit("import:");
    reveal_strlit("alias:");
    reveal_strlit("hotkey:");
    reveal_strlit("theme:");
    let rest = x;
    lemma_prefix_strip("watch:"@, rest);
    lemma_prefix_mismatch("watch:"@, rest, "chain:"@, 0);
    lemma_prefix_mismatch("watch:"@, rest, "to:"@, 0);
    lemma_prefix_mismatch("watch:"@, rest, "pty:"@, 0);
    lemma_prefix_mismatch("watch:"@, rest, "inject:"@, 0);
    lemma_prefix_mismatch("watch:"@, rest, "rename:"@, 0);
    lemma_prefix_mismatch("watch:"@, rest, "group:"@, 0);
    lemma_prefix_mismatch("watch:"@, rest, "join:"@, 0);
    lemma_prefix_mismatch("watch:"@, rest, "leave:"@, 0);
    lemma_prefix_mismatch("watch:"@, rest, "broadcast:"@, 0);
    lemma_prefix_mismatch("watch:"@, rest, "create:"@, 0);
    lemma_prefix_mismatch("watch:"@, rest, "config:"@, 0);
    lemma_prefix_mismatch("watch:"@, rest, "reply:"@, 0);
    lemma_prefix_mismatch("watch:"@, rest, "tag:"@, 0);
    lemma_prefix_mismatch("watch:"@, rest, "batch:"@, 0);
    lemma_prefix_mismatch("watch:"@, rest, "tagged:"@, 0);
    lemma_prefix_mismatch("watch:"@, rest, "snip:"@, 0);
    lemma_prefix_mismatch("watch:"@, rest, "run:"@, 0);
    lemma_prefix_mismatch("watch:"@, rest, "rule:"@, 0);
    lemma_prefix_mismatch("watch:"@, rest, "macro:"@, 0);
    lemma_prefix_mismatch("watch:"@, rest, "view:"@, 0);
    lemma_prefix_mismatch("watch:"@, rest, "note:"@, 0);
    lemma_prefix_mismatch("watch:"@, rest, "export:"@, 0);
    lemma_prefix_mismatch("watch:"@, rest, "import:"@, 0);
    lemma_prefix_mismatch("watch:"@, rest, "alias:"@, 0);
    lemma_prefix_mismatch("watch:"@, rest, "hotkey:"@, 0);
    lemma_prefix_mismatch("watch:"@, rest, "theme:"@, 0);
}

/// `run:<name>` runs the snippet named by the trimmed `name`.
pub proof fn law_run_parses(x: Seq<char>)
    ensures
        input_spec("run:"@ + x) == (InputView::Act { action: Action::RunSnippet, arg: trim_seq(x) }),
{
    reveal_strlit("run:");
    reveal_strlit("chain:");
    reveal_strlit("to:");
    reveal_strlit("pty:");
    reveal_strlit("inject:");
    reveal_strlit("rename:");
    reveal_strlit("group:");
    reveal_strlit("join:");
    reveal_strlit("leave:");
    reveal_strlit("broadcast:");
    reveal_strlit("create:");
    reveal_strlit("config:");
    reveal_strlit("reply:");
    reveal_strlit("tag:");
    reveal_strlit("batch:");
    reveal_strlit("tagged:");
    reveal_strlit("snip:");
    let rest = x;
    lemma_prefix_strip("run:"@, rest);
    lemma_prefix_mismatch("run:"@, rest, "chain:"@, 0);
    lemma_prefix_mismatch("run:"@, rest, "to:"@, 0);
    lemma_prefix_mismatch("run:"@, rest, "pty:"@, 0);
    lemma_prefix_mismatch("run:"@, rest, "inject:"@, 0);
    lemma_prefix_mismatch("run:"@, rest, "rename:"@, 1);
    lemma_prefix_mismatch("run:"@, rest, "group:"@, 0);
    lemma_prefix_mismatch("run:"@, rest, "join:"@, 0);
    lemma_prefix_mismatch("run:"@, rest, "leave:"@, 0);
    lemma_prefix_mismatch("run:"@, rest, "broadcast:"@, 0);
    lemma_prefix_mismatch("run:"@, rest, "create:"@, 0);
    lemma_prefix_mismatch("run:"@, rest, "config:"@, 0);
    lemma_prefix_mismatch("run:"@, rest, "reply:"@, 1);
    lemma_prefix_mismatch("run:"@, rest, "tag:"@, 0);
    lemma_prefix_mismatch("run:"@, rest, "batch:"@, 0);
    lemma_prefix_mismatch("run:"@, rest, "tagged:"@, 0);
    lemma_prefix_mismatch("run:"@, rest, "snip:"@, 0);
}

/// `broadcast:<group> <message>` sends `message` to the members of `group`
/// (a group name without whitespace; an empty message asks for nothing).
pub proof fn law_broadcast_parses(g: Seq<char>, m: Seq<char>)
    requires
        g.len() > 0,
        forall|i: int| 0 <= i < g.len() ==> !is_ws(#[trigger] g[i]),
    ensures
        input_spec("broadcast:"@ + (g + seq![' '] + m)) == (if m.len() > 0 {
            InputView::Pair { kind: PairKind::Broadcast, first: g, second: m }
        } else {
            InputView::Nothing
        }),
{
    reveal_strlit("broadcast:");
    reveal_strlit("chain:");
    reveal_strlit("to:");
    reveal_strlit("pty:");
    reveal_strlit("inject:");
    reveal_strlit("rename:");
    reveal_strlit("group:");
    reveal_strlit("join:");
    reveal_strlit("leave:");
    let rest = g + seq![' '] + m;
    lemma_prefix_strip("broadcast:"@, rest);
    lemma_prefix_mismatch("broadcast:"@, rest, "chain:"@, 0);
    lemma_prefix_mismatch("broadcast:"@, rest, "to:"@, 0);
    lemma_prefix_mismatch("broadcast:"@, rest, "pty:"@, 0);
    lemma_prefix_mismatch("broadcast:"@, rest, "inject:"@, 0);
    lemma_prefix_mismatch("broadcast:"@, rest, "rename:"@, 0);
    lemma_prefix_mismatch("broadcast:"@, rest, "group:"@, 0);
    lemma_prefix_mismatch("broadcast:"@, rest, "join:"@, 0);
    lemma_prefix_mismatch("broadcast:"@, rest, "leave:"@, 0);
    assert(rest[0] == g[0]);
    assert(lead_ws(rest) == 0);
    assert(rest.skip(0) =~= rest);
    assert(!g.contains(' ')) by {
        if g.contains(' ') {
            let k = choose|k: int| 0 <= k < g.len() && g[k] == ' ';
            assert(!is_ws(g[k]));
        }
    }
    lemma_split_at_first(g, ' ', m);
}

/// `config:<key>=<value>` sets one of the keys "theme", "default_filter"
/// or "sort" (trimmed) to the trimmed `value`.
pub proof fn law_config_parses(k: Seq<char>, v: Seq<char>)
    requires
        !k.contains('='),
        trim_seq(k) == "theme"@ || trim_seq(k) == "default_filter"@ || trim_seq(k) == "sort"@,
    ensures
        input_spec("config:"@ + (k + seq!['='] + v)) == (InputView::Pair { kind: PairKind::Config, first: trim_seq(k), second: trim_seq(v) }),
{
    reveal_strlit("config:");
    reveal_strlit("chain:");
    reveal_strlit("to:");
    reveal_strlit("pty:");
    reveal_strlit("inject:");
    reveal_strlit("rename:");
    reveal_strlit("group:");
    reveal_strlit("join:");
    reveal_strlit("leave:");
    reveal_strlit("broadcast:");
    reveal_strlit("create:");
    let rest = k + seq!['='] + v;
    lemma_prefix_strip("config:"@, rest);
    lemma_prefix_mismatch("config:"@, rest, "chain:"@, 1);
    lemma_prefix_mismatch("config:"@, rest, "to:"@, 0);
    lemma_prefix_mismatch("config:"@, rest, "pty:"@, 0);
    lemma_prefix_mismatch("config:"@, rest, "inject:"@, 0);
    lemma_prefix_mismatch("config:"@, rest, "rename:"@, 0);
    lemma_prefix_mismatch("config:"@, rest, "group:"@, 0);
    lemma_prefix_mismatch("config:"@, rest, "join:"@, 0);
    lemma_prefix_mismatch("config:"@, rest, "leave:"@, 0);
    lemma_prefix_mismatch("config:"@, rest, "broadcast:"@, 0);
    lemma_prefix_mismatch("config:"@, rest, "create:"@, 1);
    reveal_strlit("theme");
    reveal_strlit("default_filter");
    reveal_strlit("sort");
    reveal_strlit("refresh_interval_ms");
    lemma_split_at_first(k, '=', v);
    assert(trim_seq(k).len() != "refresh_interval_ms"@.len());
}

/// `create:<worktree>:<command>` creates a terminal running `command` in
/// `worktree`.
pub proof fn law_create_parses(w: Seq<char>, c: Seq<char>)
    requires
        !w.contains(':'),
        c.len() > 0,
    ensures
        input_spec("create:"@ + (w + seq![':'] + c)) == (InputView::Create { worktree: Some(w), command: c }),
{
    reveal_strlit("create:");
    reveal_strlit("chain:");
    reveal_strlit("to:");
    reveal_strlit("pty:");
    reveal_strlit("inject:");
    reveal_strlit("rename:");
    reveal_strlit("group:");
    reveal_strlit("join:");
    reveal_strlit("leave:");
    reveal_strlit("broadcast:");
    let rest = w + seq![':'] + c;
    lemma_prefix_strip("create:"@, rest);
    lemma_prefix_mismatch("create:"@, rest, "chain:"@, 1);
    lemma_prefix_mismatch("create:"@, rest, "to:"@, 0);
    lemma_prefix_mismatch("create:"@, rest, "pty:"@, 0);
    lemma_prefix_mismatch("create:"@, rest, "inject:"@, 0);
    lemma_prefix_mismatch("create:"@, rest, "rename:"@, 0);
    lemma_prefix_mismatch("create:"@, rest, "group:"@, 0);
    lemma_prefix_mismatch("create:"@, rest, "join:"@, 0);
    lemma_prefix_mismatch("create:"@, rest, "leave:"@, 0);
    lemma_prefix_mismatch("create:"@, rest, "broadcast:"@, 0);
    lemma_split_at_first(w, ':', c);
}

/// `rename:<handle> <title>` renames the terminal `handle` to `title`: the
/// handle is what comes before the first space, the title all that follows
/// it (a line with an empty title asks for nothing).
pub proof fn law_rename_parses(h: Seq<char>, t: Seq<char>)
    requires
        !h.contains(' '),
    ensures
        input_spec("rename:"@ + h + seq![' '] + t) == (if t.len() > 0 {
            InputView::Pair { kind: PairKind::Rename, first: h, second: t }
        } else {
            InputView::Nothing
        }),
{
    reveal_strlit("rename:");
    reveal_strlit("chain:");
    reveal_strlit("to:");
    reveal_strlit("pty:");
    reveal_strlit("inject:");
    let b = "rename:"@ + h + seq![' '] + t;
    assert(b[0] == 'r');
    lemma_not_prefixed(b, "chain:"@);
    lemma_not_prefixed(b, "to:"@);
    lemma_not_prefixed(b, "pty:"@);
    lemma_not_prefixed(b, "inject:"@);
    assert(b.subrange(0, 7) =~= "rename:"@);
    assert(b.skip(7) =~= h + seq![' '] + t);
    lemma_split_at_first(h, ' ', t);
}

/// `to:<handle> <subject>` sends `subject` to `handle`: the recipient is
/// what comes before the first space, the subject all that follows it.
pub proof fn law_send_parses(h: Seq<char>, t: Seq<char>)
    requires
        !h.contains(' '),
    ensures
        input_spec("to:"@ + h + seq![' '] + t) == (InputView::Pair { kind: PairKind::Send, first: h, second: t }),
{
    reveal_strlit("to:");
    reveal_strlit("chain:");
    let b = "to:"@ + h + seq![' '] + t;
    assert(b[0] == 't');
    lemma_not_prefixed(b, "chain:"@);
    assert(b.subrange(0, 3) =~= "to:"@);
    assert(b.skip(3) =~= h + seq![' '] + t);
    lemma_split_at_first(h, ' ', t);
}

/// `pty:<handle> <text>` types `text` into the terminal `handle`.
pub proof fn law_pty_parses(h: Seq<char>, t: Seq<char>)
    requires
        !h.contains(' '),
    ensures
        (input_spec("pty:"@ + h + seq![' '] + t) matches InputView::Pty { handle, text, .. } && handle == h && text == t),
{
    reveal_strlit("pty:");
    reveal_strlit("chain:");
    reveal_strlit("to:");
    let b = "pty:"@ + h + seq![' '] + t;
    assert(b[0] == 'p');
    lemma_not_prefixed(b, "chain:"@);
    lemma_not_prefixed(b, "to:"@);
    assert(b.subrange(0, 4) =~= "pty:"@);
    assert(b.skip(4) =~= h + seq![' '] + t);
    lemma_split_at_first(h, ' ', t);
}

pub fn parse_input(buf: &str) -> (r: InputCommand)
    ensures
        input_view(r) == input_spec(buf@),
{
    let b = chars_of(buf);
    if let Some(rest) = strip_vec(&b, "chain:") {
        return chain_form_of(&rest);
    }
    if let Some((to, subject)) = after_split_of(&b, "to:", ' ') {
        return InputCommand::Pair { kind: PairKind::Send, first: text(&to), second: text(&subject) };
    }
    if let Some((h, t)) = after_split_of(&b, "pty:", ' ') {
        let ascii = is_ascii_chars(&t);
        return InputCommand::Pty { handle: text(&h), text: text(&t), ascii };
    }
    if let Some(rest) = strip_vec(&b, "inject:") {
        return act_nonblank_of(&rest, Action::Inject);
    }
    if let Some((h, t)) = after_split_of(&b, "rename:", ' ') {
        if t.len() == 0 {
            return InputCommand::Nothing;
        }
        return InputCommand::Pair { kind: PairKind::Rename, first: text(&h), second: text(&t) };
    }
    if let Some(rest) = strip_vec(&b, "group:") {
        return act_nonblank_of(&rest, Action::CreateGroup);
    }
    if let Some(rest) = strip_vec(&b, "join:") {
        return act_nonblank_of(&rest, Action::JoinGroup);
    }
    if let Some(rest) = strip_vec(&b, "leave:") {
        return act_nonblank_of(&rest, Action::LeaveGroup);
    }
    if let Some(rest) = strip_vec(&b, "broadcast:") {
        return match split_once_vec(&trim_start_vec(&rest), ' ') {
            Some((g, m)) => if g.len() > 0 && m.len() > 0 {
                InputCommand::Pair { kind: PairKind::Broadcast, first: text(&g), second: text(&m) }
            } else {
                InputCommand::Nothing
            },
            None => InputCommand::Nothing,
        };
    }
    if let Some(rest) = strip_vec(&b, "create:") {
        if rest.len() == 0 {
            return InputCommand::Nothing;
        }
        return match split_once_vec(&rest, ':') {
            Some((wt, cmd)) => if cmd.len() > 0 {
                InputCommand::Create { worktree: Some(text(&wt)), command: text(&cmd) }
            } else {
                InputCommand::Create { worktree: None, command: text(&rest) }
            },
            None => InputCommand::Create { worktree: None, command: text(&rest) },
        };
    }
    if let Some(rest) = strip_vec(&b, "config:") {
        return config_form_of(&rest);
    }
    if let Some((id, body)) = after_split_of(&b, "reply:", ' ') {
        if body.len() == 0 {
            return InputCommand::Nothing;
        }
        return InputCommand::Pair { kind: PairKind::Reply, first: text(&id), second: text(&body) };
    }
    if let Some(rest) = strip_vec(&b, "tag:") {
        return tag_form_of(&rest);
    }
    if let Some((hs, m)) = after_split_of(&b, "batch:", ' ') {
        if m.len() == 0 {
            return InputCommand::Nothing;
        }
        let comma = vec![','];
        assert(comma@ =~= seq![',']);
        let pieces = split_on(&hs, &comma);
        let ghost pv = split_sep(hs@, seq![',']);
        let mut handles: Vec<String> = Vec::new();
        let mut i: usize = 0;
        while i < pieces.len()
            invariant
                i <= pieces@.len(),
                pieces@.len() == pv.len(),
                forall|k: int| 0 <= k < pieces@.len() ==> #[trigger] pieces@[k]@ == pv[k],
                handles@.len() == i,
                forall|k: int| 0 <= k < i ==> #[trigger] handles@[k]@ == trim_seq(pv[k]),
            decreases pieces.len() - i,
        {
            handles.push(text(&trim_vec(&pieces[i])));
            i += 1;
        }
        assert(views(handles@) =~= Seq::new(pv.len(), |k: int| trim_seq(pv[k])));
        return InputCommand::Batch { handles, message: text(&m) };
    }
    if let Some((t, m)) = after_split_of(&b, "tagged:", ' ') {
        let tag = trim_vec(&t);
        if tag.len() == 0 || m.len() == 0 {
            return InputCommand::Nothing;
        }
        return InputCommand::Pair { kind: PairKind::Tagged, first: text(&tag), second: text(&m) };
    }
    if let Some(rest) = strip_vec(&b, "snip:") {
        return named_form_of(&rest, Named::Snippet, Usage::Snippet);
    }
    if let Some(rest) = strip_vec(&b, "run:") {
        return InputCommand::Act { action: Action::RunSnippet, arg: text(&trim_vec(&rest)) };
    }
    if let Some(rest) = strip_vec(&b, "rule:") {
        return rule_form_of(&rest);
    }
    if let Some(rest) = strip_vec(&b, "macro:") {
        return macro_form_of(&rest);
    }
    if let Some(rest) = strip_vec(&b, "view:") {
        return view_form_of(&rest);
    }
    if let Some(rest) = strip_vec(&b, "note:") {
        return named_form_of(&rest, Named::Note, Usage::Note);
    }
    if let Some(rest) = strip_vec(&b, "export:") {
        let p = trim_vec(&rest);
        return if p.len() == 0 { InputCommand::Usage(Usage::Export) } else { InputCommand::Act { action: Action::Export, arg: text(&p) } };
    }
    if let Some(rest) = strip_vec(&b, "import:") {
        let p = trim_vec(&rest);
        return if p.len() == 0 { InputCommand::Usage(Usage::Import) } else { InputCommand::Act { action: Action::Import, arg: text(&p) } };
    }
    if let Some(rest) = strip_vec(&b, "alias:") {
        return named_form_of(&rest, Named::Alias, Usage::Alias);
    }
    if let Some(rest) = strip_vec(&b, "hotkey:") {
        return hotkey_form_of(&rest);
    }
    if let Some(rest) = strip_vec(&b, "theme:") {
        return theme_form_of(&rest);
    }
    if let Some(rest) = strip_vec(&b, "watch:") {
        let h = trim_vec(&rest);
        return if h.len() > 0 { InputCommand::Act { action: Action::Watch, arg: text(&h) } } else { InputCommand::Usage(Usage::Watch) };
    }
    InputCommand::Nothing
}

} // verus!
