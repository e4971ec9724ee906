//! The cheatsheet overlay's content: the key bindings, the palette's
//! commands and the input prefixes, each as a (key, description) row.
use vstd::prelude::*;
use crate::command::{Command, command_catalog, builtin_commands};

verus! {

broadcast use vstd::string::group_string_axioms;

/// Rows as plain text pairs.
pub open spec fn pairs_view(v: Seq<(String, String)>) -> Seq<(Seq<char>, Seq<char>)> {
    Seq::new(v.len(), |i: int| (v[i].0@, v[i].1@))
}

/// The key bindings of the main view.
pub open spec fn keybinding_rows() -> Seq<(Seq<char>, Seq<char>)> {
    seq![
        ("j/k ↓↑"@, "Navigate list"@),
        ("i"@, "Enter input mode"@),
        ("g"@, "Cycle tabs (Dir→Groups→Msg)"@),
        ("s"@, "Switch to selected agent"@),
        ("p"@, "PTY inject to selected agent"@),
        ("Enter"@, "Select agent / send message"@),
        ("Tab"@, "Switch tab / Autocomplete (insert)"@),
        ("/"@, "Filter agents (Directory)"@),
        ("w"@, "Worktree overview"@),
        ("Ctrl-P / :"@, "Command palette"@),
        ("Ctrl-d / u"@, "Scroll half page"@),
        ("q / Ctrl-C"@, "Quit"@),
        ("Esc"@, "Exit insert mode / cancel"@),
        ("?"@, "Toggle this help"@)
    ]
}

/// The input prefixes, with what each does.
pub open spec fn prefix_rows() -> Seq<(Seq<char>, Seq<char>)> {
    seq![
        ("to:handle msg"@, "Send orchestration message"@),
        ("pty:handle txt"@, "Inject text to agent PTY"@),
        ("rename:h name"@, "Rename agent terminal"@),
        ("group:name"@, "Create group and join"@),
        ("join:name"@, "Join existing group"@),
        ("leave:name"@, "Leave group"@),
        ("broadcast:g msg"@, "Broadcast to group"@),
        ("create:cmd"@, "Create terminal in worktree"@),
        ("config:k=v"@, "Set configuration (refresh/theme/filter)"@)
    ]
}

/// A row per command: its name and its description.
pub open spec fn command_rows(cs: Seq<Command>) -> Seq<(Seq<char>, Seq<char>)> {
    Seq::new(cs.len(), |i: int| (cs[i].name@, cs[i].description@))
}

/// The three sections of the cheatsheet.
pub struct Cheatsheet {
    pub keys: Vec<(String, String)>,
    pub commands: Vec<(String, String)>,
    pub prefixes: Vec<(String, String)>,
}

fn row(k: &str, d: &str) -> (r: (String, String))
    ensures
        r.0@ == k@,
        r.1@ == d@,
{
    (k.to_owned(), d.to_owned())
}

fn key_rows() -> (r: Vec<(String, String)>)
    ensures
        pairs_view(r@) == keybinding_rows(),
{
    let r = vec![
        row("j/k ↓↑", "Navigate list"),
        row("i", "Enter input mode"),
        row("g", "Cycle tabs (Dir→Groups→Msg)"),
        row("s", "Switch to selected agent"),
        row("p", "PTY inject to selected agent"),
        row("Enter", "Select agent / send message"),
        row("Tab", "Switch tab / Autocomplete (insert)"),
        row("/", "Filter agents (Directory)"),
        row("w", "Worktree overview"),
        row("Ctrl-P / :", "Command palette"),
        row("Ctrl-d / u", "Scroll half page"),
        row("q / Ctrl-C", "Quit"),
        row("Esc", "Exit insert mode / cancel"),
        row("?", "Toggle this help")
    ];
    assert(pairs_view(r@) =~= keybinding_rows());
    r
}

fn input_rows() -> (r: Vec<(String, String)>)
    ensures
        pairs_view(r@) == prefix_rows(),
{
    let r = vec![
        row("to:handle msg", "Send orchestration message"),
        row("pty:handle txt", "Inject text to agent PTY"),
        row("rename:h name", "Rename agent terminal"),
        row("group:name", "Create group and join"),
        row("join:name", "Join existing group"),
        row("leave:name", "Leave group"),
        row("broadcast:g msg", "Broadcast to group"),
        row("create:cmd", "Create terminal in worktree"),
        row("config:k=v", "Set configuration (refresh/theme/filter)")
    ];
    assert(pairs_view(r@) =~= prefix_rows());
    r
}

/// The cheatsheet: key bindings, the palette's commands in palette order,
/// and the input prefixes.
pub fn cheatsheet() -> (r: Cheatsheet)
    ensures
        pairs_view(r.keys@) == keybinding_rows(),
        pairs_view(r.commands@) == command_rows(command_catalog()),
        pairs_view(r.prefixes@) == prefix_rows(),
{
    let cs = builtin_commands();
    let mut commands: Vec<(String, String)> = Vec::new();
    let mut i: usize = 0;
    while i < cs.len()
        invariant
            i <= cs.len(),
            cs@ == command_catalog(),
            commands@.len() == i,
            pairs_view(commands@) == command_rows(cs@.take(i as int)),
        decreases cs.len() - i,
    {
        let ghost before = commands@;
        let rw = row(cs[i].name, cs[i].description);
        commands.push(rw);
        assert(commands@ == before.push(rw));
        assert forall|j: int| 0 <= j <= i implies #[trigger] pairs_view(commands@)[j] == command_rows(cs@.take(i as int + 1))[j] by {
            if j < i {
                assert(pairs_view(before)[j] == command_rows(cs@.take(i as int))[j]);
                assert(commands@[j] == before[j]);
            }
        }
        assert(pairs_view(commands@) =~= command_rows(cs@.take(i as int + 1)));
        i += 1;
    }
    assert(cs@.take(cs.len() as int) =~= cs@);
    Cheatsheet { keys: key_rows(), commands, prefixes: input_rows() }
}

} // verus!
