use hub_tui::dispatch::apply_input;
use hub_tui::input::{parse_input, Action, Bare, InputCommand, Invalid, Named, PairKind, Usage};
use hub_tui::model::AlertRuleType;
use hub_tui::store::Model;
use hub_tui::update::{expand_alias, Cmd};

fn pair(c: &InputCommand) -> Option<(PairKind, String, String)> {
    match c {
        InputCommand::Pair { kind, first, second } => Some((*kind, first.clone(), second.clone())),
        _ => None,
    }
}

#[test]
fn parse_send_and_pty() {
    assert_eq!(pair(&parse_input("to:term_a hello there")), Some((PairKind::Send, "term_a".to_string(), "hello there".to_string())));
    match parse_input("pty:term_b ls -la") {
        InputCommand::Pty { handle, text, ascii } => {
            assert_eq!(handle, "term_b");
            assert_eq!(text, "ls -la");
            assert!(ascii);
        }
        other => panic!("unexpected {:?}", other),
    }
    match parse_input("pty:term_b héllo") {
        InputCommand::Pty { ascii, .. } => assert!(!ascii),
        other => panic!("unexpected {:?}", other),
    }
    // no space after the handle: nothing
    assert!(matches!(parse_input("to:term_a"), InputCommand::Nothing));
}

#[test]
fn parse_chain_segments() {
    match parse_input("chain:to:a x |  | snip:rm:y ") {
        InputCommand::Chain { segments, count } => {
            assert_eq!(count, 3);
            assert_eq!(segments, vec!["to:a x".to_string(), "snip:rm:y".to_string()]);
        }
        other => panic!("unexpected {:?}", other),
    }
    assert!(matches!(parse_input("chain:only one"), InputCommand::Usage(Usage::Chain)));
}

#[test]
fn parse_config_forms() {
    assert_eq!(pair(&parse_input("config: sort = by-name ")), Some((PairKind::Config, "sort".to_string(), "by-name".to_string())));
    assert!(matches!(parse_input("config:refresh_interval_ms=abc"), InputCommand::Usage(Usage::ConfigNotNumber)));
    assert!(matches!(parse_input("config:refresh_interval_ms=+250"), InputCommand::Pair { kind: PairKind::Config, .. }));
    assert!(matches!(parse_input("config:=1"), InputCommand::Usage(Usage::ConfigEmptyKey)));
    assert!(matches!(parse_input("config:nope"), InputCommand::Usage(Usage::ConfigFormat)));
    match parse_input("config:color=red") {
        InputCommand::Invalid { kind: Invalid::ConfigKey, text } => assert_eq!(text, "color"),
        other => panic!("unexpected {:?}", other),
    }
}

#[test]
fn parse_tag_forms() {
    assert_eq!(pair(&parse_input("tag:add:term_a frontend")), Some((PairKind::TagAdd, "term_a".to_string(), "frontend".to_string())));
    assert_eq!(pair(&parse_input("tag:rm:term_a frontend ")), Some((PairKind::TagRemove, "term_a".to_string(), "frontend".to_string())));
    assert_eq!(pair(&parse_input("tag:term_a backend")), Some((PairKind::TagAdd, "term_a".to_string(), "backend".to_string())));
    assert!(matches!(parse_input("tag:term_a"), InputCommand::Usage(Usage::Tag)));
}

#[test]
fn parse_rules() {
    assert!(matches!(parse_input("rule:rm: -42 "), InputCommand::RemoveRule { id: -42 }));
    assert!(matches!(parse_input("rule:rm:x"), InputCommand::Nothing));
    match parse_input("rule:add state:Error") {
        InputCommand::AddRule { rule_type, value } => {
            assert_eq!(rule_type, AlertRuleType::State);
            assert_eq!(value, "Error");
        }
        other => panic!("unexpected {:?}", other),
    }
    assert!(matches!(parse_input("rule:add message"), InputCommand::AddRule { rule_type: AlertRuleType::Message, .. }));
    assert!(matches!(parse_input("rule:add colour:red"), InputCommand::Usage(Usage::RuleAdd)));
    assert!(matches!(parse_input("rule:what"), InputCommand::Usage(Usage::Rule)));
}

#[test]
fn parse_named_forms() {
    match parse_input("snip:greet to:term_abc Hello") {
        InputCommand::Store { kind: Named::Snippet, name, text } => {
            assert_eq!(name, "greet");
            assert_eq!(text, "to:term_abc Hello");
        }
        other => panic!("unexpected {:?}", other),
    }
    assert!(matches!(parse_input("snip:rm:greet"), InputCommand::Remove { kind: Named::Snippet, .. }));
    assert!(matches!(parse_input("snip:lonely"), InputCommand::Usage(Usage::Snippet)));
    assert!(matches!(parse_input("hotkey:x to:a hi"), InputCommand::Store { kind: Named::Hotkey, .. }));
    assert!(matches!(parse_input("hotkey:xy to:a hi"), InputCommand::Invalid { kind: Invalid::HotkeyKey, .. }));
    assert!(matches!(parse_input("macro:stop"), InputCommand::Bare(Bare::StopMacro)));
    assert!(matches!(parse_input("view: list "), InputCommand::Bare(Bare::ListViews)));
    assert!(matches!(parse_input("macro:list "), InputCommand::Usage(Usage::Macro)));
    assert!(matches!(parse_input("export:  "), InputCommand::Usage(Usage::Export)));
    assert!(matches!(parse_input("watch:term_a"), InputCommand::Act { action: Action::Watch, .. }));
}

#[test]
fn parse_create_and_batch() {
    match parse_input("create:wt1:bash") {
        InputCommand::Create { worktree, command } => {
            assert_eq!(worktree.as_deref(), Some("wt1"));
            assert_eq!(command, "bash");
        }
        other => panic!("unexpected {:?}", other),
    }
    match parse_input("create:bash:") {
        InputCommand::Create { worktree, command } => {
            assert!(worktree.is_none());
            assert_eq!(command, "bash:");
        }
        other => panic!("unexpected {:?}", other),
    }
    match parse_input("batch:a,b,,c hi all") {
        InputCommand::Batch { handles, message } => {
            assert_eq!(handles, vec!["a".to_string(), "b".to_string(), "".to_string(), "c".to_string()]);
            assert_eq!(message, "hi all");
        }
        other => panic!("unexpected {:?}", other),
    }
}

#[test]
fn parse_theme() {
    assert_eq!(pair(&parse_input("theme:accent #ff0000")), Some((PairKind::Theme, "accent".to_string(), "#ff0000".to_string())));
    assert_eq!(pair(&parse_input("theme:bg reset")), Some((PairKind::Theme, "bg".to_string(), "reset".to_string())));
    assert!(matches!(parse_input("theme:accent notacolour"), InputCommand::Invalid { kind: Invalid::ThemeColor, .. }));
    assert!(matches!(parse_input("theme:nope red"), InputCommand::Invalid { kind: Invalid::ThemeKey, .. }));
}

#[test]
fn snippet_save_and_run_on_model() {
    let mut model = Model::new();
    let cmds = apply_input(&mut model, parse_input("snip:greet to:term_abc Hello"), "", &Vec::new(), 1);
    assert!(model.get_snippet("greet").is_some());
    assert!(cmds.iter().any(|c| matches!(c, Cmd::PersistSnippet { .. })));
    match parse_input("run:greet") {
        InputCommand::Act { action: Action::RunSnippet, arg } => {
            assert_eq!(model.get_snippet(&arg).map(|s| s.as_str()), Some("to:term_abc Hello"));
        }
        other => panic!("unexpected {:?}", other),
    }
}

#[test]
fn join_needs_own_handle() {
    let mut model = Model::new();
    let none = apply_input(&mut model, parse_input("join:team"), "", &Vec::new(), 1);
    assert!(none.is_empty());
    let cmds = apply_input(&mut model, parse_input("join:team"), "term_me", &Vec::new(), 1);
    assert_eq!(cmds.len(), 2);
    assert!(model.in_group("team", "term_me"));
    let _ = apply_input(&mut model, parse_input("leave:team"), "term_me", &Vec::new(), 1);
    assert!(model.group_members("team").is_none());
}

#[test]
fn tagged_sends_to_tagged_agents() {
    let mut model = Model::new();
    model.add_tag("a", "fe");
    model.add_tag("b", "be");
    model.add_tag("c", "fe");
    let cmds = apply_input(&mut model, parse_input("tagged:fe ship it"), "", &Vec::new(), 1);
    let tos: Vec<String> = cmds
        .iter()
        .map(|c| match c {
            Cmd::OrchestrationSend { to, subject, .. } => {
                assert_eq!(subject, "ship it");
                to.clone()
            }
            other => panic!("unexpected {:?}", other),
        })
        .collect();
    assert_eq!(tos, vec!["a".to_string(), "c".to_string()]);
}

#[test]
fn inject_goes_to_each_selected() {
    let mut model = Model::new();
    let sel = vec!["x".to_string(), "y".to_string()];
    let cmds = apply_input(&mut model, parse_input("inject: make test "), "", &sel, 1);
    assert_eq!(cmds.len(), 2);
    assert!(matches!(&cmds[1], Cmd::TerminalSend { handle, text } if handle == "y" && text == "make test"));
    assert!(apply_input(&mut model, parse_input("inject:go"), "", &Vec::new(), 1).is_empty());
}

#[test]
fn alias_expands_first_word() {
    let mut model = Model::new();
    model.add_alias("gg", "to:term_a");
    assert_eq!(expand_alias(&model, "gg hello".to_string()), "to:term_a hello");
    assert_eq!(expand_alias(&model, "hello gg".to_string()), "hello gg");
    assert_eq!(expand_alias(&model, "gg".to_string()), "to:term_a");
}

#[test]
fn alias_keeps_leading_whitespace() {
    let mut model = Model::new();
    model.add_alias("gs", "git status");
    assert_eq!(expand_alias(&model, " gs -v".to_string()), " git status -v");
    assert_eq!(expand_alias(&model, "\t gs".to_string()), "\t git status");
}

#[test]
fn watch_toggles_and_persists() {
    let mut model = Model::new();
    let c1 = apply_input(&mut model, parse_input("watch:term_a"), "", &Vec::new(), 1);
    assert!(matches!(&c1[0], Cmd::PersistWatchAdd { .. }));
    let c2 = apply_input(&mut model, parse_input("watch:term_a"), "", &Vec::new(), 1);
    assert!(matches!(&c2[0], Cmd::PersistWatchRemove { .. }));
    assert!(!model.is_watched("term_a"));
}
