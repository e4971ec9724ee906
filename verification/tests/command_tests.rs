use hub_tui::command::{autocomplete_suggestions, builtin_commands, filter_commands, fuzzy_match};
use hub_tui::model::Agent;
use hub_tui::store::Model;

fn test_agent(handle: &str) -> Agent {
    Agent {
        handle: handle.to_string(),
        pty_id: None,
        cwd: "/tmp".to_string(),
        worktree_id: String::new(),
        branch: String::new(),
        tab_id: String::new(),
        leaf_id: String::new(),
        pane_key: String::new(),
        title: None,
        connected: false,
        writable: false,
        source: None,
        state: None,
        prompt: None,
        tool_name: None,
        tool_input: None,
        last_assistant_msg: None,
        preview: None,
        last_output_at: None,
    }
}

#[test]
fn test_fuzzy_match_empty() {
    assert!(fuzzy_match("", "anything"));
}

#[test]
fn test_fuzzy_match_exact() {
    assert!(fuzzy_match("switch", "switch terminal"));
}

#[test]
fn test_fuzzy_match_subsequence() {
    assert!(fuzzy_match("swt", "switch terminal"));
    assert!(fuzzy_match("swtrm", "switch terminal"));
}

#[test]
fn test_fuzzy_match_case_insensitive() {
    assert!(fuzzy_match("SWITCH", "switch terminal"));
    assert!(fuzzy_match("Switch", "switch terminal"));
}

#[test]
fn test_fuzzy_match_no_match() {
    assert!(!fuzzy_match("xyz", "switch terminal"));
}

#[test]
fn test_filter_commands() {
    let results = filter_commands("sw");
    assert!(results.iter().any(|c| c.name == "switch terminal"));
}

#[test]
fn test_filter_commands_empty_returns_all() {
    let results = filter_commands("");
    assert_eq!(results.len(), builtin_commands().len());
}

#[test]
fn test_autocomplete_prefix_partial() {
    let m = Model::new();
    let sugs = autocomplete_suggestions("to", &m);
    assert!(sugs.iter().any(|s| s.insert == "to:"));
}

#[test]
fn test_autocomplete_empty_returns_nothing() {
    let m = Model::new();
    let sugs = autocomplete_suggestions("", &m);
    assert!(sugs.is_empty());
}

#[test]
fn test_autocomplete_exact_prefix_suggests_handles() {
    let mut m = Model::new();
    m.directory.insert("term_abc".to_string(), test_agent("term_abc"));
    let sugs = autocomplete_suggestions("to:abc", &m);
    assert!(sugs.iter().any(|s| s.insert.starts_with("to:term_abc")));
}

#[test]
fn test_autocomplete_macro_subcommands() {
    let m = Model::new();
    let sugs = autocomplete_suggestions("macro:", &m);
    assert!(sugs.iter().any(|s| s.insert == "macro:record:"));
    assert!(sugs.iter().any(|s| s.insert == "macro:run:"));
}

#[test]
fn builtin_commands_has_all_entries_in_order() {
    let all = builtin_commands();
    assert_eq!(all.len(), 52);
    assert_eq!(all[0].name, "switch terminal");
}

#[test]
fn fuzzy_match_order_matters() {
    assert!(!fuzzy_match("tw", "switch"));
    assert!(fuzzy_match("st", "switch terminal"));
}

#[test]
fn autocomplete_handle_suggestion_shape() {
    let mut m = Model::new();
    m.directory.insert("term_abc".to_string(), test_agent("term_abc"));
    let sugs = autocomplete_suggestions("pty:", &m);
    assert_eq!(sugs.len(), 1);
    assert_eq!(sugs[0].label, "pty:term_abc");
    assert_eq!(sugs[0].insert, "pty:term_abc ");
    assert_eq!(sugs[0].source, "agent");
}

#[test]
fn autocomplete_caps_at_eight() {
    let m = Model::new();
    // every prefix starts with a letter; "t" extends "to:", "tag:", "tagged:", "theme:"
    let sugs = autocomplete_suggestions("t", &m);
    assert_eq!(sugs.len(), 4);
    assert!(sugs.iter().all(|s| s.source == "prefix"));
    assert_eq!(sugs[0].label, "to:  [prefix]");
    let many = autocomplete_suggestions("r", &m);
    assert!(many.len() <= 8);
}

#[test]
fn autocomplete_tag_subcommands_then_handles() {
    let mut m = Model::new();
    m.directory.insert("term_x".to_string(), test_agent("term_x"));
    let sugs = autocomplete_suggestions("tag:", &m);
    assert_eq!(sugs[0].insert, "tag:add:");
    assert_eq!(sugs[1].insert, "tag:rm:");
    assert_eq!(sugs[2].insert, "tag:term_x ");
    let rm = autocomplete_suggestions("tag:rm:x", &m);
    assert_eq!(rm.len(), 1);
    assert_eq!(rm[0].insert, "tag:rm:term_x ");
}

#[test]
fn autocomplete_snippet_removal_names() {
    let mut m = Model::new();
    m.add_snippet("greet", "to:a hi");
    let sugs = autocomplete_suggestions("snip:rm:gr", &m);
    assert_eq!(sugs.len(), 1);
    assert_eq!(sugs[0].insert, "snip:rm:greet");
    assert_eq!(sugs[0].source, "snippet");
}

#[test]
fn autocomplete_unknown_prefix_with_colon_gives_nothing() {
    let m = Model::new();
    assert!(autocomplete_suggestions("zzz:", &m).is_empty());
}
