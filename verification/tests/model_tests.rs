use hub_tui::alerts::{check_alert_rules, CheckContext};
use hub_tui::model::{Agent, AlertRule, AlertRuleType};
use hub_tui::store::Model;

fn agent(handle: &str, cwd: &str) -> Agent {
    Agent {
        handle: handle.to_string(),
        pty_id: None,
        cwd: cwd.to_string(),
        worktree_id: String::new(),
        branch: String::new(),
        tab_id: String::new(),
        leaf_id: String::new(),
        pane_key: String::new(),
        title: None,
        connected: true,
        writable: true,
        source: None,
        state: None,
        prompt: None,
        tool_name: None,
        tool_input: None,
        last_assistant_msg: None,
        preview: None,
        last_output_at: None,
    }
}

#[test]
fn tag_add_and_remove() {
    let mut model = Model::new();
    model.directory.insert("term_a".to_string(), agent("term_a", "/tmp"));
    model.add_tag("term_a", "frontend");
    assert!(model.has_tag("term_a", "frontend"));
    model.remove_tag("term_a", "frontend");
    assert!(!model.has_tag("term_a", "frontend"));
}

#[test]
fn alert_rule_state_match() {
    let mut model = Model::new();
    model.add_alert_rule(AlertRule {
        id: 1,
        rule_type: AlertRuleType::State,
        value: "Error".to_string(),
        created_at_ms: 0,
    });
    let ctx = CheckContext { new_state: Some("Error"), ..Default::default() };
    let toasts = check_alert_rules(&model.alert_rules, &ctx);
    assert_eq!(toasts.len(), 1);
    let ctx2 = CheckContext { new_state: Some("Done"), ..Default::default() };
    assert!(check_alert_rules(&model.alert_rules, &ctx2).is_empty());
}

#[test]
fn pin_toggle_twice_restores() {
    let mut model = Model::new();
    assert!(!model.is_pinned("term_a"));
    model.toggle_pin("term_a");
    assert!(model.is_pinned("term_a"));
    model.toggle_pin("term_a");
    assert!(!model.is_pinned("term_a"));
}

#[test]
fn watch_toggle_twice_restores() {
    let mut model = Model::new();
    model.toggle_watch("term_b");
    assert!(model.is_watched("term_b"));
    model.toggle_watch("term_b");
    assert!(!model.is_watched("term_b"));
}

#[test]
fn snippet_add_get_remove() {
    let mut model = Model::new();
    model.add_snippet("greet", "to:term_abc Hello");
    assert_eq!(model.get_snippet("greet").map(|s| s.as_str()), Some("to:term_abc Hello"));
    model.add_snippet("greet", "to:term_abc Bye");
    assert_eq!(model.get_snippet("greet").map(|s| s.as_str()), Some("to:term_abc Bye"));
    model.remove_snippet("greet");
    assert!(model.get_snippet("greet").is_none());
}

#[test]
fn group_join_and_leave() {
    let mut model = Model::new();
    model.join_group("team", "term_a");
    model.join_group("team", "term_b");
    assert!(model.in_group("team", "term_a"));
    assert_eq!(model.group_members("team").unwrap(), vec!["term_a".to_string(), "term_b".to_string()]);
    assert!(model.leave_group("team", "term_a"));
    assert!(!model.in_group("team", "term_a"));
    assert!(model.leave_group("team", "term_b"));
    assert!(model.group_members("team").is_none());
    assert!(!model.leave_group("team", "term_b"));
}

#[test]
fn last_tag_removed_drops_handle() {
    let mut model = Model::new();
    model.add_tag("h", "x");
    model.add_tag("h", "y");
    model.remove_tag("h", "x");
    assert!(model.has_tag("h", "y"));
    model.remove_tag("h", "y");
    assert!(model.tags.get("h").is_none());
}
