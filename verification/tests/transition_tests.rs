use hub_tui::model::{Agent, AlertRule, AlertRuleType, EventCategory, EventSeverity, StatusCategory};
use hub_tui::store::Model;
use hub_tui::strmap::StrMap;
use hub_tui::transitions::{record_transitions_at, status_transitions_at, transition_notices, transition_severity,
    transition_text, Transition};
use hub_tui::update::Cmd;

fn agent_in(handle: &str, state: Option<&str>) -> Agent {
    Agent {
        handle: handle.to_string(),
        pty_id: None,
        cwd: "/w".to_string(),
        worktree_id: String::new(),
        branch: String::new(),
        tab_id: String::new(),
        leaf_id: String::new(),
        pane_key: String::new(),
        title: None,
        connected: true,
        writable: true,
        source: None,
        state: state.map(|s| s.to_string()),
        prompt: None,
        tool_name: None,
        tool_input: None,
        last_assistant_msg: None,
        preview: None,
        last_output_at: None,
    }
}

fn dir(entries: &[(&str, Option<&str>)]) -> StrMap<Agent> {
    let mut m = StrMap::new();
    for (h, s) in entries {
        m.insert(h.to_string(), agent_in(h, *s));
    }
    m
}

#[test]
fn transitions_report_changed_categories_in_order() {
    let before = dir(&[("a", Some("running")), ("b", Some("done")), ("c", None)]);
    let after = dir(&[("c", Some("error")), ("a", Some("waiting")), ("b", Some("idle")), ("d", Some("error"))]);
    let ts = status_transitions_at(&before, &after, 0);
    assert_eq!(ts.len(), 2);
    assert_eq!(ts[0].handle, "c");
    assert_eq!(ts[0].old, StatusCategory::Unknown);
    assert_eq!(ts[0].new, StatusCategory::Error);
    assert_eq!(ts[1].handle, "a");
    assert_eq!(ts[1].old, StatusCategory::Working);
    assert_eq!(ts[1].new, StatusCategory::Waiting);
}

#[test]
fn transitions_none_when_nothing_changed() {
    let before = dir(&[("a", Some("running"))]);
    let after = dir(&[("a", Some("busy"))]);
    assert!(status_transitions_at(&before, &after, 0).is_empty());
}

#[test]
fn recent_output_counts_as_working() {
    let before = dir(&[("a", Some("done"))]);
    let mut after = dir(&[]);
    let mut a = agent_in("a", Some("done"));
    a.last_output_at = Some(1_000);
    after.insert("a".to_string(), a);
    let ts = status_transitions_at(&before, &after, 5_000);
    assert_eq!(ts.len(), 1);
    assert_eq!(ts[0].new, StatusCategory::Working);
}

#[test]
fn transition_severity_and_text() {
    assert_eq!(transition_severity(StatusCategory::Error), EventSeverity::Warn);
    assert_eq!(transition_severity(StatusCategory::Blocked), EventSeverity::Warn);
    assert_eq!(transition_severity(StatusCategory::Done), EventSeverity::Info);
    let t = Transition { handle: "term_x".to_string(), old: StatusCategory::Working, new: StatusCategory::Unknown };
    assert_eq!(transition_text(&t), "term_x: Working → No Status");
}

#[test]
fn transition_notices_pin_watch_and_rules() {
    let mut m = Model::new();
    m.toggle_pin("a");
    m.toggle_watch("a");
    m.add_alert_rule(AlertRule { id: 0, rule_type: AlertRuleType::State, value: "error".to_string(), created_at_ms: 0 });
    m.add_alert_rule(AlertRule { id: 0, rule_type: AlertRuleType::Severity, value: "WARN".to_string(), created_at_ms: 0 });
    m.add_alert_rule(AlertRule { id: 0, rule_type: AlertRuleType::Source, value: "b".to_string(), created_at_ms: 0 });
    m.add_alert_rule(AlertRule { id: 0, rule_type: AlertRuleType::Message, value: String::new(), created_at_ms: 0 });
    let t = Transition { handle: "a".to_string(), old: StatusCategory::Working, new: StatusCategory::Error };
    let n = transition_notices(&m, &t);
    assert_eq!(n, vec![
        "📌 a → Error".to_string(),
        "👁 a → Error".to_string(),
        "🔔 alert: state:error".to_string(),
        "🔔 alert: severity:WARN".to_string(),
    ]);
    let other = Transition { handle: "b".to_string(), old: StatusCategory::Error, new: StatusCategory::Done };
    assert_eq!(transition_notices(&m, &other), vec!["🔔 alert: source:b".to_string()]);
}

#[test]
fn record_transitions_logs_each_change() {
    let mut m = Model::new();
    let ts = vec![
        Transition { handle: "a".to_string(), old: StatusCategory::Working, new: StatusCategory::Blocked },
        Transition { handle: "b".to_string(), old: StatusCategory::Unknown, new: StatusCategory::Done },
    ];
    let g = m.generation;
    let cs = record_transitions_at(&mut m, &ts, 42);
    assert_eq!(cs.len(), 2);
    assert_eq!(m.generation, g + 2);
    assert_eq!(m.events.len(), 2);
    assert_eq!(m.events[0].text, "a: Working → Blocked");
    assert_eq!(m.events[0].severity, EventSeverity::Warn);
    assert_eq!(m.events[0].category, EventCategory::State);
    assert_eq!(m.events[0].source, "a");
    assert_eq!(m.events[1].text, "b: No Status → Done");
    assert_eq!(m.events[1].severity, EventSeverity::Info);
    assert_eq!(m.events[1].timestamp_ms, 42);
    match &cs[1] {
        Cmd::PersistActivityEvent(e) => assert_eq!(e.text, "b: No Status → Done"),
        _ => panic!("expected an activity event"),
    }
}
