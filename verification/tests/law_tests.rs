use hub_tui::command::fuzzy_match;
use hub_tui::dashboard::compute_snapshot_at;
use hub_tui::directory::directory_sorted_at;
use hub_tui::model::{Agent, SortMode};
use hub_tui::store::Model;
use hub_tui::strmap::{StrMap, StrSet};

fn agent(handle: &str, title: &str, state: Option<&str>) -> Agent {
    Agent {
        handle: handle.to_string(),
        pty_id: None,
        cwd: "/w".to_string(),
        worktree_id: String::new(),
        branch: String::new(),
        tab_id: String::new(),
        leaf_id: String::new(),
        pane_key: String::new(),
        title: Some(title.to_string()),
        connected: true,
        writable: true,
        source: None,
        state: state.map(|s| s.to_string()),
        prompt: None,
        tool_name: None,
        tool_input: None,
        last_assistant_msg: None,
        preview: None,
        last_output_at: None,
    }
}

#[test]
fn fuzzy_match_survives_a_longer_target() {
    assert!(fuzzy_match("AB", "xaxb"));
    assert!(fuzzy_match("AB", "xaxbzz"));
    assert!(!fuzzy_match("ba", "xaxb"));
    assert!(fuzzy_match("", ""));
}

#[test]
fn pinned_handles_come_first_in_name_order() {
    let mut d = StrMap::new();
    d.insert("a".to_string(), agent("a", "alpha", None));
    d.insert("b".to_string(), agent("b", "beta", None));
    d.insert("c".to_string(), agent("c", "gamma", None));
    d.insert("d".to_string(), agent("d", "delta", None));
    let mut pins = StrSet::new();
    pins.insert("c".to_string());
    pins.insert("b".to_string());
    let r = directory_sorted_at(&d, SortMode::ByName, &pins, 0);
    assert_eq!(r, vec!["b".to_string(), "c".to_string(), "a".to_string(), "d".to_string()]);
}

#[test]
fn snapshot_counts_add_up() {
    let mut m = Model::new();
    m.apply_agents(vec![
        agent("a", "a", Some("running")),
        agent("b", "b", Some("idle")),
        agent("c", "c", None),
        agent("d", "d", Some("blocked")),
    ]);
    let s = compute_snapshot_at(&m, 0);
    let total: usize = s.status_counts.iter().map(|(_, n)| n).sum();
    assert_eq!(total, s.agent_total);
    assert_eq!(s.agent_total, 4);
    assert_eq!(s.status_counts[5].1, 1);
    assert_eq!(s.message_total, 0);
    let sev: usize = s.event_by_severity.iter().map(|(_, n)| n).sum();
    assert_eq!(sev, s.event_total);
}

#[test]
fn pinned_order_is_the_unpinned_order_split() {
    let mut d = StrMap::new();
    for (h, t) in [("a", "kilo"), ("b", "alpha"), ("c", "zulu"), ("d", "echo"), ("e", "mike")] {
        d.insert(h.to_string(), agent(h, t, None));
    }
    let none = StrSet::new();
    let mut pins = StrSet::new();
    pins.insert("e".to_string());
    pins.insert("b".to_string());
    let b = directory_sorted_at(&d, SortMode::ByName, &none, 0);
    assert_eq!(b, vec!["b", "d", "a", "e", "c"]);
    let r = directory_sorted_at(&d, SortMode::ByName, &pins, 0);
    let mut split: Vec<String> = b.iter().filter(|h| pins.contains(h)).cloned().collect();
    split.extend(b.iter().filter(|h| !pins.contains(h)).cloned());
    assert_eq!(r, split);
    assert_eq!(r, vec!["b", "e", "d", "a", "c"]);
}
