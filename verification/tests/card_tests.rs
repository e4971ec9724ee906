use hub_tui::card::{card_lines, card_parts, word_wrap};
use hub_tui::help::cheatsheet;
use hub_tui::line::dispatch_line;
use hub_tui::model::{Agent, RecordedMacro, StatusCategory, SNIPPETS_CAP};
use hub_tui::render::{state_tone, StateTone};
use hub_tui::shell::Shell;
use hub_tui::store::Model;

fn agent(handle: &str, cwd: &str) -> Agent {
    Agent {
        handle: handle.to_string(),
        pty_id: None,
        cwd: cwd.to_string(),
        worktree_id: String::new(),
        branch: String::new(),
        tab_id: "tab1".to_string(),
        leaf_id: "leaf9".to_string(),
        pane_key: "stale".to_string(),
        title: None,
        connected: true,
        writable: true,
        source: None,
        state: None,
        prompt: None,
        tool_name: None,
        tool_input: None,
        last_assistant_msg: None,
        preview: None,
        last_output_at: None,
    }
}

fn strings(v: &[&str]) -> Vec<String> {
    v.iter().map(|s| s.to_string()).collect()
}

#[test]
fn wrap_joins_words_that_fit() {
    assert_eq!(word_wrap("hello world foo", 11), strings(&["hello world", "foo"]));
}

#[test]
fn wrap_breaks_a_long_word() {
    assert_eq!(word_wrap("abcdefghij", 4), strings(&["abcd", "efgh", "ij"]));
}

#[test]
fn wrap_keeps_blank_lines() {
    assert_eq!(word_wrap("a b\n\nc", 10), strings(&["a b", "", "c"]));
}

#[test]
fn wrap_edges() {
    assert_eq!(word_wrap("", 10), strings(&[""]));
    assert_eq!(word_wrap("x  y", 0), strings(&["x  y"]));
    assert_eq!(word_wrap("  a   b  ", 10), strings(&["a b"]));
}

#[test]
fn wrap_counts_wide_characters() {
    assert_eq!(word_wrap("ab \u{4e16}\u{754c}x", 3), strings(&["ab", "\u{4e16}", "\u{754c}x"]));
}

#[test]
fn card_rows_of_an_idle_agent() {
    let mut a = agent("term_abcdef1234", "/home/u/projects/hub");
    a.state = Some("idle".to_string());
    a.last_assistant_msg = Some("  hello world  ".to_string());
    a.tool_name = Some("Bash".to_string());
    a.tool_input = Some(" ls -la ".to_string());
    let rows = card_lines(&a, 1_000_000, 40, 0, None);
    assert_eq!(rows.len(), 9);
    assert_eq!(rows[0], format!(" abcdef12 {} \u{279c} ", " ".repeat(27)));
    assert_eq!(rows[1], format!("\u{258c} hello world{}", " ".repeat(27)));
    assert_eq!(rows[2], format!("\u{258c}{}", " ".repeat(39)));
    assert_eq!(rows[5], format!("\u{258c}{}", " ".repeat(39)));
    assert_eq!(rows[6], format!("\u{258c} \u{1f527}Bash ls -la{}", " ".repeat(25)));
    assert_eq!(rows[7], format!("\u{258c} v Done last:- \u{b7} \u{2026}/u/projects/hub{}", " ".repeat(6)));
    assert_eq!(rows[8], " ".repeat(40));
}

#[test]
fn card_of_a_working_agent_spins_and_falls_back_to_the_prompt() {
    let mut a = agent("h1", "/srv");
    a.state = Some("running".to_string());
    a.prompt = Some(" fix it ".to_string());
    a.last_output_at = Some(1_000);
    let p = card_parts(&a, 6_000, 30, 3, None);
    assert_eq!(p.icon, "\u{2838}");
    assert_eq!(p.label, "Working");
    assert_eq!(p.last, "last:5s");
    assert_eq!(p.recap, strings(&["fix it"]));
    assert_eq!(p.tool_label, "");
    assert_eq!(p.tool_input, "");
    assert_eq!(p.cwd, "srv");
}

#[test]
fn card_recap_falls_back_to_the_preview() {
    let mut a = agent("h2", "/srv");
    a.preview = Some("first\nlast line\n\u{2500}\u{2500}\n".to_string());
    let p = card_parts(&a, 0, 30, 0, None);
    assert_eq!(p.recap, strings(&["last line"]));
    assert_eq!(p.label, "No Status");
}

#[test]
fn no_state_is_unknown() {
    let a = agent("h3", "/srv");
    assert_eq!(StatusCategory::from_agent_at(&a, 0), StatusCategory::Unknown);
}

#[test]
fn state_tones() {
    assert_eq!(state_tone(Some("running")), StateTone::Working);
    assert_eq!(state_tone(Some("failed")), StateTone::Error);
    assert_eq!(state_tone(Some("idle")), StateTone::Idle);
    assert_eq!(state_tone(Some("Idle")), StateTone::Muted);
    assert_eq!(state_tone(None), StateTone::Muted);
}

#[test]
fn apply_agents_sets_the_pane_key() {
    let mut m = Model::new();
    m.apply_agents(vec![agent("h1", "/srv")]);
    assert_eq!(m.directory.get("h1").unwrap().pane_key, "tab1:leaf9");
}

#[test]
fn snippet_limit_refuses_a_new_name_but_not_an_overwrite() {
    let mut model = Model::new();
    let mut shell = Shell::new();
    for i in 0..SNIPPETS_CAP {
        model.add_snippet(&format!("s{i}"), "x");
    }
    assert_eq!(model.snippets.len(), 100);
    let cmds = dispatch_line(&mut model, &mut shell, "snip:extra to:a hi".to_string(), 0, "me", 1);
    assert!(cmds.is_empty());
    assert!(!model.snippets.contains_key("extra"));
    assert_eq!(shell.text.toasts.last().unwrap().0, "snippet limit (100) reached");
    model.add_snippet("s5", "y");
    assert_eq!(model.snippets.get("s5").unwrap(), "y");
    assert_eq!(model.snippets.len(), 100);
}

#[test]
fn resaved_macro_is_evicted_last() {
    let mut m = Model::new();
    for i in 0..50 {
        m.add_macro(RecordedMacro { name: format!("m{i}"), key_events_json: "[]".to_string(), created_at_ms: i });
    }
    m.add_macro(RecordedMacro { name: "m0".to_string(), key_events_json: "[1]".to_string(), created_at_ms: 100 });
    m.add_macro(RecordedMacro { name: "m50".to_string(), key_events_json: "[]".to_string(), created_at_ms: 101 });
    assert_eq!(m.macros.len(), 50);
    assert!(m.macros.contains_key("m0"));
    assert!(!m.macros.contains_key("m1"));
    assert!(m.macros.contains_key("m50"));
}

#[test]
fn cheatsheet_sections() {
    let c = cheatsheet();
    assert_eq!(c.keys.len(), 14);
    assert_eq!(c.commands.len(), 52);
    assert_eq!(c.prefixes.len(), 9);
    assert_eq!(c.keys[13], ("?".to_string(), "Toggle this help".to_string()));
}
