use hub_tui::keys::{KeyCode, KeyModifiers, KeyPress};
use hub_tui::model::{Agent, RecordedMacro};
use hub_tui::msg::AppMsg;
use hub_tui::palette::{action_for, Action};
use hub_tui::router::{handle_key, key_permitted};
use hub_tui::shell::{FocusTarget, Shell, Tab};
use hub_tui::store::Model;
use hub_tui::update::{update, Cmd};

const NOW: i64 = 1_000_000;

fn key(code: KeyCode) -> KeyPress {
    KeyPress { code, modifiers: KeyModifiers { shift: false, control: false, alt: false } }
}

fn ch(c: char) -> KeyPress {
    key(KeyCode::Char(c))
}

fn ctrl(c: char) -> KeyPress {
    KeyPress { code: KeyCode::Char(c), modifiers: KeyModifiers { shift: false, control: true, alt: false } }
}

fn press(model: &mut Model, shell: &mut Shell, k: KeyPress) -> Vec<Cmd> {
    assert!(key_permitted(model, shell, k));
    handle_key(model, shell, k, "me", NOW)
}

fn agent(handle: &str, cwd: &str) -> Agent {
    Agent {
        handle: handle.to_string(),
        pty_id: None,
        cwd: cwd.to_string(),
        worktree_id: format!("wt-{handle}"),
        branch: String::new(),
        tab_id: String::new(),
        leaf_id: String::new(),
        pane_key: String::new(),
        title: Some(format!("Title {handle}")),
        connected: true,
        writable: true,
        source: None,
        state: None,
        prompt: None,
        tool_name: None,
        tool_input: None,
        last_assistant_msg: None,
        preview: None,
        last_output_at: None,
    }
}

#[test]
fn palette_runs_the_command_under_its_cursor() {
    let mut model = Model::new();
    let mut shell = Shell::new();
    press(&mut model, &mut shell, ctrl('p'));
    assert!(shell.flags.palette_active);
    for c in "quit".chars() {
        press(&mut model, &mut shell, ch(c));
    }
    assert_eq!(shell.text.palette_query, "quit");
    let cmds = press(&mut model, &mut shell, key(KeyCode::Enter));
    assert!(matches!(cmds.as_slice(), [Cmd::Quit]));
    assert!(!shell.flags.palette_active);
    assert!(shell.text.palette_query.is_empty());
}

#[test]
fn palette_prefills_the_input_line() {
    let mut model = Model::new();
    let mut shell = Shell::new();
    press(&mut model, &mut shell, ch(':'));
    for c in "save snippet".chars() {
        press(&mut model, &mut shell, ch(c));
    }
    press(&mut model, &mut shell, key(KeyCode::Enter));
    assert!(shell.insert_mode);
    assert_eq!(shell.focus, FocusTarget::Input);
    assert_eq!(shell.text.input_buf, "snip:");
}

#[test]
fn palette_esc_closes_without_running() {
    let mut model = Model::new();
    let mut shell = Shell::new();
    press(&mut model, &mut shell, ctrl('p'));
    press(&mut model, &mut shell, ch('q'));
    let cmds = press(&mut model, &mut shell, key(KeyCode::Esc));
    assert!(cmds.is_empty());
    assert!(!shell.flags.palette_active);
}

#[test]
fn command_names_are_bound_to_actions() {
    assert!(matches!(action_for("theme light"), Some(Action::Theme(t)) if t == "light"));
    assert!(matches!(action_for("sort by name"), Some(Action::Sort(v)) if v == "by-name"));
    assert!(action_for("no such command").is_none());
}

#[test]
fn colon_is_typed_in_input_mode() {
    let mut model = Model::new();
    let mut shell = Shell::new();
    press(&mut model, &mut shell, ch('i'));
    press(&mut model, &mut shell, ch('t'));
    press(&mut model, &mut shell, ch(':'));
    assert!(!shell.flags.palette_active);
    assert_eq!(shell.text.input_buf, "t:");
}

#[test]
fn focus_mode_needs_picked_agents() {
    let mut model = Model::new();
    let mut shell = Shell::new();
    press(&mut model, &mut shell, ch('f'));
    assert!(!shell.flags.focus_mode);
    assert_eq!(shell.text.toasts.last().unwrap().0, "no agents selected (Space to select)");
    model.directory.insert("a1".to_string(), agent("a1", "/w"));
    press(&mut model, &mut shell, ch(' '));
    press(&mut model, &mut shell, ch('f'));
    assert!(shell.flags.focus_mode);
    assert_eq!(shell.text.toasts.last().unwrap().0, "◉ FOCUS: showing 1 selected agents");
    press(&mut model, &mut shell, ch('f'));
    assert_eq!(shell.text.toasts.last().unwrap().0, "focus mode off");
}

#[test]
fn esc_ends_a_recording_and_hands_out_its_keys() {
    let mut model = Model::new();
    let mut shell = Shell::new();
    shell.flags.recording_active = true;
    shell.text.recording_name = "m".to_string();
    let _ = update(&mut model, &mut shell, AppMsg::Key(ch('j')), "me", NOW);
    let cmds = update(&mut model, &mut shell, AppMsg::Key(key(KeyCode::Esc)), "me", NOW);
    assert!(!shell.flags.recording_active);
    match cmds.as_slice() {
        [Cmd::SaveMacro { name, keys }] => {
            assert_eq!(name, "m");
            assert_eq!(keys.len(), 1);
            assert_eq!(keys[0], ch('j'));
        }
        other => panic!("unexpected {other:?}"),
    }
}

#[test]
fn empty_recording_is_reported() {
    let mut model = Model::new();
    let mut shell = Shell::new();
    shell.flags.recording_active = true;
    shell.text.recording_name = "m".to_string();
    let cmds = update(&mut model, &mut shell, AppMsg::Key(key(KeyCode::Esc)), "me", NOW);
    assert!(cmds.is_empty());
    assert_eq!(shell.text.toasts.last().unwrap().0, "macro empty: m");
}

#[test]
fn encoded_macro_is_stored() {
    let mut model = Model::new();
    let mut shell = Shell::new();
    let cmds = update(&mut model, &mut shell,
        AppMsg::MacroEncoded { name: "m".to_string(), key_events_json: "[]".to_string(), count: 2 }, "me", NOW);
    assert!(model.get_macro("m").is_some());
    assert_eq!(shell.text.toasts.last().unwrap().0, "macro saved: m (2 keys)");
    assert!(matches!(cmds.as_slice(), [Cmd::PersistMacro(RecordedMacro { created_at_ms: NOW, .. })]));
}

#[test]
fn a_real_key_cancels_a_replay() {
    let mut model = Model::new();
    let mut shell = Shell::new();
    let _ = update(&mut model, &mut shell, AppMsg::MacroDecoded { name: "m".to_string(), keys: vec![ch('j'), ch('k')] }, "me", NOW);
    assert_eq!(shell.text.replay_queue.len(), 2);
    assert_eq!(shell.text.toasts.last().unwrap().0, "▶ replaying: m (2 keys)");
    let _ = update(&mut model, &mut shell, AppMsg::Key(ch('g')), "me", NOW);
    assert!(shell.text.replay_queue.is_empty());
    assert!(shell.text.toasts.iter().any(|t| t.0 == "replay cancelled (2 keys remaining)"));
    assert_eq!(shell.tab, Tab::Groups);
}

#[test]
fn a_tick_replays_one_key() {
    let mut model = Model::new();
    let mut shell = Shell::new();
    shell.text.replay_queue = vec![ch('g'), ch('g')];
    let _ = update(&mut model, &mut shell, AppMsg::Tick, "me", NOW);
    assert_eq!(shell.tab, Tab::Groups);
    assert_eq!(shell.text.replay_queue.len(), 1);
}

#[test]
fn hotkey_runs_its_command() {
    let mut model = Model::new();
    let mut shell = Shell::new();
    model.add_hotkey("Z", "snip:x to:a hi");
    let _ = press(&mut model, &mut shell, KeyPress { code: KeyCode::Char('Z'), modifiers: KeyModifiers { shift: true, control: false, alt: false } });
    assert!(model.get_snippet("x").is_some());
}

#[test]
fn quick_switch_moves_the_cursor() {
    let mut model = Model::new();
    let mut shell = Shell::new();
    model.directory.insert("alpha".to_string(), agent("alpha", "/w/a"));
    model.directory.insert("beta".to_string(), agent("beta", "/w/b"));
    press(&mut model, &mut shell, ch('v'));
    assert!(shell.flags.quickswitch_active);
    for c in "BETA".chars() {
        press(&mut model, &mut shell, KeyPress { code: KeyCode::Char(c), modifiers: KeyModifiers { shift: true, control: false, alt: false } });
    }
    press(&mut model, &mut shell, key(KeyCode::Enter));
    assert!(!shell.flags.quickswitch_active);
    assert!(shell.text.quickswitch_query.is_empty());
    let hs = hub_tui::select::listed_handles_at(&model, None, NOW);
    assert_eq!(hs[shell.cursor], "beta");
}

#[test]
fn quick_actions_prefill_a_message() {
    let mut model = Model::new();
    let mut shell = Shell::new();
    model.directory.insert("a1".to_string(), agent("a1", "/w"));
    press(&mut model, &mut shell, ch('o'));
    assert!(shell.overlays.quick_actions_active);
    press(&mut model, &mut shell, key(KeyCode::Enter));
    assert!(!shell.overlays.quick_actions_active);
    assert!(shell.insert_mode);
    assert_eq!(shell.text.input_buf, "to:a1 ");
}

#[test]
fn quick_actions_cursor_wraps() {
    let mut model = Model::new();
    let mut shell = Shell::new();
    model.directory.insert("a1".to_string(), agent("a1", "/w"));
    press(&mut model, &mut shell, ch('o'));
    press(&mut model, &mut shell, ch('k'));
    assert_eq!(shell.cursors.quick_actions_cursor, 9);
    press(&mut model, &mut shell, ch('j'));
    assert_eq!(shell.cursors.quick_actions_cursor, 0);
}

#[test]
fn note_overlay_saves_a_trimmed_note() {
    let mut model = Model::new();
    let mut shell = Shell::new();
    model.directory.insert("a1".to_string(), agent("a1", "/w"));
    press(&mut model, &mut shell, ch('n'));
    assert!(shell.overlays.note_overlay_active);
    for c in " hi ".chars() {
        press(&mut model, &mut shell, ch(c));
    }
    let cmds = press(&mut model, &mut shell, key(KeyCode::Enter));
    assert_eq!(model.get_note("a1").map(|s| s.as_str()), Some("hi"));
    assert!(matches!(cmds.as_slice(), [Cmd::PersistNote { handle, text }] if handle == "a1" && text == "hi"));
    assert!(!shell.overlays.note_overlay_active);
}

#[test]
fn overlay_scrolls_and_closes() {
    let mut model = Model::new();
    let mut shell = Shell::new();
    press(&mut model, &mut shell, ch('a'));
    assert!(shell.overlays.activity_active);
    press(&mut model, &mut shell, ch('j'));
    press(&mut model, &mut shell, ch('j'));
    assert_eq!(shell.overlay_scroll, 2);
    press(&mut model, &mut shell, ch('k'));
    assert_eq!(shell.overlay_scroll, 1);
    press(&mut model, &mut shell, ch('q'));
    assert!(!shell.overlays.activity_active);
    assert_eq!(shell.overlay_scroll, 0);
}

#[test]
fn watch_toggles_with_ctrl_w() {
    let mut model = Model::new();
    let mut shell = Shell::new();
    let cmds = press(&mut model, &mut shell, ctrl('w'));
    assert!(cmds.is_empty());
    assert_eq!(shell.text.toasts.last().unwrap().0, "no agent selected");
    model.directory.insert("a1".to_string(), agent("a1", "/w"));
    let cmds = press(&mut model, &mut shell, ctrl('w'));
    assert!(matches!(cmds.as_slice(), [Cmd::PersistWatchAdd { handle }] if handle == "a1"));
    assert!(model.is_watched("a1"));
}

#[test]
fn half_page_moves_stay_on_the_list() {
    let mut model = Model::new();
    let mut shell = Shell::new();
    for h in ["a", "b", "c"] {
        model.directory.insert(h.to_string(), agent(h, "/w"));
    }
    press(&mut model, &mut shell, ctrl('d'));
    assert_eq!(shell.cursor, 2);
    press(&mut model, &mut shell, ctrl('u'));
    assert_eq!(shell.cursor, 0);
}

#[test]
fn filter_moves_down_only_with_room() {
    let mut model = Model::new();
    let mut shell = Shell::new();
    press(&mut model, &mut shell, ch('/'));
    assert!(shell.flags.filter_active);
    shell.cursor = usize::MAX;
    assert!(!key_permitted(&model, &shell, ch('j')));
    assert!(key_permitted(&model, &shell, ch('x')));
}
