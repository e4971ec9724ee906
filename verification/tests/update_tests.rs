use hub_tui::keys::{KeyCode, KeyModifiers, KeyPress};
use hub_tui::model::{now_ms, Agent, EventCategory, EventSeverity};
use hub_tui::msg::{AgentStatus, AppMsg};
use hub_tui::shell::{FocusTarget, Shell, Tab};
use hub_tui::store::Model;
use hub_tui::update::{update, Cmd};

fn make_key(code: KeyCode) -> KeyPress {
    KeyPress { code, modifiers: KeyModifiers { shift: false, control: false, alt: false } }
}

fn make_ctrl_key(c: char) -> KeyPress {
    KeyPress { code: KeyCode::Char(c), modifiers: KeyModifiers { shift: false, control: true, alt: false } }
}

fn make_shift_key(c: char) -> KeyPress {
    KeyPress { code: KeyCode::Char(c), modifiers: KeyModifiers { shift: true, control: false, alt: false } }
}

fn step(model: &mut Model, shell: &mut Shell, msg: AppMsg) -> Vec<Cmd> {
    update(model, shell, msg, "me", now_ms())
}

fn make_agent(handle: &str, cwd: &str, last_output_at: Option<i64>) -> Agent {
    Agent {
        handle: handle.into(),
        pty_id: None,
        cwd: cwd.into(),
        worktree_id: format!("w-{handle}"),
        branch: "main".into(),
        tab_id: format!("t-{handle}"),
        leaf_id: format!("l-{handle}"),
        pane_key: String::new(),
        title: None,
        connected: true,
        writable: true,
        source: None,
        state: None,
        last_output_at,
        prompt: None,
        tool_name: None,
        tool_input: None,
        last_assistant_msg: None,
        preview: None,
    }
}

fn working_agent(handle: &str) -> Agent {
    Agent {
        handle: handle.to_string(),
        pty_id: None,
        cwd: "/tmp".to_string(),
        worktree_id: String::new(),
        branch: String::new(),
        tab_id: String::new(),
        leaf_id: String::new(),
        pane_key: String::new(),
        title: None,
        connected: true,
        writable: true,
        source: Some("pi".to_string()),
        state: Some("working".to_string()),
        prompt: None,
        tool_name: None,
        tool_input: None,
        last_assistant_msg: None,
        preview: None,
        last_output_at: None,
    }
}

#[test]
fn update_quit_on_q() {
    let mut model = Model::new();
    let mut shell = Shell::new();
    let cmds = step(&mut model, &mut shell, AppMsg::Key(make_key(KeyCode::Char('q'))));
    assert!(cmds.iter().any(|c| matches!(c, Cmd::Quit)));
}

#[test]
fn update_quit_on_ctrl_c() {
    let mut model = Model::new();
    let mut shell = Shell::new();
    let cmds = step(&mut model, &mut shell, AppMsg::Key(make_ctrl_key('c')));
    assert!(cmds.iter().any(|c| matches!(c, Cmd::Quit)));
}

#[test]
fn update_tab_cycles() {
    let mut model = Model::new();
    let mut shell = Shell::new();
    assert_eq!(shell.tab, Tab::Directory);

    let _ = step(&mut model, &mut shell, AppMsg::Key(make_key(KeyCode::Tab)));
    assert_eq!(shell.tab, Tab::Groups);

    let _ = step(&mut model, &mut shell, AppMsg::Key(make_key(KeyCode::Tab)));
    assert_eq!(shell.tab, Tab::Messages);

    let _ = step(&mut model, &mut shell, AppMsg::Key(make_key(KeyCode::Tab)));
    assert_eq!(shell.tab, Tab::Directory);
}

#[test]
fn update_insert_mode() {
    let mut model = Model::new();
    let mut shell = Shell::new();

    let _ = step(&mut model, &mut shell, AppMsg::Key(make_key(KeyCode::Char('i'))));
    assert!(shell.insert_mode);
    assert_eq!(shell.focus, FocusTarget::Input);

    let _ = step(&mut model, &mut shell, AppMsg::Key(make_key(KeyCode::Esc)));
    assert!(!shell.insert_mode);
    assert!(shell.text.input_buf.is_empty());
}

#[test]
fn update_tick_increments_spinner() {
    let mut model = Model::new();
    let mut shell = Shell::new();
    let frame0 = shell.spinner_frame;

    let cmds = step(&mut model, &mut shell, AppMsg::Tick);
    assert_eq!(shell.spinner_frame, frame0 + 1);
    assert!(cmds.iter().any(|c| matches!(c, Cmd::RefreshStatus)));
}

#[test]
fn update_resize() {
    let mut model = Model::new();
    let mut shell = Shell::new();
    let cmds = step(&mut model, &mut shell, AppMsg::Resize { width: 120, height: 40 });
    assert_eq!(shell.size, (120, 40));
    assert!(cmds.is_empty());
}

#[test]
fn update_send_ok_toast() {
    let mut model = Model::new();
    let mut shell = Shell::new();
    let cmds = step(&mut model, &mut shell, AppMsg::SendOk("msg-123".to_string()));
    assert!(cmds.iter().any(|c| matches!(c, Cmd::PersistActivityEvent(_))));
    assert_eq!(shell.text.toasts.len(), 1);
    assert!(shell.text.toasts[0].0.contains("msg-123"));
}

#[test]
fn update_toast_drain() {
    let mut shell = Shell::new();
    shell.push_toast("old".to_string());
    assert_eq!(shell.text.toasts.len(), 1);

    shell.drain_toasts(0);
    assert!(shell.text.toasts.is_empty());
}

#[test]
fn update_agents_loaded_triggers_write() {
    let mut model = Model::new();
    let mut shell = Shell::new();

    let agents = vec![Agent {
        handle: "h1".into(),
        pty_id: None,
        cwd: "/tmp".into(),
        worktree_id: "w1".into(),
        branch: "main".into(),
        tab_id: "t1".into(),
        leaf_id: "l1".into(),
        pane_key: "t1:l1".into(),
        title: None,
        connected: true,
        writable: true,
        source: None,
        state: None,
        last_output_at: None,
        prompt: None,
        tool_name: None,
        tool_input: None,
        last_assistant_msg: None,
        preview: None,
    }];

    let cmds = step(&mut model, &mut shell, AppMsg::AgentsLoaded(agents));
    assert!(model.directory.contains_key("h1"));
    assert!(cmds.iter().any(|c| matches!(c, Cmd::WriteDirectory)));
}

#[test]
fn update_error_toast() {
    let mut model = Model::new();
    let mut shell = Shell::new();
    let cmds = step(&mut model, &mut shell, AppMsg::Error("boom".to_string()));
    assert!(cmds.iter().any(|c| matches!(c, Cmd::PersistActivityEvent(_))));
    assert_eq!(shell.text.toasts.len(), 1);
}

#[test]
fn update_ack_ok_toast() {
    let mut model = Model::new();
    let mut shell = Shell::new();
    let cmds = step(&mut model, &mut shell, AppMsg::AckOk("m1".to_string()));
    assert!(cmds.iter().any(|c| matches!(c, Cmd::RefreshUnread)));
    assert_eq!(shell.text.toasts.len(), 1);
    assert!(shell.text.toasts[0].0.contains("Marked read"));
}

#[test]
fn update_ack_failed_toast() {
    let mut model = Model::new();
    let mut shell = Shell::new();
    let cmds = step(&mut model, &mut shell, AppMsg::AckFailed("err".to_string()));
    assert!(cmds.iter().any(|c| matches!(c, Cmd::PersistActivityEvent(_))));
    assert_eq!(shell.text.toasts.len(), 1);
}

#[test]
fn digit_jump_to_group_1() {
    let mut model = Model::new();
    let mut shell = Shell::new();
    model.apply_agents(vec![
        make_agent("a1", "/home/yy/proj-a", Some(100)),
        make_agent("a2", "/home/yy/proj-a", Some(50)),
        make_agent("b1", "/home/yy/proj-b", Some(10)),
    ]);
    let _ = step(&mut model, &mut shell, AppMsg::Key(make_key(KeyCode::Char('1'))));
    assert_eq!(shell.cursor, 0);
    assert!(shell.text.toasts.iter().any(|t| t.0.contains("Jumped to group 1")));
}

#[test]
fn digit_jump_to_group_2() {
    let mut model = Model::new();
    let mut shell = Shell::new();
    model.apply_agents(vec![
        make_agent("a1", "/home/yy/proj-a", Some(100)),
        make_agent("b1", "/home/yy/proj-b", Some(10)),
    ]);
    let _ = step(&mut model, &mut shell, AppMsg::Key(make_key(KeyCode::Char('2'))));
    assert_eq!(shell.cursor, 1);
    assert!(shell.text.toasts.iter().any(|t| t.0.contains("Jumped to group 2")));
}

#[test]
fn digit_jump_out_of_range_ignored() {
    let mut model = Model::new();
    let mut shell = Shell::new();
    model.apply_agents(vec![make_agent("a1", "/home/yy/proj-a", Some(100))]);
    shell.cursor = 0;
    let _ = step(&mut model, &mut shell, AppMsg::Key(make_key(KeyCode::Char('9'))));
    assert_eq!(shell.cursor, 0);
    assert!(shell.text.toasts.is_empty());
}

#[test]
fn digit_jump_ignored_on_non_directory_tab() {
    let mut model = Model::new();
    let mut shell = Shell::new();
    shell.tab = Tab::Groups;
    let _ = step(&mut model, &mut shell, AppMsg::Key(make_key(KeyCode::Char('1'))));
    assert!(shell.text.toasts.is_empty());
}

#[test]
fn digit_jump_toast_shows_tilde_for_home() {
    let mut model = Model::new();
    let mut shell = Shell::new();
    model.apply_agents(vec![make_agent("a1", "/home/yy/.orca", Some(100))]);
    let _ = step(&mut model, &mut shell, AppMsg::Key(make_key(KeyCode::Char('1'))));
    assert!(shell.text.toasts.iter().any(|t| t.0.contains("~/yy/.orca")));
}

#[test]
fn digit_jump_non_home_path_shows_full() {
    let mut model = Model::new();
    let mut shell = Shell::new();
    model.apply_agents(vec![make_agent("a1", "/opt/project", Some(100))]);
    let _ = step(&mut model, &mut shell, AppMsg::Key(make_key(KeyCode::Char('1'))));
    assert!(shell.text.toasts.iter().any(|t| t.0.contains("/opt/project")));
}

#[test]
fn activity_log_status_transition() {
    let mut model = Model::new();
    let mut shell = Shell::new();
    model.directory.insert("h1".to_string(), working_agent("h1"));
    let status = AgentStatus {
        pane_key: String::new(),
        source: "pi".to_string(),
        state: "error".to_string(),
        worktree_id: String::new(),
        prompt: None,
        tool_name: None,
        tool_input: None,
        last_assistant_msg: None,
    };
    let cmds = step(&mut model, &mut shell, AppMsg::StatusUpdated(vec![status]));
    assert!(cmds.iter().any(|c| matches!(&c, Cmd::PersistActivityEvent(e) if e.category == EventCategory::State)));
}

#[test]
fn history_recall_up_down() {
    let mut model = Model::new();
    let mut shell = Shell::new();
    model.push_history("to:h1 hello".to_string());
    model.push_history("to:h2 world".to_string());
    shell.insert_mode = true;
    shell.text.input_buf = "draft".to_string();
    let _ = step(&mut model, &mut shell, AppMsg::Key(make_key(KeyCode::Up)));
    assert_eq!(shell.text.input_buf, "to:h2 world");
    assert_eq!(shell.history_cursor, Some(1));
    let _ = step(&mut model, &mut shell, AppMsg::Key(make_key(KeyCode::Up)));
    assert_eq!(shell.text.input_buf, "to:h1 hello");
    assert_eq!(shell.history_cursor, Some(0));
    let _ = step(&mut model, &mut shell, AppMsg::Key(make_key(KeyCode::Down)));
    assert_eq!(shell.text.input_buf, "to:h2 world");
    let _ = step(&mut model, &mut shell, AppMsg::Key(make_key(KeyCode::Down)));
    assert_eq!(shell.text.input_buf, "draft");
    assert!(shell.history_cursor.is_none());
}

#[test]
fn history_record_on_enter() {
    let mut model = Model::new();
    let mut shell = Shell::new();
    shell.insert_mode = true;
    shell.text.input_buf = "to:h1 hello".to_string();
    let cmds = step(&mut model, &mut shell, AppMsg::Key(make_key(KeyCode::Enter)));
    assert!(cmds.iter().any(|c| matches!(c, Cmd::PersistHistoryEntry(_))));
    assert_eq!(model.history.len(), 1);
}

#[test]
fn search_open_and_close() {
    let mut model = Model::new();
    let mut shell = Shell::new();
    let _ = step(&mut model, &mut shell, AppMsg::Key(make_ctrl_key('s')));
    assert!(shell.flags.search_active);
    let _ = step(&mut model, &mut shell, AppMsg::Key(make_key(KeyCode::Esc)));
    assert!(!shell.flags.search_active);
}

#[test]
fn search_jump_to_agent() {
    let mut model = Model::new();
    let mut shell = Shell::new();
    model.directory.insert("term_abc".to_string(), working_agent("term_abc"));
    let _ = step(&mut model, &mut shell, AppMsg::Key(make_ctrl_key('s')));
    let _ = step(&mut model, &mut shell, AppMsg::Key(make_key(KeyCode::Char('a'))));
    let _ = step(&mut model, &mut shell, AppMsg::Key(make_key(KeyCode::Char('b'))));
    let _ = step(&mut model, &mut shell, AppMsg::Key(make_key(KeyCode::Char('c'))));
    let _cmds = step(&mut model, &mut shell, AppMsg::Key(make_key(KeyCode::Enter)));
    assert!(!shell.flags.search_active);
    assert_eq!(shell.tab, Tab::Directory);
}

#[test]
fn pin_toggle_test() {
    let mut model = Model::new();
    let mut shell = Shell::new();
    model.directory.insert("term_test".to_string(), working_agent("term_test"));
    shell.tab = Tab::Directory;
    shell.cursor = 0;
    let cmds = step(&mut model, &mut shell, AppMsg::Key(make_key(KeyCode::Char('@'))));
    assert!(model.is_pinned("term_test"));
    assert!(cmds.iter().any(|c| matches!(c, Cmd::PersistPinAdd { .. })));
    let cmds2 = step(&mut model, &mut shell, AppMsg::Key(make_key(KeyCode::Char('@'))));
    assert!(!model.is_pinned("term_test"));
    assert!(cmds2.iter().any(|c| matches!(c, Cmd::PersistPinRemove { .. })));
}

#[test]
fn dashboard_toggle_test() {
    let mut model = Model::new();
    let mut shell = Shell::new();
    shell.tab = Tab::Directory;
    let _ = step(&mut model, &mut shell, AppMsg::Key(make_shift_key('D')));
    assert!(shell.overlays.dashboard_active);
    let _ = step(&mut model, &mut shell, AppMsg::Key(make_key(KeyCode::Esc)));
    assert!(!shell.overlays.dashboard_active);
}

#[test]
fn snippet_save_and_run() {
    let mut model = Model::new();
    let mut shell = Shell::new();
    shell.insert_mode = true;
    shell.text.input_buf = "snip:greet to:term_abc Hello".to_string();
    let cmds = step(&mut model, &mut shell, AppMsg::Key(make_key(KeyCode::Enter)));
    assert!(model.get_snippet("greet").is_some());
    assert!(cmds.iter().any(|c| matches!(c, Cmd::PersistSnippet { .. })));
    shell.insert_mode = true;
    shell.text.input_buf = "run:greet".to_string();
    let _ = step(&mut model, &mut shell, AppMsg::Key(make_key(KeyCode::Enter)));
    assert!(shell.insert_mode);
    assert_eq!(shell.text.input_buf, "to:term_abc Hello");
}

#[test]
fn activity_log_note_event() {
    let mut model = Model::new();
    let mut shell = Shell::new();
    let cmds = step(&mut model, &mut shell, AppMsg::Error("boom".to_string()));
    assert!(cmds.iter().any(|c| matches!(c, Cmd::PersistActivityEvent(_))));
    assert_eq!(model.events.len(), 1);
    assert_eq!(model.events[0].severity, EventSeverity::Error);
}
