use hub_tui::bundle::ExportBundle;
use hub_tui::cwd::{expand_tilde, extract_real_cwd};
use hub_tui::model::{Agent, EventCategory, EventSeverity};
use hub_tui::msg::SocketReq;
use hub_tui::render::cwd_tail;
use hub_tui::select::{card_at, selected_group_name};
use hub_tui::service::{is_leap, last_status_path, stamp_of};
use hub_tui::shell::Tab;
use hub_tui::socket::{handle_socket_request, SocketReply};
use hub_tui::store::Model;
use hub_tui::update::{note_event_at, Cmd};
use hub_tui::view::{compute_scroll_y, directory_layout, directory_scroll, LayoutItem};

fn agent(handle: &str, cwd: &str) -> Agent {
    Agent {
        handle: handle.to_string(),
        pty_id: None,
        cwd: cwd.to_string(),
        worktree_id: String::new(),
        branch: String::new(),
        tab_id: String::new(),
        leaf_id: String::new(),
        pane_key: String::new(),
        title: None,
        connected: true,
        writable: true,
        source: None,
        state: None,
        prompt: None,
        tool_name: None,
        tool_input: None,
        last_assistant_msg: None,
        preview: None,
        last_output_at: None,
    }
}

fn req(cmd: &str, name: Option<&str>, handle: Option<&str>, message: Option<&str>) -> SocketReq {
    SocketReq {
        cmd: cmd.to_string(),
        name: name.map(|s| s.to_string()),
        handle: handle.map(|s| s.to_string()),
        cwd: None,
        message: message.map(|s| s.to_string()),
    }
}

#[test]
fn tab_next_cycles() {
    let t = Tab::Directory;
    assert_eq!(t.next(), Tab::Groups);
    assert_eq!(t.next().next(), Tab::Messages);
    assert_eq!(t.next().next().next(), Tab::Directory);
    assert_eq!(Tab::Groups.label(), "Groups");
}

#[test]
fn leap_years_and_stamps() {
    assert!(is_leap(2000));
    assert!(!is_leap(1900));
    assert!(is_leap(2024));
    assert_eq!(stamp_of(0), "1970-01-01T00:00:00Z");
    // the date counts seconds down through the years, as stored rows always had it
    assert_eq!(stamp_of(365), "1971-01-01T00:06:05Z");
    assert_eq!(stamp_of(400), "1971-02-05T00:06:40Z");
}

#[test]
fn status_path_from_home() {
    assert_eq!(last_status_path(Some("/home/u")), "/home/u/.config/orca/agent-hooks/last-status.json");
    assert_eq!(last_status_path(Some("/home/u/")), "/home/u/.config/orca/agent-hooks/last-status.json");
    assert_eq!(last_status_path(None), "/tmp/.config/orca/agent-hooks/last-status.json");
}

#[test]
fn socket_join_members_leave() {
    let mut m = Model::new();
    m.directory.insert("term_a".to_string(), agent("term_a", "/tmp"));
    match handle_socket_request(&req("group_join", Some("team"), Some("term_zz"), None), &mut m) {
        SocketReply::Error(e) => assert_eq!(e, "unknown handle: term_zz"),
        other => panic!("unexpected {:?}", other),
    }
    assert!(matches!(handle_socket_request(&req("group_join", Some("team"), Some("term_a"), None), &mut m), SocketReply::Joined { .. }));
    match handle_socket_request(&req("group_members", Some("team"), None, None), &mut m) {
        SocketReply::Members { members, .. } => assert_eq!(members, vec!["term_a".to_string()]),
        other => panic!("unexpected {:?}", other),
    }
    match handle_socket_request(&req("broadcast", Some("team"), None, Some("hi")), &mut m) {
        SocketReply::Broadcast { text, handles, .. } => {
            assert_eq!(text, "[team] hi");
            assert_eq!(handles, vec!["term_a".to_string()]);
        }
        other => panic!("unexpected {:?}", other),
    }
    assert!(matches!(handle_socket_request(&req("group_leave", Some("team"), Some("term_a"), None), &mut m), SocketReply::Left { .. }));
    match handle_socket_request(&req("group_members", Some("team"), None, None), &mut m) {
        SocketReply::Error(e) => assert_eq!(e, "group not found: team"),
        other => panic!("unexpected {:?}", other),
    }
    match handle_socket_request(&req("frobnicate", None, None, None), &mut m) {
        SocketReply::Error(e) => assert_eq!(e, "unknown cmd: frobnicate"),
        other => panic!("unexpected {:?}", other),
    }
    match handle_socket_request(&req("group_join", Some(""), Some("term_a"), None), &mut m) {
        SocketReply::Error(e) => assert_eq!(e, "group_join requires \"name\""),
        other => panic!("unexpected {:?}", other),
    }
}

#[test]
fn note_event_at_records_the_time() {
    let mut m = Model::new();
    let c = note_event_at(&mut m, EventSeverity::Error, EventCategory::System, "system", "boom".to_string(), 5);
    assert!(matches!(c, Cmd::PersistActivityEvent(_)));
    assert_eq!(m.events.len(), 1);
    assert_eq!(m.events[0].severity, EventSeverity::Error);
    assert_eq!(m.events[0].timestamp_ms, 5);
}

#[test]
fn export_then_import_restores_settings() {
    let mut m = Model::new();
    m.add_snippet("s", "to:a hi");
    m.add_tag("a", "fe");
    m.toggle_pin("a");
    m.add_alias("gg", "to:b");
    let b: ExportBundle = m.export_bundle();
    let mut fresh = Model::new();
    fresh.import_bundle(b);
    assert_eq!(fresh.get_snippet("s").map(|s| s.as_str()), Some("to:a hi"));
    assert!(fresh.has_tag("a", "fe"));
    assert!(fresh.is_pinned("a"));
    assert_eq!(fresh.get_alias("gg").map(|s| s.as_str()), Some("to:b"));
    assert_eq!(fresh.generation, 2);
}

#[test]
fn layout_sections_and_cards() {
    let mut m = Model::new();
    m.directory.insert("a".to_string(), agent("a", "/p1"));
    m.directory.insert("b".to_string(), agent("b", "/p1"));
    m.directory.insert("c".to_string(), agent("c", "/p2"));
    let sorted = vec!["a".to_string(), "b".to_string(), "c".to_string()];
    // room for two cards per row
    let layout = directory_layout(&sorted, &m, 1, 80);
    assert_eq!(layout.len(), 5);
    assert!(matches!(&layout[0].item, LayoutItem::SectionHeader { group, count } if group == "/p1" && *count == 2));
    assert_eq!((layout[1].x, layout[1].y), (1, 1));
    assert_eq!((layout[2].x, layout[2].y), (38, 1));
    assert!(matches!(&layout[3].item, LayoutItem::SectionHeader { count, .. } if *count == 1));
    assert_eq!(layout[3].y, 12);
    assert_eq!(layout[4].y, 13);
    assert_eq!(directory_scroll(2, &layout, 10), 12);
    assert_eq!(directory_scroll(0, &layout, 30), 0);
    assert_eq!(compute_scroll_y(Some(100), 0, &layout, 10), 22);
    assert_eq!(card_at(&layout, 0, 2, 40, 4), Some(1));
    assert_eq!(card_at(&layout, 0, 2, 0, 4), None);
}

#[test]
fn group_selection_by_sorted_name() {
    let mut m = Model::new();
    m.join_group("zeta", "a");
    m.join_group("alpha", "b");
    assert_eq!(selected_group_name(&m, true, 0).as_deref(), Some("alpha"));
    assert_eq!(selected_group_name(&m, true, 1).as_deref(), Some("zeta"));
    assert_eq!(selected_group_name(&m, true, 2), None);
    assert_eq!(selected_group_name(&m, false, 0), None);
}

#[test]
fn real_cwd_sources() {
    let mut a = agent("a", "/worktree");
    assert_eq!(extract_real_cwd(&a, Some("/home/u")), "/worktree");
    a.title = Some("u@host: ~/src/app".to_string());
    assert_eq!(extract_real_cwd(&a, Some("/home/u")), "/home/u/src/app");
    a.preview = Some("noise\n[cwd=/opt/x] done\nmore".to_string());
    assert_eq!(extract_real_cwd(&a, Some("/home/u")), "/opt/x");
    assert_eq!(expand_tilde("~", None), "~");
    assert_eq!(expand_tilde("~/a", Some("")), "~/a");
}

#[test]
fn cwd_tail_anchors_end() {
    assert_eq!(cwd_tail("/a/b", 20), "a/b");
    assert_eq!(cwd_tail("/home/user/projects/app", 20), "…/user/projects/app");
    assert_eq!(cwd_tail("/home/user/projects/app", 10), "…/app");
    assert_eq!(cwd_tail("/", 10), "");
}
