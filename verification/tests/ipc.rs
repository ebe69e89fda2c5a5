use linuxpal::ipc::{
    active_window_id, extract_gdbus_string, focused_window_context, pick_monitor, window_calls_context,
    window_on, xdotool_context, MonitorPick,
};

#[test]
fn test_extract_gdbus_string() {
    assert_eq!(extract_gdbus_string(b"( 'hello', )"), Some("hello".to_string()));
    assert_eq!(
        extract_gdbus_string(b"('{\n  \"wm_class\": \"code\",\n  \"title\": \"main.rs\"\n}')"),
        Some("{\n  \"wm_class\": \"code\",\n  \"title\": \"main.rs\"\n}".to_string())
    );
    assert_eq!(extract_gdbus_string(b"no quotes"), None);
    assert_eq!(extract_gdbus_string(b"''"), None);
}

const MONITORS: &[u8] = br#"[
  {"id": 0, "name": "eDP-1", "focused": true, "disabled": false, "activeWorkspace": {"id": 1}},
  {"id": 1, "name": "HDMI-A-1", "focused": false, "activeWorkspace": {"id": 5}}
]"#;

#[test]
fn hdmi_monitor_decides_on_two_screens() {
    assert_eq!(pick_monitor(MONITORS, "hdmi"), MonitorPick::Target { monitor: 1, workspace: 5 });
    assert_eq!(pick_monitor(MONITORS, "dp-2"), MonitorPick::Target { monitor: 0, workspace: 1 });
}

#[test]
fn focused_monitor_decides_on_one_screen() {
    let one = br#"[{"id": 3, "name": "DP-1", "focused": true, "activeWorkspace": {"id": 9}},
                  {"id": 4, "name": "HDMI-A-1", "disabled": true, "activeWorkspace": {"id": 2}}]"#;
    assert_eq!(pick_monitor(one, "hdmi"), MonitorPick::Target { monitor: 3, workspace: 9 });
}

#[test]
fn monitor_report_outcomes() {
    assert_eq!(pick_monitor(b"not json", "hdmi"), MonitorPick::Unreadable);
    assert_eq!(pick_monitor(b"{}", "hdmi"), MonitorPick::Unreadable);
    assert_eq!(pick_monitor(br#"[{"id": 1, "disabled": true}]"#, "hdmi"), MonitorPick::NoneEnabled);
    assert_eq!(pick_monitor(br#"[{"id": 1, "focused": true}]"#, "hdmi"), MonitorPick::Unreadable);
}

#[test]
fn active_window_is_lowest_focus_history_on_the_workspace() {
    let clients = br#"[
      {"monitor": 1, "workspace": {"id": 5}, "focusHistoryID": 2, "class": "kitty", "title": "tmux "},
      {"monitor": 1, "workspace": {"id": 5}, "focusHistoryID": 1, "class": " Firefox", "title": "News"},
      {"monitor": 0, "workspace": {"id": 1}, "focusHistoryID": 0, "class": "code", "title": "x"}
    ]"#;
    let w = window_on(clients, 1, 5).unwrap();
    assert_eq!(w.class, "firefox");
    assert_eq!(w.title, "news");
    let empty = window_on(clients, 1, 7).unwrap();
    assert_eq!(empty.class, "");
    assert_eq!(empty.title, "");
    assert!(window_on(b"oops", 1, 5).is_none());
}

#[test]
fn first_of_equal_focus_ranks_wins() {
    let clients = br#"[
      {"monitor": 0, "workspace": {"id": 1}, "class": "a", "title": "one"},
      {"monitor": 0, "workspace": {"id": 1}, "class": "b", "title": "two"}
    ]"#;
    assert_eq!(window_on(clients, 0, 1).unwrap().class, "a");
}

#[test]
fn gnome_and_x11_replies_become_contexts() {
    let focused = focused_window_context(b"('{\"wm_class\": \"Code\", \"title\": \"Main.rs\"}',)").unwrap();
    assert_eq!(focused.class, "code");
    assert_eq!(focused.title, "main.rs");
    assert!(focused_window_context(b"('{\"title\": \"x\"}',)").is_none());
    let calls = window_calls_context(b"('Kitty',)", b"('Tmux',)").unwrap();
    assert_eq!(calls.class, "kitty");
    assert_eq!(calls.title, "tmux");
    assert!(window_calls_context(b"('Kitty',)", b"nothing").is_none());
    assert_eq!(active_window_id(b" 12345\n"), Some("12345".to_string()));
    assert_eq!(active_window_id(b"  \n"), None);
    let x = xdotool_context(b"Alacritty\n", b" Vim \n");
    assert_eq!(x.class, "alacritty");
    assert_eq!(x.title, "vim");
}
