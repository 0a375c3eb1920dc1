use lush::compositor::{
    active_backend, clamp_workspace, detected_name, first_set_bit, normalize_state,
    unsupported_focus_message, BackendKind, CompositorSnapshot, CompositorStateSnapshot,
    FocusedWindowSnapshot, ToplevelEntry,
};
use lush::hyprland::{
    collect_state_from_replies, focus_workspace, query_reply,
    should_refresh_for_event, workspace_dispatch_payload,
};
use lush::json::JsonValue;
use lush::sway::{run_command, take_leading_digits, workspace_command};

fn entry(title: &str, id: &str, ws: u32, focused: bool) -> ToplevelEntry {
    ToplevelEntry {
        title: title.to_string(),
        app_id: format!("{}-app", title),
        identifier: id.to_string(),
        workspace_id: Some(ws),
        workspace_mask: 1 << (ws - 1),
        focused,
    }
}

fn empty_focus() -> FocusedWindowSnapshot {
    FocusedWindowSnapshot { title: String::new(), app_id: String::new(), identifier: String::new() }
}

fn state(entries: Vec<ToplevelEntry>, focus: FocusedWindowSnapshot) -> CompositorStateSnapshot {
    CompositorStateSnapshot {
        workspace: CompositorSnapshot {
            focused_mask: 1,
            occupied_mask: 3,
            urgent_mask: 0,
            focused_window: focus,
        },
        toplevels: entries,
    }
}

#[test]
fn workspace_bits() {
    assert_eq!(first_set_bit(0), 0);
    assert_eq!(first_set_bit(0b1000), 4);
    assert_eq!(first_set_bit(0b1010), 2);
    // A single workspace's mask reads back its number.
    for n in 1..=32u32 {
        assert_eq!(first_set_bit(1u32 << (n - 1)), n);
    }
    assert_eq!(clamp_workspace(0), 1);
    assert_eq!(clamp_workspace(40), 32);
    assert_eq!(clamp_workspace(7), 7);
}

#[test]
fn backends_and_names() {
    assert!(matches!(active_backend(true, true, true), BackendKind::River));
    assert!(matches!(active_backend(false, true, true), BackendKind::Hyprland));
    assert!(matches!(active_backend(false, false, false), BackendKind::Unknown));
    assert_eq!(detected_name(BackendKind::Sway, None), "sway");
    assert_eq!(detected_name(BackendKind::Unknown, Some("GNOME:Niri")), "niri");
    assert_eq!(detected_name(BackendKind::Unknown, Some("Hyprland")), "hyprland");
    assert_eq!(detected_name(BackendKind::Unknown, None), "unknown");
    assert_eq!(
        unsupported_focus_message("niri"),
        "focus workspace is not implemented for compositor 'niri'"
    );
}

#[test]
fn normalization_keeps_one_focus() {
    let mut s = state(vec![entry("a", "0x1", 1, true), entry("b", "0x2", 2, true)], empty_focus());
    normalize_state(&mut s, false);
    assert!(s.toplevels[0].focused);
    assert!(!s.toplevels[1].focused);
    assert_eq!(s.workspace.focused_window.title, "a");
    assert_eq!(s.workspace.focused_window.identifier, "0x1");
    assert_eq!(s.workspace.occupied_mask, 3);

    // Found again by identifier when no entry says it is focused.
    let focus = FocusedWindowSnapshot { title: "x".to_string(), app_id: "y".to_string(), identifier: " 0x2 ".to_string() };
    let mut s = state(vec![entry("a", "0x1", 1, false), entry("b", "0x2", 2, false)], focus);
    normalize_state(&mut s, false);
    assert!(s.toplevels[1].focused);
    assert_eq!(s.workspace.focused_window.title, "b");

    // Nothing to focus: the focused window is cleared.
    let focus = FocusedWindowSnapshot { title: "gone".to_string(), app_id: String::new(), identifier: String::new() };
    let mut s = state(vec![entry("a", "0x1", 1, false)], focus);
    normalize_state(&mut s, false);
    assert!(!s.toplevels[0].focused);
    assert_eq!(s.workspace.focused_window.title, "");

    // Normalizing twice changes nothing more.
    let mut s = state(vec![entry("a", "0x1", 1, true), entry("b", "0x2", 2, true)], empty_focus());
    normalize_state(&mut s, false);
    let first: Vec<bool> = s.toplevels.iter().map(|e| e.focused).collect();
    normalize_state(&mut s, false);
    let second: Vec<bool> = s.toplevels.iter().map(|e| e.focused).collect();
    assert_eq!(first, second);
}

#[test]
fn hyprland_replies_are_parsed_as_json() {
    assert!(query_reply(Some(b"not json")).is_none());
    match query_reply(Some(br#"{"a": [1, "x", true, null]}"#)) {
        Some(v) => {
            let a = v.get("a").and_then(|x| x.as_array()).expect("array");
            assert_eq!(a.len(), 4);
            assert_eq!(a[0].as_i64(), Some(1));
            assert_eq!(a[1].as_str(), Some("x"));
            assert_eq!(a[2].as_bool(), Some(true));
        }
        None => panic!("valid JSON refused"),
    }
    assert!(query_reply(Some(b"")).is_none());
    assert!(query_reply(None).is_none());
    assert!(matches!(query_reply(Some(b"[]")), Some(JsonValue::Array(_))));
}

#[test]
fn hyprland_events_and_dispatch() {
    assert!(should_refresh_for_event("workspacev2>>3,3"));
    assert!(should_refresh_for_event(" closewindow >>abc"));
    assert!(!should_refresh_for_event("submap>>resize"));
    assert_eq!(workspace_dispatch_payload(4), "/dispatch workspace 4");
    assert!(focus_workspace(Some(" OK\n")).is_ok());
    assert_eq!(
        focus_workspace(Some("no such workspace")).unwrap_err(),
        "hyprland workspace dispatch failed: no such workspace"
    );
    assert_eq!(
        focus_workspace(None).unwrap_err(),
        "failed to send hyprland workspace dispatch"
    );
}

#[test]
fn hyprland_state_from_replies() {
    let monitors = br#"[{"id":0,"name":"DP-1","focused":true,"activeWorkspace":{"id":1}},
                        {"id":1,"name":"HDMI-A-1","focused":false,"activeWorkspace":{"id":5}}]"#;
    let workspaces = br#"[{"id":1,"monitor":"DP-1"},{"id":3,"monitor":"DP-1"},{"id":5,"monitor":"HDMI-A-1"}]"#;
    let clients = br#"[{"address":"0xa","class":"kitty","title":"shell","workspace":{"id":1},"monitor":0},
                       {"address":"0xb","class":"","initialClass":"firefox","title":"web","workspace":{"id":3},"monitor":0},
                       {"address":"0xc","class":"mpv","title":"film","workspace":{"id":5},"monitor":1},
                       {"address":"0xd","class":"ghost","title":"hidden","workspace":{"id":1},"monitor":0,"mapped":false}]"#;
    let active = br#"{"address":"0xa"}"#;
    let st = collect_state_from_replies(
        Some("focused"),
        Some(monitors),
        Some(workspaces),
        Some(clients),
        Some(active),
        None,
    )
    .expect("state");
    assert_eq!(st.workspace.occupied_mask, 0b101);
    assert_eq!(st.workspace.focused_mask, 0b1);
    assert_eq!(st.toplevels.len(), 2);
    assert_eq!(st.toplevels[0].app_id, "kitty");
    assert!(st.toplevels[0].focused);
    assert_eq!(st.toplevels[1].app_id, "firefox");
    assert_eq!(st.toplevels[1].workspace_mask, 0b100);
    assert!(!st.toplevels[1].focused);
    assert_eq!(st.workspace.focused_window.identifier, "0xa");

    // Without a selector every monitor counts.
    let st = collect_state_from_replies(None, Some(monitors), Some(workspaces), Some(clients), None, None)
        .expect("state");
    assert_eq!(st.workspace.occupied_mask, 0b10101);
    assert_eq!(st.toplevels.len(), 3);

    assert!(collect_state_from_replies(None, None, Some(workspaces), Some(clients), None, None).is_none());
}

#[test]
fn sway_commands() {
    assert_eq!(workspace_command(2), "workspace number 2");
    assert_eq!(take_leading_digits("12:web"), "12");
    assert_eq!(take_leading_digits("web"), "");
    let ok = query_reply(Some(br#"[{"success":true}]"#)).unwrap();
    assert!(run_command("workspace 1", Some(&ok)).is_ok());
    let bad = query_reply(Some(br#"[{"success":false,"error":"x"}]"#)).unwrap();
    assert_eq!(
        run_command("workspace 1", Some(&bad)).unwrap_err(),
        "sway command failed: workspace 1"
    );
    let odd = query_reply(Some(br#"{"success":true}"#)).unwrap();
    assert_eq!(
        run_command("workspace 1", Some(&odd)).unwrap_err(),
        "unexpected sway run_command response"
    );
    assert_eq!(run_command("x", None).unwrap_err(), "failed to run sway ipc command");
}
