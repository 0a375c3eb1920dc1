use lush::river::{command_result, focus_view_tags_args, focus_workspace_args, state_contains_activated};
use lush::toplevel_list::{remove_id, ListEvent, ToplevelState};
use lush::validator::validate_widget_tree;
use lush::widget::{
    BoxProps, ClickBindings, LabelProps, WidgetBase, WidgetConfig, WidgetKind, WidgetProps,
};
use lush::wlr::{attempt_target, not_found_error, ordered_candidates, pick_candidate, ActionKind, Candidate};

fn cand(id: u64, app_id: &str, title: &str) -> Candidate {
    Candidate { id, title: title.to_string(), app_id: app_id.to_string() }
}

#[test]
fn wlr_candidates_prefer_full_matches() {
    let cs = vec![
        cand(1, "Firefox", "Docs"),
        cand(2, "firefox", "Mail"),
        cand(3, "kitty", "mail"),
        cand(4, " FIREFOX ", "mail "),
    ];
    assert_eq!(ordered_candidates(&cs, "firefox", "Mail"), vec![2, 4]);
    assert_eq!(ordered_candidates(&cs, "firefox", "Calendar"), vec![1, 2, 4]);
    assert_eq!(ordered_candidates(&cs, "none", "mail"), vec![2, 3, 4]);
    assert!(ordered_candidates(&cs, "", "").is_empty());
    assert_eq!(pick_candidate(&vec![7, 8], 1), Some(8));
    assert_eq!(pick_candidate(&vec![7, 8], 5), Some(8));
    assert_eq!(pick_candidate(&vec![], 0), None);
    assert_eq!(attempt_target(&cs, "kitty", "", 0, ActionKind::Activate, false), None);
    assert_eq!(attempt_target(&cs, "kitty", "", 0, ActionKind::Activate, true), Some(3));
    assert_eq!(attempt_target(&cs, "kitty", "", 0, ActionKind::Close, false), Some(3));
    assert_eq!(
        not_found_error(ActionKind::Close, "a", "b"),
        "wlr toplevel entry not found for app_id='a' title='b'"
    );
    assert_eq!(
        not_found_error(ActionKind::Activate, "a", "b"),
        "wlr activate target not found or no wl_seat for app_id='a' title='b'"
    );
}

#[test]
fn river_commands() {
    assert_eq!(focus_workspace_args(3), vec!["set-focused-tags", "4"]);
    assert_eq!(focus_workspace_args(32), vec!["set-focused-tags", "2147483648"]);
    assert_eq!(focus_view_tags_args(), vec!["focus-view-tags"]);
    assert!(command_result(None).is_ok());
    assert_eq!(command_result(Some("bad")).unwrap_err(), "river control failure: bad");
    assert!(state_contains_activated(&[0, 2]));
    assert!(!state_contains_activated(&[1, 3]));
}

#[test]
fn foreign_toplevel_list() {
    let mut s = ToplevelState::new();
    s.toplevel(5);
    s.toplevel(9);
    s.toplevel(5);
    s.event(5, ListEvent::Title(" editor ".to_string()));
    s.event(5, ListEvent::AppId("code".to_string()));
    s.event(5, ListEvent::Identifier("abc".to_string()));
    s.event(9, ListEvent::Done);
    let snap = s.snapshot();
    assert_eq!(snap.len(), 1);
    assert_eq!(snap[0].title, "editor");
    assert_eq!(snap[0].app_id, "code");
    assert_eq!(snap[0].identifier, "abc");
    s.event(9, ListEvent::Title("term".to_string()));
    assert_eq!(s.snapshot().len(), 2);
    s.event(5, ListEvent::Closed);
    let snap = s.snapshot();
    assert_eq!(snap.len(), 1);
    assert_eq!(snap[0].title, "term");
    assert_eq!(remove_id(&vec![1, 2, 1, 3], 1), vec![2, 3]);
}

fn base(children: Vec<WidgetConfig>) -> WidgetBase {
    WidgetBase {
        output: None,
        visible: None,
        visible_bind: None,
        width: None,
        height: None,
        hexpand: None,
        vexpand: None,
        halign: None,
        valign: None,
        class_bind: None,
        classes: Vec::new(),
        children,
    }
}

fn label(line: i32) -> WidgetConfig {
    WidgetConfig {
        line: Some(line),
        kind: WidgetKind::Label,
        base: base(Vec::new()),
        props: WidgetProps::Label(LabelProps {
            text: Some("x".to_string()),
            bind: None,
            binds: Vec::new(),
            on_click: ClickBindings::none(),
            format: None,
            format_states: Vec::new(),
            rules: Vec::new(),
            max_chars: None,
            ellipsize: None,
        }),
    }
}

#[test]
fn widget_kind_names_round_trip() {
    let kinds = [
        WidgetKind::HBox, WidgetKind::VBox, WidgetKind::CenterBox, WidgetKind::Revealer,
        WidgetKind::Scroll, WidgetKind::Overlay, WidgetKind::List, WidgetKind::Popover,
        WidgetKind::Label, WidgetKind::Button, WidgetKind::Clock, WidgetKind::Workspaces,
        WidgetKind::Dock, WidgetKind::Tray, WidgetKind::Image, WidgetKind::Progress,
        WidgetKind::Slider,
    ];
    for k in kinds {
        assert_eq!(WidgetKind::from_lua_kind(k.as_lua_kind()), Some(k));
    }
    assert_eq!(WidgetKind::from_lua_kind("window"), None);
}

#[test]
fn validation_warnings_for_a_tree() {
    let centerbox = WidgetConfig {
        line: Some(2),
        kind: WidgetKind::CenterBox,
        base: base(vec![label(3), label(4), label(5), label(6)]),
        props: WidgetProps::CenterBox(BoxProps { spacing: None }),
    };
    let w = validate_widget_tree(&centerbox);
    assert_eq!(
        w,
        vec!["config.lua:2: centerbox uses only first 3 children (start/center/end); got 4"]
    );
    let mut bad = label(9);
    bad.base.children.push(label(10));
    let w = validate_widget_tree(&bad);
    assert_eq!(w.len(), 1);
    assert!(w[0].starts_with("config.lua:9: label does not allow field 'children'; allowed fields: [class, classes"));
}
