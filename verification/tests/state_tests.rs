use lush::battery::ac_online;
use lush::compositor::{
    merge_update, CompositorSnapshot, CompositorStateSnapshot, FocusedWindowSnapshot, StateUpdate,
    ToplevelEntry,
};
use lush::compositor_data::initial_pairs;
use lush::hyprland::query_reply;
use lush::json::get_opt;
use lush::mpris::{metadata_artist, metadata_i64, metadata_title, MetaValue};
use lush::provider::{audio_changed, use_cached_sink, AudioSnapshot};
use lush::river::{status_snapshot, HandleEvent, RiverToplevelState};
use lush::selector::{selector_global, selector_key_and_filter, selector_target_lower};
use lush::widget::WidgetKind;

fn pairs(v: &[(&str, &str)]) -> Vec<(String, String)> {
    v.iter().map(|(k, x)| (k.to_string(), x.to_string())).collect()
}

#[test]
fn river_toplevels_on_the_focused_output() {
    let mut s = RiverToplevelState::new(Some("focused".to_string()));
    s.bind_output(1, 10);
    s.output_name(1, "DP-1".to_string());
    s.bind_output(2, 11);
    s.output_name(2, "HDMI-A-1".to_string());
    s.toplevel(100);
    assert!(s.handle_event(100, HandleEvent::Title(" term ".to_string())));
    assert!(!s.handle_event(100, HandleEvent::Title(" term ".to_string())));
    assert!(s.handle_event(100, HandleEvent::AppId("foot".to_string())));
    assert!(s.handle_event(100, HandleEvent::OutputEnter(1)));
    assert!(s.handle_event(100, HandleEvent::State(vec![2])));
    assert!(s.handle_event(100, HandleEvent::Done));
    s.toplevel(200);
    assert!(s.handle_event(200, HandleEvent::Title("browser".to_string())));
    assert!(s.handle_event(200, HandleEvent::OutputEnter(2)));

    assert_eq!(s.resolve_selected_output_id(Some("DP-1")), Some(1));
    assert_eq!(s.resolve_selected_output_id(None), None);

    let first = s.emit_if_changed(Some("DP-1")).expect("first list is published");
    assert_eq!(first.len(), 1);
    assert_eq!(first[0].title, "term");
    assert_eq!(first[0].app_id, "foot");
    assert!(first[0].focused);
    // The same list is not published twice.
    assert!(s.emit_if_changed(Some("DP-1")).is_none());

    // The other output shows the other window.
    let second = s.emit_if_changed(Some("HDMI-A-1")).expect("changed list");
    assert_eq!(second.len(), 1);
    assert_eq!(second[0].title, "browser");
    assert!(!second[0].focused);

    // Removing the output's global forgets the output.
    assert!(s.global_remove(11));
    assert!(!s.global_remove(11));
    assert_eq!(s.resolve_selected_output_id(Some("HDMI-A-1")), None);

    // Closing forgets the toplevel.
    assert!(s.handle_event(100, HandleEvent::Closed));
    let all = s.filtered_snapshot(Some("DP-1"));
    assert!(all.is_empty());
}

#[test]
fn river_selector_by_index_and_name() {
    let mut s = RiverToplevelState::new(Some("1".to_string()));
    s.bind_output(5, 40);
    s.bind_output(6, 41);
    s.output_name(6, "eDP-1".to_string());
    assert_eq!(s.resolve_selected_output_id(None), Some(6));
    let by_name = RiverToplevelState::new(Some("EDP".to_string()));
    assert_eq!(by_name.resolve_selected_output_id(None), None);
}

#[test]
fn river_status_snapshot() {
    let w = status_snapshot(1, 5, 4, "editor".to_string());
    assert_eq!(w.focused_mask, 1);
    assert_eq!(w.occupied_mask, 5);
    assert_eq!(w.urgent_mask, 4);
    assert_eq!(w.focused_window.title, "editor");
    assert_eq!(w.focused_window.app_id, "");
}

fn workspace(focused: u32) -> CompositorSnapshot {
    CompositorSnapshot {
        focused_mask: focused,
        occupied_mask: focused | 1,
        urgent_mask: 0,
        focused_window: FocusedWindowSnapshot {
            title: "a".to_string(),
            app_id: "app".to_string(),
            identifier: String::new(),
        },
    }
}

#[test]
fn merged_state_is_published_once() {
    let mut state = CompositorStateSnapshot::empty();
    let published = merge_update(&mut state, StateUpdate::Workspace(workspace(2)), &None, false)
        .expect("first state is published");
    assert_eq!(published.workspace.focused_mask, 2);
    assert_eq!(state.workspace.occupied_mask, 3);
    let last = Some(published);
    assert!(merge_update(&mut state, StateUpdate::Workspace(workspace(2)), &last, false).is_none());
    let entries = vec![ToplevelEntry {
        title: "a".to_string(),
        app_id: "app".to_string(),
        identifier: "1".to_string(),
        workspace_id: Some(2),
        workspace_mask: 2,
        focused: true,
    }];
    let next = merge_update(&mut state, StateUpdate::Toplevels(entries), &last, false)
        .expect("a new toplevel list is published");
    assert_eq!(next.toplevels.len(), 1);
    assert_eq!(next.workspace.focused_mask, 2);
}

#[test]
fn compositor_initial_values() {
    assert_eq!(
        initial_pairs("sway"),
        pairs(&[
            ("data.compositor.name", "sway"),
            ("data.compositor.focused_mask", "0"),
            ("data.compositor.occupied_mask", "0"),
            ("data.compositor.urgent_mask", "0"),
            ("data.compositor.focused_workspace", "0"),
            ("data.compositor.summary", "focused=0 occupied=0 urgent=0"),
            ("data.compositor.focused_window.title", ""),
            ("data.compositor.focused_window.app_id", ""),
            ("data.compositor.focused_window.workspace", "0"),
        ])
    );
}

#[test]
fn mains_power() {
    assert_eq!(ac_online(&vec![]), None);
    assert_eq!(ac_online(&vec![("Battery".to_string(), Some(1))]), None);
    assert_eq!(ac_online(&vec![("Mains".to_string(), Some(0))]), Some(false));
    assert_eq!(
        ac_online(&vec![("USB".to_string(), Some(0)), ("USB_C".to_string(), Some(1))]),
        Some(true)
    );
    assert_eq!(ac_online(&vec![("Mains".to_string(), None)]), None);
}

#[test]
fn audio_snapshot_changes() {
    let a = AudioSnapshot { volume: 40, muted: false, sink: "s".to_string() };
    let same = AudioSnapshot { volume: 40, muted: false, sink: "s".to_string() };
    let louder = AudioSnapshot { volume: 41, muted: false, sink: "s".to_string() };
    assert!(audio_changed(&None, &a));
    assert!(!audio_changed(&Some(a), &same));
    assert!(audio_changed(&Some(same), &louder));
    assert!(use_cached_sink(false, "alsa_output"));
    assert!(!use_cached_sink(true, "alsa_output"));
    assert!(!use_cached_sink(false, "  "));
}

#[test]
fn player_metadata() {
    let m = vec![
        ("xesam:title".to_string(), MetaValue::Str("Song".to_string())),
        ("xesam:artist".to_string(), MetaValue::Strs(vec!["A".to_string(), "B".to_string()])),
        ("mpris:length".to_string(), MetaValue::U64(u64::MAX)),
        ("n".to_string(), MetaValue::I32(-3)),
    ];
    assert_eq!(metadata_title(&m), "Song");
    assert_eq!(metadata_artist(&m), "A, B");
    assert_eq!(metadata_i64(&m, "mpris:length"), Some(i64::MAX));
    assert_eq!(metadata_i64(&m, "n"), Some(-3));
    assert_eq!(metadata_i64(&m, "xesam:title"), None);
    assert_eq!(metadata_title(&vec![]), "");
}

#[test]
fn json_optional_field() {
    let v = query_reply(Some(br#"{"a": {"b": 1}}"#)).expect("valid JSON");
    let a = get_opt(Some(&v), "a");
    assert!(a.is_some());
    assert!(get_opt(a, "b").is_some());
    assert!(get_opt(a, "c").is_none());
    assert!(get_opt(None, "a").is_none());
}

#[test]
fn trimmed_output_selectors() {
    assert_eq!(selector_global(" 42 "), Some(42));
    assert_eq!(selector_global("DP-1"), None);
    assert_eq!(selector_target_lower("  DP-1 "), Some("dp-1".to_string()));
    assert_eq!(selector_target_lower("   "), None);
    assert_eq!(selector_key_and_filter(Some(" DP-1 ")), ("DP-1".to_string(), Some("DP-1".to_string())));
    assert_eq!(selector_key_and_filter(None), (String::new(), None));
}

#[test]
fn widget_style_class() {
    assert_eq!(WidgetKind::Label.css_class(), "label");
    assert_eq!(WidgetKind::HBox.css_class(), "hbox");
}

#[test]
fn river_publishes_one_focused_window() {
    let mut s = RiverToplevelState::new(None);
    s.bind_output(1, 10);
    s.output_name(1, "DP-1".to_string());
    for (id, title) in [(1u64, "a"), (2u64, "b")] {
        s.toplevel(id);
        s.handle_event(id, HandleEvent::Title(title.to_string()));
        s.handle_event(id, HandleEvent::OutputEnter(1));
        s.handle_event(id, HandleEvent::State(vec![2]));
        s.handle_event(id, HandleEvent::Done);
    }
    let list = s.filtered_snapshot(Some("DP-1"));
    assert_eq!(list.len(), 2);
    // Both report focus; the one focused last keeps it.
    assert!(!list[0].focused);
    assert!(list[1].focused);
    assert_eq!(list.iter().filter(|e| e.focused).count(), 1);
}
