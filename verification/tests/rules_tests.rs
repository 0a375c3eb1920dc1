use lush::compositor::{merge_update, CompositorStateSnapshot, StateUpdate, ToplevelEntry};
use lush::bridge::{DataProviders, UseOutcome};
use lush::network::{access_point_choice, wireless_device_choice, ApReading, DeviceReading};
use lush::notify::{is_cached_icon_path, NotificationData, NotificationStore};
use lush::provider::Provider;

fn note(id: u32, title: &str) -> NotificationData {
    NotificationData {
        id,
        app_name: "app".to_string(),
        title: title.to_string(),
        body: String::new(),
        icon: String::new(),
        urgency: 1,
        urgency_name: "normal".to_string(),
    }
}

fn pairs(v: &[(&str, &str)]) -> Vec<(String, String)> {
    v.iter().map(|(k, x)| (k.to_string(), x.to_string())).collect()
}

#[test]
fn history_control_keys_act_and_reset() {
    let mut s = NotificationStore::new();
    s.push_notification(note(1, "one"));
    s.push_notification(note(2, "two"));
    assert_eq!(s.apply_control("notification.history_delete", "0"), vec![]);
    assert_eq!(s.history_count, "2");
    assert_eq!(
        s.apply_control("notification.history.delete", "1"),
        pairs(&[("notification.history_delete", "0"), ("notification.history.delete", "0")])
    );
    assert_eq!(s.history_count, "1");
    assert_eq!(s.history[0].title, "one");
    assert_eq!(s.apply_control("notification.history_clear", "false"), vec![]);
    assert_eq!(
        s.apply_control("notification.history_clear", "yes"),
        pairs(&[("notification.history_clear", "0"), ("notification.history.clear", "0")])
    );
    assert_eq!(s.history_count, "0");
    assert_eq!(s.apply_control("other.key", "1"), vec![]);
}

#[test]
fn cached_icon_paths() {
    let dir = "/tmp/lush-notification-icons";
    assert!(is_cached_icon_path("/tmp/lush-notification-icons/n0-1.png", dir));
    assert!(is_cached_icon_path("/tmp/lush-notification-icons", dir));
    assert!(!is_cached_icon_path("/tmp/lush-notification-icons2/n0.png", dir));
    assert!(!is_cached_icon_path("tmp/lush-notification-icons/n0.png", "tmp/lush-notification-icons"));
    assert!(!is_cached_icon_path("/usr/share/icons/a.png", dir));
    assert!(is_cached_icon_path("/cache/a.png", "/cache/"));
}

#[test]
fn wireless_access_point_choice() {
    let devices = vec![
        DeviceReading::NotWireless,
        DeviceReading::Wireless("wlan0".to_string(), ApReading::Inactive),
        DeviceReading::Wireless("wlan1".to_string(), ApReading::Active("   ".to_string(), 40)),
        DeviceReading::Wireless("wlan2".to_string(), ApReading::Active(" home ".to_string(), 70)),
        DeviceReading::Failed,
    ];
    assert_eq!(
        wireless_device_choice(&devices),
        Some(("wlan2".to_string(), "home".to_string(), 70))
    );
    let failing = vec![DeviceReading::Failed, DeviceReading::Wireless("w".to_string(), ApReading::Active("x".to_string(), 1))];
    assert_eq!(wireless_device_choice(&failing), None);
    let ap_failed = vec![DeviceReading::Wireless("w".to_string(), ApReading::Failed)];
    assert_eq!(wireless_device_choice(&ap_failed), None);
    assert_eq!(wireless_device_choice(&vec![]), None);
    assert_eq!(
        access_point_choice("wlp3s0", &ApReading::Active("cafe\n".to_string(), 55)),
        Some(("wlp3s0".to_string(), "cafe".to_string(), 55))
    );
    assert_eq!(access_point_choice("wlp3s0", &ApReading::Inactive), None);
}

#[test]
fn later_users_are_answered_by_setting() {
    let mut d = DataProviders::new();
    assert!(matches!(
        d.data_use("network", None, Some("eth0".to_string()), None, None, true).unwrap(),
        UseOutcome::Start(_)
    ));
    d.record_started(Provider::Network, 2);
    assert!(matches!(
        d.data_use("network", None, Some("eth0".to_string()), None, None, true).unwrap(),
        UseOutcome::Shared
    ));
    match d.data_use("network", None, Some("wlan0".to_string()), None, None, true).unwrap() {
        UseOutcome::IgnoredIface { active, requested } => {
            assert_eq!(active.as_deref(), Some("eth0"));
            assert_eq!(requested, "wlan0");
        }
        other => panic!("unexpected {:?}", other),
    }
    // Three users: the third leave stops it, later leaves do nothing.
    assert_eq!(d.data_unuse("network").unwrap(), false);
    assert_eq!(d.data_unuse("network").unwrap(), false);
    assert_eq!(d.data_unuse("network").unwrap(), true);
    assert_eq!(d.data_unuse("network").unwrap(), false);
}

#[test]
fn merged_states_are_consistent() {

    let entry = |title: &str, focused: bool| ToplevelEntry {
        title: title.to_string(),
        app_id: format!("{}-app", title),
        identifier: title.to_string(),
        workspace_id: Some(1),
        workspace_mask: 1,
        focused,
    };
    let mut state = CompositorStateSnapshot::empty();
    let p = merge_update(&mut state, StateUpdate::Toplevels(vec![entry("a", true), entry("b", true)]), &None, false)
        .expect("published");
    assert_eq!(p.toplevels.iter().filter(|e| e.focused).count(), 1);
    let focused = p.toplevels.iter().find(|e| e.focused).unwrap();
    assert_eq!(p.workspace.focused_window.title, focused.title);
    assert_eq!(p.workspace.focused_window.app_id, focused.app_id);
    let last = Some(p);
    assert!(merge_update(&mut state, StateUpdate::Toplevels(vec![entry("a", true), entry("b", true)]), &last, false).is_none());
}

#[test]
fn constructor_names_in_order() {
    let names = lush::widget::constructor_names();
    assert_eq!(
        names,
        vec![
            "hbox", "vbox", "centerbox", "revealer", "scroll", "overlay", "list", "popover", "label",
            "button", "clock", "workspaces", "dock", "tray", "image", "progress", "slider", "window",
        ]
    );
}
