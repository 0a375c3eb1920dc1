use lush::notify::{
    auto_hide_delay, history_key, history_request, incoming_notification, is_triggered,
    parse_urgency, slot_key, urgency_name, HistoryRequest, NotificationData, NotificationIds,
    NotificationStore,
};
use lush::variant::PropValue;

fn note(id: u32, title: &str) -> NotificationData {
    NotificationData {
        id,
        app_name: "app".to_string(),
        title: title.to_string(),
        body: "body".to_string(),
        icon: String::new(),
        urgency: 1,
        urgency_name: "normal".to_string(),
    }
}

#[test]
fn urgency_levels() {
    assert_eq!(parse_urgency("low"), 0);
    assert_eq!(parse_urgency("2"), 2);
    assert_eq!(parse_urgency("weird"), 1);
    assert_eq!(urgency_name(0), "low");
    assert_eq!(urgency_name(9), "normal");
}

#[test]
fn auto_hide_delays() {
    assert_eq!(auto_hide_delay(-1), Some(5000));
    assert_eq!(auto_hide_delay(0), None);
    assert_eq!(auto_hide_delay(-5), None);
    assert_eq!(auto_hide_delay(250), Some(250));
}

#[test]
fn keys_and_history_requests() {
    assert_eq!(slot_key(2, "title"), "notification.slot2.title");
    assert_eq!(history_key(31, "icon"), "notification.history31.icon");
    assert!(is_triggered("yes"));
    assert!(!is_triggered("false"));
    assert!(!is_triggered(""));
    assert!(matches!(history_request("notification.history.clear", "1"), Some(HistoryRequest::Clear)));
    assert!(matches!(history_request("notification.history_delete", "4"), Some(HistoryRequest::Delete(4))));
    assert!(history_request("notification.history_delete", "0").is_none());
    assert!(history_request("notification.history_delete", "x").is_none());
}

#[test]
fn pushed_notifications_shift_down_and_close_compacts() {
    let mut s = NotificationStore::new();
    s.push_notification(note(1, "one"));
    s.push_notification(note(2, "two"));
    assert_eq!(s.slots[0].id, "2");
    assert_eq!(s.slots[1].id, "1");
    assert_eq!(s.slots[0].visible, "1");
    assert_eq!(s.active_count, "2");
    assert_eq!(s.history_count, "2");
    assert_eq!(s.history[0].title, "two");
    assert_eq!(s.has, "1");
    assert_eq!(s.event.kind, "pushed");
    s.close_notification_by_id(2);
    assert_eq!(s.slots[0].id, "1");
    assert_eq!(s.active_count, "1");
    assert_eq!(s.event.kind, "closed");
    assert_eq!(s.event.id, "2");
    // History keeps both.
    assert_eq!(s.history_count, "2");
    s.delete_history_now(1);
    assert_eq!(s.history[0].title, "one");
    assert_eq!(s.history_count, "1");
    assert_eq!(s.event.kind, "history_deleted");
    assert_eq!(s.event.history_index, "1");
    s.clear_history_now();
    assert_eq!(s.history_count, "0");
    assert_eq!(s.history[0].urgency_name, "normal");
}

#[test]
fn notification_numbers() {
    let mut ids = NotificationIds::new();
    assert_eq!(ids.local_id(), 10000);
    assert_eq!(ids.local_id(), 10001);
    assert_eq!(ids.remote_id(0), 1);
    assert_eq!(ids.remote_id(77), 77);
    assert_eq!(ids.remote_id(0), 2);
}

#[test]
fn incoming_notification_reads_hints() {
    let hints = vec![
        ("urgency".to_string(), PropValue::U8(2)),
        ("image_path".to_string(), PropValue::Str("/tmp/pic.png".to_string())),
    ];
    let n = incoming_notification(5, "mail".to_string(), "mail-icon", "Hi".to_string(), "there".to_string(), &hints);
    assert_eq!(n.id, 5);
    assert_eq!(n.icon, "/tmp/pic.png");
    assert_eq!(n.urgency, 2);
    assert_eq!(n.urgency_name, "critical");
    let n = incoming_notification(6, "mail".to_string(), "mail-icon", "Hi".to_string(), "".to_string(), &vec![]);
    assert_eq!(n.icon, "mail-icon");
    assert_eq!(n.urgency, 1);
}
