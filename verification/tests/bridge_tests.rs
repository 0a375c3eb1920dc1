use lush::bridge::{osd_binding, osd_timeout, DataProviders, OsdBindings, SignalValues, UseOutcome, WindowVisibility};
use lush::provider::Provider;
use lush::commands::AppCommand;

#[test]
fn first_user_starts_provider_last_user_stops_it() {
    let mut d = DataProviders::new();
    match d.data_use("cpu", Some(0), None, None, None, true).unwrap() {
        UseOutcome::Start(o) => assert_eq!(o.interval_seconds, 1),
        other => panic!("unexpected {:?}", other),
    }
    d.record_started(Provider::Cpu, 1);
    assert!(matches!(d.data_use("cpu", Some(5), None, None, None, true).unwrap(), UseOutcome::Shared));
    assert_eq!(d.data_unuse("cpu").unwrap(), false);
    assert_eq!(d.data_unuse("cpu").unwrap(), true);
    assert_eq!(d.data_unuse("cpu").unwrap(), false);
    assert_eq!(d.data_use("gpu", None, None, None, None, true).unwrap_err(), "unknown data provider 'gpu'");
}

#[test]
fn disk_defaults_to_root_and_ignores_other_paths() {
    let mut d = DataProviders::new();
    match d.data_use("disk", None, None, None, None, true).unwrap() {
        UseOutcome::Start(o) => {
            assert_eq!(o.disk_path.as_deref(), Some("/"));
            assert_eq!(o.interval_seconds, 10);
        }
        other => panic!("unexpected {:?}", other),
    }
    match d.data_use("disk", None, None, Some("/home".to_string()), None, true).unwrap() {
        UseOutcome::IgnoredPath { active, requested } => {
            assert_eq!(active.as_deref(), Some("/"));
            assert_eq!(requested, "/home");
        }
        other => panic!("unexpected {:?}", other),
    }
}

#[test]
fn providers_used_before_the_bus_start_with_it() {
    let mut d = DataProviders::new();
    assert!(matches!(d.data_use("memory", None, None, None, None, false).unwrap(), UseOutcome::Registered));
    let pending = d.start_active_data_providers();
    assert_eq!(pending.len(), 1);
    assert_eq!(pending[0].0, Provider::Memory);
    assert_eq!(pending[0].1.interval_seconds, 3);
}

#[test]
fn window_visibility_reads_back() {
    let mut w = WindowVisibility::new();
    assert!(!w.is_window_visible("bar"));
    w.set_window_visible("bar", true);
    w.set_window_visible("osd", false);
    assert!(w.is_window_visible("bar"));
    assert!(!w.is_window_visible("osd"));
    w.set_window_visible("bar", false);
    assert!(!w.is_window_visible("bar"));
    assert_eq!(w.window_names(), vec!["bar", "osd"]);
}

#[test]
fn signal_values_read_after_write() {
    let mut v = SignalValues::new();
    assert_eq!(v.get("volume"), None);
    v.set("volume", "40");
    v.set("muted", "0");
    v.set("volume", "55");
    assert_eq!(v.get("volume").as_deref(), Some("55"));
    assert_eq!(v.get("muted").as_deref(), Some("0"));
    assert_eq!(
        v.snapshot(),
        vec![("volume".to_string(), "55".to_string()), ("muted".to_string(), "0".to_string())]
    );
}

#[test]
fn osd_bindings() {
    assert_eq!(
        osd_binding("  ", &vec!["a".to_string()], 10).unwrap_err(),
        "osd name cannot be empty"
    );
    assert_eq!(
        osd_binding("vol", &vec![" ".to_string()], 10).unwrap_err(),
        "osd signals cannot be empty"
    );
    let (name, b) = osd_binding(" vol ", &vec![" audio.volume ".to_string(), "".to_string()], 0).unwrap();
    assert_eq!(name, "vol");
    assert_eq!(b.signals, vec!["audio.volume"]);
    assert_eq!(b.timeout_ms, 1);
    assert_eq!(osd_timeout(None), 1200);

    let mut o = OsdBindings::new();
    o.bind("vol", &vec!["audio.volume".to_string()], 800).unwrap();
    o.bind("bright", &vec!["backlight".to_string()], 0).unwrap();
    assert!(o.bind("", &vec!["x".to_string()], 5).is_err());
    let pending = o.watch_pending();
    assert_eq!(pending.len(), 2);
    assert_eq!(pending[0].0, "vol");
    assert_eq!(pending[0].1, vec!["audio.volume"]);
    assert!(o.watch_pending().is_empty());
    assert_eq!(o.timeout_of("vol"), 800);
    assert_eq!(o.timeout_of("bright"), 1);
    assert_eq!(o.timeout_of("none"), 1200);
    o.bind("vol", &vec!["audio.muted".to_string()], 300).unwrap();
    let pending = o.watch_pending();
    assert_eq!(pending.len(), 1);
    assert_eq!(pending[0].1, vec!["audio.muted"]);
    o.unwatch_all();
    assert_eq!(o.watch_pending().len(), 2);
}

#[test]
fn window_commands_and_toggle_twice() {
    let mut w = WindowVisibility::new();
    w.apply_command(&AppCommand::Toggle("bar".to_string()));
    assert!(w.is_window_visible("bar"));
    w.apply_command(&AppCommand::Toggle("bar".to_string()));
    assert!(!w.is_window_visible("bar"));
    w.apply_command(&AppCommand::Open("dock".to_string()));
    w.apply_command(&AppCommand::Toggle("dock".to_string()));
    w.apply_command(&AppCommand::Toggle("dock".to_string()));
    assert!(w.is_window_visible("dock"));
    w.apply_command(&AppCommand::SetVisible("dock".to_string(), false));
    assert!(!w.is_window_visible("dock"));
    w.apply_command(&AppCommand::Close("osd".to_string()));
    assert!(!w.is_window_visible("osd"));
    assert!(!w.is_window_visible("bar"));
}
