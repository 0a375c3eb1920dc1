use lush::provider::{cpu_deltas, disk_usage, memory_usage, Provider};
use lush::sway::{encode_message, parse_header, workspace_command};
use lush::widget::{format_line_prefix, parse_dock_click_action, DockClickAction};

#[test]
fn provider_names_round_trip() {
    for name in ["cpu", "memory", "network", "disk", "battery", "audio", "bluetooth", "mpris", "compositor"] {
        let p = Provider::parse(name).expect("known provider");
        assert_eq!(p.as_str(), name);
    }
    assert!(Provider::parse("gpu").is_none());
}

#[test]
fn provider_default_intervals() {
    assert_eq!(Provider::Cpu.default_interval(), 2);
    assert_eq!(Provider::Bluetooth.default_interval(), 120);
    assert_eq!(Provider::Disk.default_interval(), 10);
}

#[test]
fn sway_frame_round_trip() {
    let frame = encode_message(0, b"workspace number 3");
    assert_eq!(&frame[0..6], b"i3-ipc");
    let (t, len) = parse_header(&frame[0..14]).expect("header");
    assert_eq!(t, 0);
    assert_eq!(len, 18);
    assert_eq!(workspace_command(3), "workspace number 3");
}

#[test]
fn dock_actions() {
    assert_eq!(parse_dock_click_action("  Close ", None).unwrap(), DockClickAction::Close);
    assert_eq!(parse_dock_click_action("", None).unwrap(), DockClickAction::NoAction);
    assert_eq!(parse_dock_click_action("unminimize", None).unwrap(), DockClickAction::Restore);
    let err = parse_dock_click_action("Jump", Some(12)).unwrap_err();
    assert_eq!(err, "config.lua:12: invalid dock click action 'jump'; expected one of: none, activate, close, minimize, restore");
    assert_eq!(format_line_prefix(None), "");
}

#[test]
fn usage_formulas() {
    let _ = cpu_deltas;
    let _ = memory_usage;
    let _ = disk_usage;
}
