use lush::locate::{
    config_candidates, hypr_instance_signature, hypr_socket_candidates, pick_config,
    sway_socket_path,
};

#[test]
fn config_file_candidates() {
    let c = config_candidates(Some("/etc/lush.lua"), Some("/home/u/.cfg/"), Some("/home/u"));
    assert_eq!(
        c,
        vec![
            "/etc/lush.lua",
            "/home/u/.cfg/lush/config.lua",
            "/home/u/.config/lush/config.lua",
            "config.lua"
        ]
    );
    let c = config_candidates(None, None, Some(""));
    assert_eq!(c, vec![".config/lush/config.lua", "config.lua"]);
}

#[test]
fn first_existing_config_is_picked() {
    let c = vec!["a".to_string(), "b".to_string(), "c".to_string()];
    assert_eq!(pick_config(&c, &vec![false, true, true]), "b");
    assert_eq!(pick_config(&c, &vec![false, false, false]), "config.lua");
}

#[test]
fn hyprland_sockets() {
    assert_eq!(hypr_instance_signature(Some("  abc ")), Some("abc".to_string()));
    assert_eq!(hypr_instance_signature(Some("   ")), None);
    assert_eq!(
        hypr_socket_candidates(Some("abc"), Some("/run/user/1000"), ".socket.sock"),
        vec!["/tmp/hypr/abc/.socket.sock", "/run/user/1000/hypr/abc/.socket.sock"]
    );
    assert_eq!(
        hypr_socket_candidates(Some("abc"), Some(" "), ".socket2.sock"),
        vec!["/tmp/hypr/abc/.socket2.sock"]
    );
    assert!(hypr_socket_candidates(None, Some("/run"), ".socket.sock").is_empty());
}

#[test]
fn sway_socket() {
    assert_eq!(sway_socket_path(Some("/s"), Some("/i"), None), Some("/s".to_string()));
    assert_eq!(sway_socket_path(Some(" "), Some("/i"), None), Some("/i".to_string()));
    assert_eq!(sway_socket_path(None, None, None), None);
    let entries = vec![
        ("sway-ipc.1000.12.sock".to_string(), "/run/sway-ipc.1000.12.sock".to_string()),
        ("other.sock".to_string(), "/run/other.sock".to_string()),
        ("sway-ipc.1000.99.sock".to_string(), "/run/sway-ipc.1000.99.sock".to_string()),
        ("sway-ipc.1000.3.sock".to_string(), "/run/sway-ipc.1000.3.sock".to_string()),
    ];
    assert_eq!(
        sway_socket_path(None, None, Some(&entries)),
        Some("/run/sway-ipc.1000.99.sock".to_string())
    );
    let none = vec![("x".to_string(), "/run/x".to_string())];
    assert_eq!(sway_socket_path(None, None, Some(&none)), None);
}
