use lush::commands::{
    client_call, client_failure, daemon_unreachable, handle_control_request, runs_daemon,
    session_bus_failure, AppCommand, AppCommandQueue, Command, ControlAction, ControlRequest,
};
use lush::order::sort_strings;

fn name_of(cmd: &AppCommand) -> String {
    match cmd {
        AppCommand::Open(n) | AppCommand::Close(n) | AppCommand::Toggle(n) => n.clone(),
        AppCommand::SetVisible(n, _) => n.clone(),
    }
}

#[test]
fn commands_leave_the_queue_in_order() {
    let mut q = AppCommandQueue::new();
    assert!(q.enqueue(AppCommand::Open("bar".to_string())));
    // Queued while the first caller drains: it waits its turn.
    assert!(!q.enqueue(AppCommand::Close("osd".to_string())));
    assert!(!q.enqueue(AppCommand::SetVisible("dock".to_string(), true)));
    let mut seen = Vec::new();
    while let Some(cmd) = q.next_command() {
        seen.push(name_of(&cmd));
    }
    assert_eq!(seen, vec!["bar", "osd", "dock"]);
    // Drained: the next command starts a new drain.
    assert!(q.enqueue(AppCommand::Toggle("bar".to_string())));
}

#[test]
fn listeners_are_numbered_and_dropped() {
    let mut q = AppCommandQueue::new();
    assert_eq!(q.subscribe(), 1);
    assert_eq!(q.subscribe(), 2);
    assert_eq!(q.subscribe(), 3);
    q.remove_listeners(&vec![2]);
    assert_eq!(q.listener_ids(), vec![1, 3]);
    q.remove_listeners(&vec![]);
    assert_eq!(q.listener_ids(), vec![1, 3]);
}

#[test]
fn control_requests() {
    match handle_control_request(ControlRequest::Ping) {
        ControlAction::Reply(s) => assert_eq!(s, "pong"),
        other => panic!("unexpected {:?}", other),
    }
    match handle_control_request(ControlRequest::SetWindowVisible("bar".to_string(), false)) {
        ControlAction::Queue(AppCommand::SetVisible(n, v)) => {
            assert_eq!(n, "bar");
            assert!(!v);
        }
        other => panic!("unexpected {:?}", other),
    }
    assert!(matches!(
        handle_control_request(ControlRequest::ListWindows),
        ControlAction::ListWindows
    ));
    assert!(matches!(
        handle_control_request(ControlRequest::ReloadCss),
        ControlAction::ReloadCss
    ));
}

#[test]
fn window_names_are_listed_sorted() {
    let names = vec!["osd".to_string(), "bar".to_string(), "Dock".to_string(), "bar2".to_string()];
    assert_eq!(sort_strings(names), vec!["Dock", "bar", "bar2", "osd"]);
}

#[test]
fn client_calls() {
    assert!(runs_daemon(&None));
    assert!(runs_daemon(&Some(Command::Daemon)));
    assert!(!runs_daemon(&Some(Command::List)));
    assert!(client_call(&Command::Daemon).is_none());
    let c = client_call(&Command::Hide { name: "bar".to_string() }).unwrap();
    assert_eq!(c.method, "SetWindowVisible");
    assert_eq!(c.name.as_deref(), Some("bar"));
    assert_eq!(c.visible, Some(false));
    assert_eq!(c.action, "hide");
    let c = client_call(&Command::ReloadCss).unwrap();
    assert_eq!(c.method, "ReloadCss");
    assert_eq!(c.action, "reload-css");
    assert_eq!(client_failure("open", "no reply"), "open failed: no reply");
    assert_eq!(
        session_bus_failure("refused"),
        "failed to connect to session bus: refused"
    );
    assert_eq!(
        daemon_unreachable("gone"),
        "daemon not reachable; start `lush daemon` first (gone)"
    );
}
