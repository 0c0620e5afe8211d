use hermes_launcher::session::{restart_steps, safe_exit_steps, tray_command, Session, SessionStep, TrayCommand};

fn names(steps: &[SessionStep]) -> Vec<&'static str> {
    steps
        .iter()
        .map(|s| match s {
            SessionStep::Terminate => "terminate",
            SessionStep::Unregister => "unregister",
            SessionStep::Eject => "eject",
            SessionStep::Reboot => "reboot",
            SessionStep::Exit => "exit",
        })
        .collect()
}

#[test]
fn safe_exit_without_unregister() {
    assert_eq!(names(&safe_exit_steps(false)), vec!["terminate", "eject", "exit"]);
}

#[test]
fn safe_exit_with_unregister() {
    assert_eq!(names(&safe_exit_steps(true)), vec!["terminate", "unregister", "eject", "exit"]);
}

#[test]
fn restart_stops_then_boots() {
    assert_eq!(names(&restart_steps()), vec!["terminate", "reboot"]);
}

#[test]
fn unregister_on_exit_setting() {
    let mut s = Session::new();
    assert!(!s.unregister_on_exit);
    assert_eq!(names(&s.safe_exit_steps(false)), vec!["terminate", "eject", "exit"]);
    assert_eq!(names(&s.quit_steps()), vec!["terminate", "exit"]);
    assert!(s.toggle_unregister_on_exit());
    assert_eq!(names(&s.safe_exit_steps(false)), vec!["terminate", "unregister", "eject", "exit"]);
    assert_eq!(names(&s.quit_steps()), vec!["terminate", "unregister", "exit"]);
    assert!(!s.toggle_unregister_on_exit());
    assert_eq!(names(&s.safe_exit_steps(true)), vec!["terminate", "unregister", "eject", "exit"]);
}

#[test]
fn tray_entries() {
    assert!(matches!(tray_command("open_chat"), TrayCommand::OpenChat));
    assert!(matches!(tray_command("status"), TrayCommand::ShowStatus));
    assert!(matches!(tray_command("settings"), TrayCommand::Settings));
    assert!(matches!(tray_command("logs"), TrayCommand::OpenLogs));
    assert!(matches!(tray_command("restart"), TrayCommand::Restart));
    assert!(matches!(tray_command("unregister_on_exit"), TrayCommand::ToggleUnregisterOnExit));
    assert!(matches!(tray_command("safe_exit"), TrayCommand::SafeExit));
    assert!(matches!(tray_command("quit"), TrayCommand::Quit));
    assert!(matches!(tray_command("exit"), TrayCommand::Ignore));
    assert!(matches!(tray_command(""), TrayCommand::Ignore));
}
