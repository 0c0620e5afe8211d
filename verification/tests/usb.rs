use hermes_launcher::usb::{eject_target, mountvol_args, mountvol_subject};

#[test]
fn eject_target_upper_cases_the_drive() {
    assert_eq!(eject_target("d:\\").unwrap(), "D:");
    assert_eq!(eject_target("E:\\").unwrap(), "E:");
}

#[test]
fn eject_target_needs_a_drive_letter() {
    assert_eq!(eject_target("").unwrap_err(), "cannot read drive letter from ");
}

#[test]
fn mountvol_command() {
    assert_eq!(mountvol_args("D:"), vec!["D:".to_string(), "/p".to_string()]);
    assert_eq!(mountvol_subject("D:"), "mountvol D: /p");
}
