use hermes_launcher::wsl::{
    browser_args, check_exit, decode_utf16_or_utf8, distro_in_list, distro_listed, import_args,
    list_args, self_check_report, spawn_entry_args, status_args, terminate_args, unregister_args,
    wsl_subject, zstd_args, WslStatus,
};

fn utf16_le(s: &str) -> Vec<u8> {
    s.encode_utf16().flat_map(|u| u.to_le_bytes()).collect()
}

#[test]
fn decode_utf16_le() {
    let bytes: Vec<u8> = "Hi\n".encode_utf16().flat_map(|u| u.to_le_bytes()).collect();
    assert_eq!(decode_utf16_or_utf8(&bytes), "Hi\n");
}

#[test]
fn decode_falls_back_to_utf8() {
    assert_eq!(decode_utf16_or_utf8(b"plain ascii"), "plain ascii");
}

#[test]
fn decode_odd_length_is_utf8() {
    assert_eq!(decode_utf16_or_utf8(b"H\0i"), "H\0i");
}

#[test]
fn decode_empty_and_single_byte() {
    assert_eq!(decode_utf16_or_utf8(b""), "");
    assert_eq!(decode_utf16_or_utf8(b"x"), "x");
}

#[test]
fn decode_replaces_invalid_utf8() {
    assert_eq!(decode_utf16_or_utf8(&[0x61, 0xff, 0x62]), "a\u{fffd}b");
}

#[test]
fn decode_utf16_non_ascii() {
    assert_eq!(decode_utf16_or_utf8(&utf16_le("Ab\u{4e2d}")), "Ab\u{4e2d}");
}

#[test]
fn decode_utf16_replaces_lone_surrogate() {
    assert_eq!(decode_utf16_or_utf8(&[0x41, 0x00, 0x00, 0xd8]), "A\u{fffd}");
}

#[test]
fn distro_found_in_utf16_listing() {
    let out = utf16_le("Ubuntu\r\nHermesPortable_0011aabb\r\n");
    assert!(distro_listed(true, &out, "HermesPortable_0011aabb"));
    assert!(distro_listed(true, &out, "Ubuntu"));
    assert!(!distro_listed(true, &out, "HermesPortable"));
}

#[test]
fn distro_not_listed_when_listing_failed() {
    let out = utf16_le("HermesPortable_0011aabb\r\n");
    assert!(!distro_listed(false, &out, "HermesPortable_0011aabb"));
}

#[test]
fn distro_lines_are_trimmed() {
    assert!(distro_in_list("  Debian  \nHermes\n", "Debian"));
    assert!(!distro_in_list("Debian\n", "Debi"));
    assert!(!distro_in_list("", "Debian"));
}

#[test]
fn self_check_on_success() {
    let r = self_check_report(WslStatus::Succeeded, Some(19045), Some(2));
    assert!(r.ok && r.wsl_installed && r.wsl_version_2_default && r.windows_version_ok);
    assert_eq!(r.blocker, None);
    let r = self_check_report(WslStatus::Succeeded, Some(19044), None);
    assert!(r.ok);
    let r = self_check_report(WslStatus::Succeeded, None, None);
    assert!(r.ok);
}

#[test]
fn self_check_when_wsl_fails() {
    let r = self_check_report(WslStatus::Failed, Some(22631), Some(2));
    assert!(!r.ok && !r.wsl_installed && !r.wsl_version_2_default && r.windows_version_ok);
    assert_eq!(r.blocker.as_deref(), Some("wsl_not_installed"));
}

#[test]
fn self_check_when_wsl_is_missing() {
    let r = self_check_report(WslStatus::NotLaunched, Some(22631), Some(2));
    assert!(!r.ok && !r.wsl_installed);
    assert_eq!(r.blocker.as_deref(), Some("wsl_missing"));
}

#[test]
fn self_check_old_windows_is_blocked() {
    let r = self_check_report(WslStatus::Succeeded, Some(19043), Some(2));
    assert!(!r.ok && !r.windows_version_ok && r.wsl_installed && r.wsl_version_2_default);
    assert_eq!(r.blocker.as_deref(), Some("windows_too_old"));
}

#[test]
fn self_check_wsl1_default_is_blocked() {
    let r = self_check_report(WslStatus::Succeeded, Some(19045), Some(1));
    assert!(!r.ok && r.windows_version_ok && r.wsl_installed && !r.wsl_version_2_default);
    assert_eq!(r.blocker.as_deref(), Some("wsl_not_version_2"));
}

#[test]
fn entry_args_keep_home_inside_env() {
    let args = spawn_entry_args("d; rm -rf /", "/mnt/d/data with space", 9119, "/usr/local/bin/e");
    assert_eq!(args.len(), 12);
    assert_eq!(args[1], "d; rm -rf /");
    assert_eq!(args[6], "--exec");
    assert_eq!(args[7], "env");
    assert_eq!(args[8], "HERMES_HOME=/mnt/d/data with space");
    assert_eq!(args[9], "HERMES_PORTABLE=1");
    assert_eq!(args[10], "HERMES_DASHBOARD_PORT=9119");
    assert_eq!(args[11], "/usr/local/bin/e");
}

#[test]
fn entry_args_port_zero() {
    let args = spawn_entry_args("d", "h", 0, "e");
    assert_eq!(args[10], "HERMES_DASHBOARD_PORT=0");
}

#[test]
fn exit_success_is_ok() {
    assert!(check_exit("zstd", true, Some(3)).is_ok());
}

#[test]
fn exit_failure_messages() {
    assert_eq!(check_exit("zstd", false, Some(1)).unwrap_err(), "zstd failed (exit 1)");
    assert_eq!(
        check_exit("wsl --import X", false, None).unwrap_err(),
        "wsl --import X failed (exit -1)"
    );
    assert_eq!(check_exit("m", false, Some(i32::MIN)).unwrap_err(), "m failed (exit -2147483648)");
    assert_eq!(check_exit("m", false, Some(i32::MAX)).unwrap_err(), "m failed (exit 2147483647)");
    assert_eq!(check_exit("m", false, Some(0)).unwrap_err(), "m failed (exit 0)");
}

#[test]
fn decode_utf16_surrogate_pair() {
    assert_eq!(decode_utf16_or_utf8(&utf16_le("A\u{1d11e}z")), "A\u{1d11e}z");
}

#[test]
fn decode_utf16_high_surrogate_then_plain_unit() {
    // A high surrogate before a plain unit is replaced, and the unit is kept.
    assert_eq!(decode_utf16_or_utf8(&[0x41, 0x00, 0x34, 0xd8, 0x42, 0x00]), "A\u{fffd}B");
    // A lone low surrogate is replaced.
    assert_eq!(decode_utf16_or_utf8(&[0x41, 0x00, 0x1e, 0xdd, 0x43, 0x00]), "A\u{fffd}C");
}

#[test]
fn decode_roundtrips() {
    for s in ["x", "Hello\r\nWorld", "\u{e9}t\u{e9} \u{1f600}", "a\u{4e2d}\u{10ffff}"] {
        assert_eq!(decode_utf16_or_utf8(&utf16_le(s)), s);
        assert_eq!(decode_utf16_or_utf8(s.as_bytes()), s);
    }
}

fn owned(v: &[&str]) -> Vec<String> {
    v.iter().map(|s| s.to_string()).collect()
}

#[test]
fn command_argument_lists() {
    assert_eq!(status_args(), owned(&["--status"]));
    assert_eq!(list_args(), owned(&["--list", "--quiet"]));
    assert_eq!(
        import_args("HP_1", "D:\\runtime\\wsl-vhd", "C:\\t\\HP_1-rootfs.tar"),
        owned(&["--import", "HP_1", "D:\\runtime\\wsl-vhd", "C:\\t\\HP_1-rootfs.tar", "--version", "2"])
    );
    assert_eq!(terminate_args("HP_1"), owned(&["--terminate", "HP_1"]));
    assert_eq!(unregister_args("HP_1"), owned(&["--unregister", "HP_1"]));
    assert_eq!(zstd_args("r.tar.zst", "o.tar"), owned(&["-d", "-f", "r.tar.zst", "-o", "o.tar"]));
    assert_eq!(browser_args("http://h/chat?token=t"), owned(&["/C", "start", "", "http://h/chat?token=t"]));
    assert_eq!(wsl_subject("--import", "HP_1"), "wsl --import HP_1");
}
