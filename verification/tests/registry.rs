use hermes_launcher::registry::{registry_value, windows_build_query_args, wsl_default_version_query_args};

#[test]
fn reads_a_decimal_string_value() {
    let out = "\r\nHKEY_LOCAL_MACHINE\\SOFTWARE\\Microsoft\\Windows NT\\CurrentVersion\r\n    CurrentBuildNumber    REG_SZ    19045\r\n\r\n";
    assert_eq!(registry_value(out, "CurrentBuildNumber"), Some(19045));
}

#[test]
fn reads_a_hex_dword_value() {
    let out = "\r\nHKEY_CURRENT_USER\\Software\\Microsoft\\Windows\\CurrentVersion\\Lxss\r\n    DefaultVersion    REG_DWORD    0x2\r\n\r\n";
    assert_eq!(registry_value(out, "DefaultVersion"), Some(2));
    assert_eq!(registry_value("  X  REG_DWORD  0xFfFf\n", "X"), Some(0xffff));
}

#[test]
fn missing_or_malformed_values() {
    assert_eq!(registry_value("", "DefaultVersion"), None);
    assert_eq!(registry_value("ERROR: The system was unable to find the specified registry key or value.\n", "DefaultVersion"), None);
    assert_eq!(registry_value("  DefaultVersionX    REG_DWORD    0x2\n", "DefaultVersion"), None);
    assert_eq!(registry_value("  DefaultVersion    REG_SZ    abc\n", "DefaultVersion"), None);
    assert_eq!(registry_value("  DefaultVersion    REG_DWORD    0x\n", "DefaultVersion"), None);
    assert_eq!(registry_value("  DefaultVersion\n", "DefaultVersion"), None);
}

#[test]
fn too_large_numbers_are_refused() {
    assert_eq!(registry_value("  N  REG_SZ  4294967295\n", "N"), Some(u32::MAX));
    assert_eq!(registry_value("  N  REG_SZ  4294967296\n", "N"), None);
    assert_eq!(registry_value("  N  REG_QWORD  0x100000000\n", "N"), None);
}

#[test]
fn first_matching_line_wins() {
    assert_eq!(registry_value("  N  REG_SZ  7\n  N  REG_SZ  8\n", "N"), Some(7));
}

#[test]
fn query_arguments() {
    assert_eq!(
        windows_build_query_args(),
        vec!["query", "HKLM\\SOFTWARE\\Microsoft\\Windows NT\\CurrentVersion", "/v", "CurrentBuildNumber"]
    );
    assert_eq!(
        wsl_default_version_query_args(),
        vec!["query", "HKCU\\Software\\Microsoft\\Windows\\CurrentVersion\\Lxss", "/v", "DefaultVersion"]
    );
}
