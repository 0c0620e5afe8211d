use hermes_launcher::paths::{
    boot_hermes, boot_plan, find_usb_root, hash_prefix_hex, join_path, logs_dir, short_hash, Paths,
    RootProbe,
};

#[test]
fn distro_name_is_deterministic_per_path() {
    let a = Paths { usb_root: String::from("D:\\") };
    let b = Paths { usb_root: String::from("D:\\") };
    let c = Paths { usb_root: String::from("E:\\") };
    assert_eq!(a.distro_name(), b.distro_name());
    assert_ne!(a.distro_name(), c.distro_name());
    assert!(a.distro_name().starts_with("HermesPortable_"));
    assert_eq!(a.distro_name().len(), "HermesPortable_".len() + 8);
}

#[test]
fn short_hash_is_the_sha256_prefix() {
    // SHA-256("") = e3b0c442..., SHA-256("abc") = ba7816bf...
    assert_eq!(short_hash(""), "e3b0c442");
    assert_eq!(short_hash("abc"), "ba7816bf");
}

#[test]
fn distro_name_hashes_the_root_text() {
    let p = Paths { usb_root: String::from("abc") };
    assert_eq!(p.distro_name(), "HermesPortable_ba7816bf");
}

#[test]
fn hash_prefix_hex_formats_four_bytes() {
    assert_eq!(hash_prefix_hex(&[0x00, 0xab, 0x10, 0xff, 0x77]), "00ab10ff");
}

fn probe(marker: bool) -> RootProbe {
    RootProbe { marker_present: marker }
}

#[test]
fn usb_root_is_the_first_marked_ancestor() {
    let probes = vec![probe(false), probe(true), probe(true)];
    assert_eq!(find_usb_root(&probes), Some(1));
    let probes = vec![probe(true)];
    assert_eq!(find_usb_root(&probes), Some(0));
}

#[test]
fn usb_root_not_found() {
    let probes = vec![probe(false), probe(false)];
    assert_eq!(find_usb_root(&probes), None);
    assert_eq!(find_usb_root(&Vec::new()), None);
}

#[test]
fn boot_hermes_points_home_at_the_stick() {
    let paths = Paths { usb_root: String::from("D:\\") };
    let args = boot_hermes(&paths, "HermesPortable_0011aabb", 42777).unwrap();
    let expected: Vec<String> = vec![
        "-d", "HermesPortable_0011aabb", "--user", "hermes", "--cd", "/opt/hermes", "--exec", "env",
        "HERMES_HOME=/mnt/d/data", "HERMES_PORTABLE=1", "HERMES_DASHBOARD_PORT=42777",
        "/usr/local/bin/hermes-portable-entry",
    ]
    .into_iter()
    .map(String::from)
    .collect();
    assert_eq!(args, expected);
}

#[test]
fn boot_hermes_keeps_a_lower_case_drive() {
    let paths = Paths { usb_root: String::from("e:\\") };
    let args = boot_hermes(&paths, "x", 1).unwrap();
    assert_eq!(args[8], "HERMES_HOME=/mnt/e/data");
}

#[test]
fn boot_hermes_without_drive_letter_fails() {
    let paths = Paths { usb_root: String::new() };
    assert_eq!(boot_hermes(&paths, "x", 1).unwrap_err(), "cannot determine USB drive letter");
}

#[test]
fn join_path_like_windows_path_join() {
    assert_eq!(join_path("D:\\", "runtime\\wsl-vhd"), "D:\\runtime\\wsl-vhd");
    assert_eq!(join_path("D:\\Hermes", "data"), "D:\\Hermes\\data");
    assert_eq!(join_path("D:/Hermes/", "data"), "D:/Hermes/data");
    assert_eq!(join_path("D:", "data"), "D:data");
    assert_eq!(join_path("", "data"), "data");
    assert_eq!(join_path("1:", "data"), "1:\\data");
}

#[test]
fn boot_plan_keeps_the_disk_on_the_stick() {
    let paths = Paths { usb_root: String::from("E:\\") };
    let plan = boot_plan(&paths, "C:\\Users\\u\\AppData\\Local\\Temp");
    let distro = paths.distro_name();
    let tar = format!("C:\\Users\\u\\AppData\\Local\\Temp\\{}-rootfs.tar", distro);
    assert_eq!(plan.distro, distro);
    assert_eq!(plan.zstd_exe, "E:\\launcher\\ext\\zstd.exe");
    assert_eq!(plan.rootfs, "E:\\runtime\\HermesPortable.tar.zst");
    assert_eq!(plan.temp_tar, tar);
    assert_eq!(plan.zstd_args, vec!["-d".to_string(), "-f".into(), plan.rootfs.clone(), "-o".into(), tar.clone()]);
    assert_eq!(plan.vhd_dir, "E:\\runtime\\wsl-vhd");
    assert_eq!(
        plan.import_args,
        vec!["--import".to_string(), distro.clone(), "E:\\runtime\\wsl-vhd".into(), tar, "--version".into(), "2".into()]
    );
    assert_eq!(plan.token_file, "E:\\data\\cache\\dashboard-token.txt");
}

#[test]
fn logs_folder_on_the_stick() {
    assert_eq!(logs_dir(&Paths { usb_root: String::from("D:\\") }), "D:\\data\\logs");
    assert_eq!(logs_dir(&Paths { usb_root: String::from("D:\\H") }), "D:\\H\\data\\logs");
}
