use llauncher::diagnostics::{build_debug_info, debug_header, pretty_name, windows_debug_header, LinuxProbe};
use llauncher::error::AppError;
use llauncher::paths::{
    config_dir_from, data_base, data_base_from, default_proton_dir, default_wine_dir, game_dir_from, join,
};
use llauncher::settings::AppSettings;

#[test]
fn os_release_gives_the_pretty_name() {
    assert_eq!(
        pretty_name("NAME=Arch\nPRETTY_NAME=\"Arch Linux\"\n"),
        Some("Arch Linux".to_string())
    );
    assert_eq!(pretty_name("NAME=Arch\n"), None);
}

#[test]
fn the_linux_report_names_the_proton_build() {
    let mut s = AppSettings::default();
    s.proton_dir = "/p/dwproton-10.0-26-x86_64".to_string();
    s.installed_version = "1.3.3".to_string();
    let probe = LinuxProbe {
        os: "Arch Linux".to_string(),
        kernel: "6.9".to_string(),
        desktop: "KDE".to_string(),
        session: "wayland".to_string(),
        gpu: String::new(),
        ntsync: true,
        flatpak: false,
    };
    let h = debug_header("2.0.0", &s, &probe);
    assert!(h.starts_with("LLauncher 2.0.0\nOS: Arch Linux (kernel 6.9)\nSession: KDE / wayland\nGPU: unknown\n"));
    assert!(h.contains("\nProton: dwproton-10.0-26-x86_64\nGame version: 1.3.3\nntsync: true\n"));
    assert!(h.ends_with("\nFlatpak: false"));
}

#[test]
fn the_windows_report_fills_in_unknowns() {
    let h = windows_debug_header("2.0.0", &AppSettings::default(), "", "");
    assert!(h.starts_with("LLauncher 2.0.0\nOS: Windows (version unknown)\nGPU: unknown\nGame version: not installed\n"));
}

#[test]
fn the_report_appends_both_log_tails() {
    assert_eq!(
        build_debug_info("H", "a", "b"),
        "H\n\n--- launcher.log tail ---\na\n\n--- launch.log tail ---\nb"
    );
}

#[test]
fn paths_join_like_pathbuf() {
    assert_eq!(join("/a", "b"), "/a/b");
    assert_eq!(join("/a/", "b"), "/a/b");
    assert_eq!(join("/a", "/b"), "/b");
    assert_eq!(join("", "b"), "b");
    assert_eq!(config_dir_from(Some("/home/u/.config".to_string())), "/home/u/.config/llauncher");
    assert_eq!(config_dir_from(None), "./llauncher");
    assert_eq!(data_base_from(None, Some("/home/u".to_string())), "/home/u/.local/share/llauncher");
    assert_eq!(game_dir_from(Some("/home/u".to_string())), "/home/u/Games/ArknightsEndfield");
}

#[test]
fn every_error_reads_as_its_message() {
    assert_eq!(AppError::TarNotFound.message(), "tar not found");
    assert_eq!(AppError::Cancelled.message(), "Download cancelled");
    assert_eq!(
        AppError::Md5Mismatch { expected: "a".to_string(), actual: "b".to_string() }.message(),
        "MD5 mismatch: expected a, got b"
    );
    assert_eq!(
        AppError::DiskSpace { path: "/g".to_string(), needed_mib: 10, available_mib: 3 }.message(),
        "Not enough free disk space in /g: 10 MiB required, 3 MiB available"
    );
    assert_eq!(AppError::WineNotFound("x".to_string()).message(), "Wine not found: x");
}

#[test]
fn wine_and_proton_installs_live_under_the_data_directory() {
    let base = data_base();
    assert_eq!(default_wine_dir(), join(&base, "wine"));
    assert_eq!(default_proton_dir(), join(&base, "proton"));
}
