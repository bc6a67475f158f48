use llauncher::digest::{lower_hex, Crc32Stream, Md5Stream};
use llauncher::error::AppError;
use llauncher::optiscaler::{
    install_from_archive, install_probe_paths, installed_from, manifest_version, plan_install, InstallOptions,
};
use llauncher::resources::check_stream_digest;
use llauncher::settings::AppSettings;
use llauncher::update::{check_not_cancelled, finish_update, update_route, UpdateRoute};

const SAMPLE_INI: &str = "[Upscalers]\r\n; Vulkan\r\nVulkanUpscaler=auto\r\n\r\n\r\n[Spoofing]\r\nDxgi=auto\r\nVulkan=auto\r\n\r\n[Hooks]\r\nUseNtdllHooks=auto\r\n";

fn entries(v: &[(&str, &[u8])]) -> Vec<(String, Vec<u8>)> {
    v.iter().map(|(n, d)| (n.to_string(), d.to_vec())).collect()
}

fn wine() -> InstallOptions {
    InstallOptions { wine: true, spoof_vulkan: false }
}

#[test]
fn md5_of_fed_chunks_is_the_md5_of_their_concatenation() {
    let mut s = Md5Stream::new();
    s.feed(b"a");
    s.feed(b"bc");
    assert_eq!(s.hex_digest(), "900150983cd24fb0d6963f7d28e17f72");
    assert_eq!(Md5Stream::new().hex_digest(), "d41d8cd98f00b204e9800998ecf8427e");
}

#[test]
fn crc32_of_fed_chunks_is_the_crc_of_their_concatenation() {
    let mut c = Crc32Stream::new();
    c.feed(b"1234");
    c.feed(b"56789");
    assert_eq!(c.value(), 0xCBF4_3926);
    assert_eq!(Crc32Stream::new().value(), 0);
}

#[test]
fn hex_is_lower_case_two_digits_per_byte() {
    assert_eq!(lower_hex(&[0x0f, 0xa0, 0x00, 0xff]), "0fa000ff");
    assert_eq!(lower_hex(&[]), "");
}

#[test]
fn a_download_is_kept_only_with_the_expected_md5() {
    let mut s = Md5Stream::new();
    s.feed(b"abc");
    assert!(check_stream_digest("900150983cd24fb0d6963f7d28e17f72", s).is_ok());
    let mut s = Md5Stream::new();
    s.feed(b"abd");
    match check_stream_digest("900150983cd24fb0d6963f7d28e17f72", s) {
        Err(AppError::Md5Mismatch { expected, actual }) => {
            assert_eq!(expected, "900150983cd24fb0d6963f7d28e17f72");
            assert_ne!(actual, expected);
            assert_eq!(actual.len(), 32);
        }
        other => panic!("unexpected {:?}", other),
    }
}

#[test]
fn optiscaler_is_probed_at_the_proxy_and_the_ini() {
    let (proxy, ini) = install_probe_paths("/games/endfield");
    assert_eq!(proxy, "/games/endfield/winmm.dll");
    assert_eq!(ini, "/games/endfield/OptiScaler.ini");
    assert!(installed_from(true, true));
    assert!(!installed_from(true, false));
    assert!(!installed_from(false, true));
}

#[test]
fn an_update_takes_the_delta_only_when_the_engine_is_current() {
    assert_eq!(update_route(false, Some(true)).unwrap(), UpdateRoute::Delta);
    assert_eq!(update_route(false, Some(false)).unwrap(), UpdateRoute::Full);
    assert_eq!(update_route(false, None).unwrap(), UpdateRoute::Full);
    assert!(matches!(update_route(true, Some(true)), Err(AppError::Cancelled)));
    assert!(matches!(check_not_cancelled(true), Err(AppError::Cancelled)));
    assert!(check_not_cancelled(false).is_ok());
}

#[test]
fn a_finished_update_records_its_version_and_a_failed_one_does_not() {
    let mut s = AppSettings::default();
    s.installed_version = "1.0.14".to_string();
    assert!(finish_update(&mut s, Ok("1.1.2".to_string())).is_ok());
    assert_eq!(s.installed_version, "1.1.2");
    assert!(matches!(finish_update(&mut s, Err(AppError::Cancelled)), Err(AppError::Cancelled)));
    assert_eq!(s.installed_version, "1.1.2");
}

#[test]
fn installs_under_the_proxy_name_and_skips_the_installer() {
    let out = plan_install(
        entries(&[
            ("OptiScaler.dll", b"proxy"),
            ("OptiScaler.ini", SAMPLE_INI.as_bytes()),
            ("setup_linux.sh", b"#!/bin/sh"),
            ("setup_windows.bat", b"@echo off"),
            ("!! README_EXTRACT ALL FILES TO GAME FOLDER !!.txt", b"read me"),
            ("D3D12_Optiscaler\\D3D12Core.dll", b"core"),
            ("..\\escape.dll", b"nope"),
        ]),
        "v0.9.4",
        wine(),
        None,
    )
    .unwrap();
    assert_eq!(out.count, 3);
    let names: Vec<&str> = out.files.iter().map(|(n, _)| n.as_str()).collect();
    assert_eq!(names, vec!["winmm.dll", "OptiScaler.ini", "D3D12_Optiscaler/D3D12Core.dll"]);
    assert!(out.ini.contains("UseNtdllHooks=false"));
    assert_eq!(manifest_version(&out.manifest), "v0.9.4");
    assert_eq!(out.manifest, "v0.9.4\nwinmm.dll\nOptiScaler.ini\nD3D12_Optiscaler/D3D12Core.dll\n");
}

#[test]
fn keeps_the_users_ini_but_still_tunes_it() {
    let out = plan_install(
        entries(&[("OptiScaler.dll", b"proxy"), ("OptiScaler.ini", SAMPLE_INI.as_bytes())]),
        "v0.9.4",
        wine(),
        Some("[Menu]\nScale=1.5\n[Hooks]\nUseNtdllHooks=auto\n".to_string()),
    )
    .unwrap();
    assert!(out.ini.contains("Scale=1.5"));
    assert!(out.ini.contains("UseNtdllHooks=false"));
    assert_eq!(out.files.len(), 1);
    assert_eq!(out.count, 2);
}

#[test]
fn an_archive_without_the_dll_or_the_ini_is_refused() {
    match plan_install(entries(&[("OptiScaler.ini", b"[A]\n")]), "v1", wine(), None) {
        Err(AppError::ExtractionFailed(m)) => assert_eq!(m, "The OptiScaler archive has no OptiScaler.dll"),
        other => panic!("unexpected {:?}", other),
    }
    match plan_install(entries(&[("OptiScaler.dll", b"x")]), "v1", wine(), None) {
        Err(AppError::ExtractionFailed(m)) => assert_eq!(m, "The OptiScaler archive has no OptiScaler.ini"),
        other => panic!("unexpected {:?}", other),
    }
    match plan_install(entries(&[("OptiScaler.dll", b"x"), ("OptiScaler.ini", &[0xff, 0xfe])]), "v1", wine(), None) {
        Err(AppError::Io(m)) => assert_eq!(m, "stream did not contain valid UTF-8"),
        other => panic!("unexpected {:?}", other),
    }
}

#[test]
fn installs_from_a_7z_archive() {
    let mut w = sevenz_rust2::ArchiveWriter::new(std::io::Cursor::new(Vec::new())).unwrap();
    w.push_archive_entry(sevenz_rust2::ArchiveEntry::new_directory("D3D12_Optiscaler"), None::<&[u8]>).unwrap();
    w.push_archive_entry(sevenz_rust2::ArchiveEntry::new_file("OptiScaler.dll"), Some(&b"proxy"[..])).unwrap();
    w.push_archive_entry(sevenz_rust2::ArchiveEntry::new_file("OptiScaler.ini"), Some(SAMPLE_INI.as_bytes()))
        .unwrap();
    w.push_archive_entry(sevenz_rust2::ArchiveEntry::new_file("D3D12_Optiscaler/D3D12Core.dll"), Some(&b"core"[..]))
        .unwrap();
    let bytes = w.finish().unwrap().into_inner();
    let out = install_from_archive(&bytes, "v0.9.4", wine(), None).unwrap();
    assert_eq!(out.count, 3);
    assert_eq!(out.files[0], ("winmm.dll".to_string(), b"proxy".to_vec()));
    assert_eq!(out.files[2], ("D3D12_Optiscaler/D3D12Core.dll".to_string(), b"core".to_vec()));
    assert!(out.ini.contains("UseNtdllHooks=false"));
    assert!(matches!(
        install_from_archive(b"not an archive", "v0.9.4", wine(), None),
        Err(AppError::ExtractionFailed(_))
    ));
}
