use llauncher::api_types::ProtonReleaseInfo;
use llauncher::settings::AppSettings;
use llauncher::system::{
    check_system, check_system_macos, check_system_windows, is_dwproton_asset, parse_release,
    proton_dir_choice, recommended_release, AssetSource, LinuxHost, ReleaseSource,
    RECOMMENDED_DWPROTON_TAG,
};

fn asset(name: &str, url: Option<&str>, size: Option<u64>) -> AssetSource {
    AssetSource {
        name: Some(name.to_string()),
        browser_download_url: url.map(|u| u.to_string()),
        size,
    }
}

fn info(tag: &str) -> ProtonReleaseInfo {
    ProtonReleaseInfo {
        tag_name: tag.to_string(),
        download_url: String::new(),
        file_name: String::new(),
        size: 0,
        published_at: String::new(),
    }
}

#[test]
fn a_release_lists_its_first_x86_64_tarball_and_its_date() {
    let r = ReleaseSource {
        tag_name: Some("dwproton-10.0-26".to_string()),
        assets: Some(vec![
            asset("dwproton-10.0-26-x86_64.tar.xz.sha512sum", Some("u0"), Some(1)),
            asset("dwproton-10.0-26-aarch64.tar.xz", Some("u1"), Some(2)),
            asset("dwproton-10.0-26-x86_64.tar.xz", Some("u2"), Some(3)),
            asset("dwproton-10.0-26-x86_64-v2.tar.xz", Some("u3"), Some(4)),
        ]),
        published_at: Some("2025-01-15T12:00:00Z".to_string()),
        created_at: Some("2025-01-14T00:00:00Z".to_string()),
    };
    let i = parse_release(&r).unwrap();
    assert_eq!(i.tag_name, "dwproton-10.0-26");
    assert_eq!(i.download_url, "u2");
    assert_eq!(i.file_name, "dwproton-10.0-26-x86_64.tar.xz");
    assert_eq!(i.size, 3);
    assert_eq!(i.published_at, "2025-01-15");
}

#[test]
fn a_release_falls_back_to_its_creation_date_and_unknown_size() {
    let r = ReleaseSource {
        tag_name: Some("t".to_string()),
        assets: Some(vec![asset("p-x86_64.tar.xz", Some("u"), None)]),
        published_at: None,
        created_at: Some("2024-12-31T23:59:59Z".to_string()),
    };
    let i = parse_release(&r).unwrap();
    assert_eq!(i.published_at, "2024-12-31");
    assert_eq!(i.size, 0);
    let r = ReleaseSource { created_at: None, ..r };
    assert_eq!(parse_release(&r).unwrap().published_at, "");
}

#[test]
fn a_release_without_tag_asset_or_url_is_not_listed() {
    let good = ReleaseSource {
        tag_name: Some("t".to_string()),
        assets: Some(vec![asset("p-x86_64.tar.xz", Some("u"), Some(1))]),
        published_at: None,
        created_at: None,
    };
    assert!(parse_release(&good).is_some());
    assert!(parse_release(&ReleaseSource { tag_name: None, ..good.clone() }).is_none());
    assert!(parse_release(&ReleaseSource { assets: None, ..good.clone() }).is_none());
    assert!(parse_release(&ReleaseSource { assets: Some(vec![]), ..good.clone() }).is_none());
    let no_url = ReleaseSource {
        assets: Some(vec![
            asset("p-x86_64.tar.xz", None, Some(1)),
            asset("q-x86_64.tar.xz", Some("u"), Some(1)),
        ]),
        ..good
    };
    assert!(parse_release(&no_url).is_none());
}

#[test]
fn dwproton_assets_are_x86_64_tarballs() {
    assert!(is_dwproton_asset("dwproton-10.0-26-x86_64.tar.xz"));
    assert!(!is_dwproton_asset("dwproton-10.0-26-x86_64.tar.gz"));
    assert!(!is_dwproton_asset("dwproton-10.0-26.tar.xz"));
}

#[test]
fn the_pinned_release_wins_and_the_newest_stands_in() {
    let list = vec![info("dwproton-11.0-12"), info(RECOMMENDED_DWPROTON_TAG), info("dwproton-10.0-25")];
    assert_eq!(recommended_release(&list).unwrap(), 1);
    let list = vec![info("dwproton-11.0-12"), info("dwproton-10.0-25")];
    assert_eq!(recommended_release(&list).unwrap(), 0);
    let err = recommended_release(&[]).unwrap_err();
    assert_eq!(err.message(), "Proton download failed: No DWProton releases found");
}

#[test]
fn the_proton_script_is_looked_for_in_the_unpacked_directories_first() {
    let children = vec![("/p/a".to_string(), false), ("/p/b".to_string(), true)];
    assert_eq!(proton_dir_choice(&children, "/p", true).unwrap(), "/p/b");
    let children = vec![("/p/a".to_string(), false)];
    assert_eq!(proton_dir_choice(&children, "/p", true).unwrap(), "/p");
    let err = proton_dir_choice(&children, "/p", false).unwrap_err();
    assert_eq!(
        err.message(),
        "Proton download failed: Could not find proton executable in extracted files"
    );
}

#[test]
fn linux_reports_proton_only_when_configured_and_present() {
    let mut s = AppSettings::default();
    s.proton_dir = "/opt/proton".to_string();
    let host = LinuxHost {
        proton_exists: true,
        ntsync: true,
        gamemode: false,
        mangohud: true,
        gamescope: false,
        vkbasalt: false,
    };
    let c = check_system(&s, host);
    assert_eq!(c.platform, "linux");
    assert!(c.has_proton);
    assert_eq!(c.proton_path, "/opt/proton/proton");
    assert!(c.has_mangohud && !c.has_gamemode);
    s.proton_dir = String::new();
    let c = check_system(&s, host);
    assert!(!c.has_proton);
    assert_eq!(c.proton_path, "");
}

#[test]
fn macos_and_windows_reports() {
    let c = check_system_macos(Some("/w/bin/wine".to_string()), false, Some("v0.80".to_string()), None);
    assert_eq!(c.platform, "macos");
    assert!(c.has_proton && !c.has_rosetta);
    assert_eq!(c.dxmt_version, "v0.80");
    assert_eq!(c.wine_patch_version, "");
    assert!(!check_system_macos(None, true, None, None).has_proton);
    let w = check_system_windows();
    assert_eq!(w.platform, "windows");
    assert!(w.has_proton);
}
