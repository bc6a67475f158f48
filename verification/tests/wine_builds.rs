use llauncher::api_types::ProtonReleaseInfo;
use llauncher::error::AppError;
use llauncher::system::{parse_release_of, AssetKind, AssetSource, ReleaseSource};
use llauncher::wine::{
    default_release, first_marker, install_dir_name, is_dxmt_asset, is_wine_staging_asset, marker_value,
    module_set_version, modules_asset_name, modules_release_tag, offered_releases, wine_install_step,
    WineInstallAction, WineInstallEvent, WineInstallState,
};

fn release(tag: &str) -> ProtonReleaseInfo {
    ProtonReleaseInfo {
        tag_name: tag.to_string(),
        download_url: format!("https://example.invalid/{}", tag),
        file_name: format!("wine-staging-{}-osx64.tar.xz", tag),
        size: 1,
        published_at: "2025-01-01".to_string(),
    }
}

#[test]
fn picks_only_the_staging_build() {
    assert!(is_wine_staging_asset("wine-staging-11.16-osx64.tar.xz"));
    assert!(!is_wine_staging_asset("wine-devel-11.16-osx64.tar.xz"));
    assert!(!is_wine_staging_asset("wine-staging-11.16-osx64.tar.xz.sha256"));
}

#[test]
fn module_set_names_follow_the_build_script() {
    assert_eq!(modules_release_tag("11.16"), "wine-modules-11.16");
    assert_eq!(modules_asset_name("11.16"), "endfield-wine-modules-11.16-macos.tar.xz");
}

#[test]
fn module_set_version_reads_the_tag_back() {
    assert_eq!(module_set_version("wine-modules-11.16"), Some("11.16".to_string()));
    assert_eq!(module_set_version("v0.80"), None);
    assert_eq!(module_set_version(&modules_release_tag("10.2")), Some("10.2".to_string()));
}

#[test]
fn install_directory_is_named_after_the_tag() {
    assert_eq!(install_dir_name("11.16"), "wine-staging-11.16");
}

#[test]
fn markers_are_trimmed_and_empty_ones_ignored() {
    assert_eq!(marker_value("v0.80\n"), Some("v0.80".to_string()));
    assert_eq!(marker_value("  \n"), None);
}

#[test]
fn dxmt_asset_is_recognised() {
    assert!(is_dxmt_asset("dxmt-v0.80-builtin.tar.gz"));
    assert!(!is_dxmt_asset("dxmt-v0.80-builtin.zip"));
}

#[test]
fn only_builds_with_a_module_set_are_offered() {
    let builds = vec![release("11.17"), release("11.16"), release("11.15")];
    let sets = vec!["11.16".to_string(), "11.15".to_string()];
    let offered = offered_releases(builds, &sets).unwrap();
    let tags: Vec<&str> = offered.iter().map(|r| r.tag_name.as_str()).collect();
    assert_eq!(tags, vec!["11.16", "11.15"]);
}

#[test]
fn no_build_with_a_module_set_is_an_error() {
    let builds = vec![release("11.17")];
    let err = offered_releases(builds, &[]).unwrap_err();
    assert!(err.message().starts_with("Proton download failed: "));
}

#[test]
fn the_recommended_build_is_the_default_while_offered() {
    let list = vec![release("11.17"), release("11.16")];
    assert_eq!(default_release(&list), 1);
    let list = vec![release("11.17"), release("11.15")];
    assert_eq!(default_release(&list), 0);
}

fn step(state: WineInstallState, event: WineInstallEvent) -> (WineInstallState, WineInstallAction) {
    wine_install_step(state, event)
}

fn refused(action: &WineInstallAction) -> String {
    match action {
        WineInstallAction::Refuse(m) => m.clone(),
        other => panic!("expected a refusal, got {:?}", other),
    }
}

#[test]
fn apple_silicon_install_runs_every_stage_in_order() {
    let start = WineInstallState::Start { requested: None, apple_silicon: true };
    let (s, a) = step(start, WineInstallEvent::Begin);
    assert!(matches!(a, WineInstallAction::ListReleases));
    let (s, a) = step(
        s,
        WineInstallEvent::Releases {
            builds: vec![release("11.17"), release("11.16"), release("11.15")],
            module_sets: vec!["11.16".to_string(), "11.15".to_string()],
        },
    );
    match &a {
        WineInstallAction::FetchModuleSet { release_tag, asset_name } => {
            assert_eq!(release_tag, "wine-modules-11.16");
            assert_eq!(asset_name, "endfield-wine-modules-11.16-macos.tar.xz");
        }
        other => panic!("{:?}", other),
    }
    let (s, a) = step(s, WineInstallEvent::ModuleSet(Some(release("wine-modules-11.16"))));
    assert!(matches!(a, WineInstallAction::ProbeRosetta));
    let (s, a) = step(s, WineInstallEvent::Rosetta(false));
    assert!(matches!(a, WineInstallAction::InstallRosetta));
    let (s, a) = step(s, WineInstallEvent::Done);
    match &a {
        WineInstallAction::PrepareInstallDir { dir_name } => assert_eq!(dir_name, "wine-staging-11.16"),
        other => panic!("{:?}", other),
    }
    let (s, a) = step(s, WineInstallEvent::Done);
    match &a {
        WineInstallAction::DownloadWine { release, dir_name } => {
            assert_eq!(release.tag_name, "11.16");
            assert_eq!(dir_name, "wine-staging-11.16");
        }
        other => panic!("{:?}", other),
    }
    let bundle = "/w/wine-staging-11.16/Wine Staging.app".to_string();
    let (s, a) = step(s, WineInstallEvent::WineBundle(Some(bundle.clone())));
    assert!(matches!(a, WineInstallAction::FetchDxmt));
    let (s, a) = step(s, WineInstallEvent::DxmtRelease(Some(release("v0.80"))));
    assert!(matches!(&a, WineInstallAction::DownloadDxmt { release } if release.tag_name == "v0.80"));
    let (s, a) = step(s, WineInstallEvent::DxmtPayload(Some("/w/dxmt/v0.80".to_string())));
    match &a {
        WineInstallAction::InstallDxmt { payload, bundle: into, dir_name, version } => {
            assert_eq!(payload, "/w/dxmt/v0.80");
            assert_eq!(into, &bundle);
            assert_eq!(dir_name, "wine-staging-11.16");
            assert_eq!(version, "v0.80");
        }
        other => panic!("{:?}", other),
    }
    let (s, a) = step(s, WineInstallEvent::Done);
    match &a {
        WineInstallAction::DownloadModules { release, dir_name } => {
            assert_eq!(release.tag_name, "wine-modules-11.16");
            assert_eq!(dir_name, "wine-staging-11.16");
        }
        other => panic!("{:?}", other),
    }
    let (s, a) = step(s, WineInstallEvent::ModulesPayload(Some("/w/m".to_string())));
    assert!(matches!(&a, WineInstallAction::InstallModules { version, .. } if version == "wine-modules-11.16"));
    let (s, a) = step(s, WineInstallEvent::Done);
    match &a {
        WineInstallAction::Complete { wine_dir, version } => {
            assert_eq!(wine_dir, &bundle);
            assert_eq!(version, "11.16");
        }
        other => panic!("{:?}", other),
    }
    assert!(matches!(s, WineInstallState::Finished));
}

#[test]
fn intel_install_skips_rosetta_and_dxmt() {
    let start = WineInstallState::Start { requested: Some(release("11.15")), apple_silicon: false };
    let (s, a) = step(start, WineInstallEvent::Begin);
    assert!(matches!(&a, WineInstallAction::FetchModuleSet { release_tag, .. } if release_tag == "wine-modules-11.15"));
    let (s, a) = step(s, WineInstallEvent::ModuleSet(Some(release("wine-modules-11.15"))));
    assert!(matches!(&a, WineInstallAction::PrepareInstallDir { dir_name } if dir_name == "wine-staging-11.15"));
    let (s, _) = step(s, WineInstallEvent::Done);
    let (s, a) = step(s, WineInstallEvent::WineBundle(Some("/b".to_string())));
    assert!(matches!(a, WineInstallAction::DownloadModules { .. }));
    let _ = s;
}

#[test]
fn rosetta_already_present_goes_straight_to_the_directory() {
    let start = WineInstallState::AwaitRosettaProbe { wine: release("11.16"), modules: release("m") };
    let (_, a) = step(start, WineInstallEvent::Rosetta(true));
    assert!(matches!(a, WineInstallAction::PrepareInstallDir { .. }));
}

#[test]
fn a_missing_module_set_stops_before_the_download() {
    let start = WineInstallState::AwaitModuleSet { wine: release("11.17"), apple_silicon: true };
    let (s, a) = step(start, WineInstallEvent::ModuleSet(None));
    assert_eq!(
        refused(&a),
        "No Endfield module set is published for Wine 11.17 (release wine-modules-11.17 has no \
         endfield-wine-modules-11.17-macos.tar.xz)"
    );
    assert!(matches!(s, WineInstallState::Failed));
}

#[test]
fn each_missing_piece_has_its_reason() {
    let wine = release("11.16");
    let m = release("m");
    let (_, a) = step(
        WineInstallState::ChoosingRelease { apple_silicon: false },
        WineInstallEvent::Releases { builds: vec![release("11.17")], module_sets: vec![] },
    );
    assert_eq!(refused(&a), "No Wine build with a published Endfield module set was found");
    let (_, a) = step(
        WineInstallState::AwaitWineBundle { wine: wine.clone(), modules: m.clone(), apple_silicon: false },
        WineInstallEvent::WineBundle(None),
    );
    assert_eq!(refused(&a), "Extracted archive holds no Wine bundle");
    let (_, a) = step(
        WineInstallState::AwaitDxmtRelease { wine: wine.clone(), modules: m.clone(), bundle: "/b".into() },
        WineInstallEvent::DxmtRelease(None),
    );
    assert_eq!(refused(&a), "No DXMT builtin asset found");
    let (_, a) = step(
        WineInstallState::AwaitDxmtPayload { wine: wine.clone(), modules: m.clone(), bundle: "/b".into(), dxmt: m.clone() },
        WineInstallEvent::DxmtPayload(None),
    );
    assert_eq!(refused(&a), "Extracted DXMT archive holds no winemetal.so");
    let (_, a) = step(
        WineInstallState::AwaitModulesPayload { wine, modules: m, bundle: "/b".into() },
        WineInstallEvent::ModulesPayload(None),
    );
    assert_eq!(refused(&a), "Extracted module archive holds no ntdll.so");
}

#[test]
fn an_outside_failure_stops_the_install_and_unasked_answers_are_ignored() {
    let (s, a) = step(
        WineInstallState::ChoosingRelease { apple_silicon: true },
        WineInstallEvent::Failed(AppError::Http("offline".into())),
    );
    assert!(matches!(s, WineInstallState::Failed));
    assert!(matches!(a, WineInstallAction::Fail(AppError::Http(m)) if m == "offline"));
    let (s, a) = step(WineInstallState::Finished, WineInstallEvent::Done);
    assert!(matches!(s, WineInstallState::Finished));
    assert!(matches!(a, WineInstallAction::Idle));
    let (s, a) = step(WineInstallState::Failed, WineInstallEvent::Failed(AppError::Cancelled));
    assert!(matches!(s, WineInstallState::Failed));
    assert!(matches!(a, WineInstallAction::Idle));
    let (s, a) = step(
        WineInstallState::AwaitInstallDir { wine: release("11.16"), modules: release("m"), apple_silicon: false },
        WineInstallEvent::Rosetta(true),
    );
    assert!(matches!(s, WineInstallState::AwaitInstallDir { .. }));
    assert!(matches!(a, WineInstallAction::Idle));
}

#[test]
fn the_nearest_marker_that_records_something_wins() {
    let contents = vec![None, Some("  \n".to_string()), Some("v0.80\n".to_string()), Some("v0.70".to_string())];
    assert_eq!(first_marker(&contents), Some("v0.80".to_string()));
    assert_eq!(first_marker(&[None, None]), None);
}

#[test]
fn releases_are_read_for_the_asset_each_listing_wants() {
    let asset = |name: &str| AssetSource {
        name: Some(name.to_string()),
        browser_download_url: Some(format!("https://example.invalid/{}", name)),
        size: Some(7),
    };
    let r = ReleaseSource {
        tag_name: Some("11.16".to_string()),
        assets: Some(vec![
            asset("wine-devel-11.16-osx64.tar.xz"),
            asset("wine-staging-11.16-osx64.tar.xz"),
            asset("endfield-wine-modules-11.16-macos.tar.xz"),
            asset("dxmt-v0.80-builtin.tar.gz"),
        ]),
        published_at: Some("2025-03-01T10:00:00Z".to_string()),
        created_at: None,
    };
    let staging = parse_release_of(&r, &AssetKind::WineStaging).unwrap();
    assert_eq!(staging.file_name, "wine-staging-11.16-osx64.tar.xz");
    assert_eq!(staging.published_at, "2025-03-01");
    let named = parse_release_of(&r, &AssetKind::Named(modules_asset_name("11.16"))).unwrap();
    assert_eq!(named.file_name, "endfield-wine-modules-11.16-macos.tar.xz");
    assert_eq!(parse_release_of(&r, &AssetKind::DxmtBuiltin).unwrap().size, 7);
    assert!(parse_release_of(&r, &AssetKind::DwProton).is_none());
}
