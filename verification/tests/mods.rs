use llauncher::mods::{
    common_root, fallback_package_url, is_active_mod, is_skipped, is_zip_asset, keeps_user_mod,
    launch_moves, mods_dir, needs_backup, release_tag_from_url, unpack_action, with_suffix, ArchiveEntry, UnpackAction,
    FileMove, LoaderFiles, LoaderSlot, EFMI_REPO, LIBS_REPO, PARKED_SUFFIX,
};

fn apply(mut s: LoaderFiles, moves: &[FileMove]) -> LoaderFiles {
    fn get(s: &LoaderFiles, k: LoaderSlot) -> Option<u64> {
        match k {
            LoaderSlot::Dll => s.dll,
            LoaderSlot::DllParked => s.dll_parked,
            LoaderSlot::Compiler => s.compiler,
            LoaderSlot::CompilerParked => s.compiler_parked,
            LoaderSlot::CompilerOriginal => s.compiler_original,
        }
    }
    fn put(s: &mut LoaderFiles, k: LoaderSlot, v: Option<u64>) {
        match k {
            LoaderSlot::Dll => s.dll = v,
            LoaderSlot::DllParked => s.dll_parked = v,
            LoaderSlot::Compiler => s.compiler = v,
            LoaderSlot::CompilerParked => s.compiler_parked = v,
            LoaderSlot::CompilerOriginal => s.compiler_original = v,
        }
    }
    for m in moves {
        match *m {
            FileMove::Remove(k) => put(&mut s, k, None),
            FileMove::Rename(a, b) => {
                let v = get(&s, a);
                put(&mut s, b, v);
                put(&mut s, a, None);
            }
        }
    }
    s
}

fn installed() -> LoaderFiles {
    // The loader in place, with its compiler displacing the game's own.
    LoaderFiles {
        dll: Some(1),
        dll_parked: None,
        compiler: Some(2),
        compiler_parked: None,
        compiler_original: Some(3),
    }
}

#[test]
fn a_normal_launch_moves_the_loader_aside() {
    let after = apply(installed(), &launch_moves(installed(), false));
    assert_eq!(after.dll, None);
    assert_eq!(after.dll_parked, Some(1));
    assert_eq!(after.compiler, Some(3));
    assert_eq!(after.compiler_parked, Some(2));
    assert_eq!(after.compiler_original, None);
}

#[test]
fn a_modded_launch_after_a_normal_one_restores_the_loader() {
    let normal = apply(installed(), &launch_moves(installed(), false));
    let modded = apply(normal, &launch_moves(normal, true));
    assert_eq!(modded, installed());
}

#[test]
fn preparing_twice_does_nothing_more() {
    let once = apply(installed(), &launch_moves(installed(), false));
    assert!(launch_moves(once, false).is_empty());
    let modded = apply(once, &launch_moves(once, true));
    assert!(launch_moves(modded, true).is_empty());
}

#[test]
fn loader_file_names_and_filters() {
    assert_eq!(mods_dir("/g"), "/g/Mods");
    assert_eq!(with_suffix("d3d11.dll", PARKED_SUFFIX), "d3d11.dll.llauncher-off");
    assert!(is_skipped("README.md"));
    assert!(is_skipped(".github/workflows/x.yml"));
    assert!(!is_skipped("d3d11.dll"));
    assert!(needs_backup("D3DCompiler_47.dll"));
    assert!(!is_active_mod("DISABLED_Hat"));
    assert!(is_active_mod("Hat"));
    assert!(keeps_user_mod("Mods/Hat/hat.ini", true));
    assert!(!keeps_user_mod("Mods/Hat/hat.ini", false));
    assert!(!keeps_user_mod("d3dx.ini", true));
}

#[test]
fn a_source_archive_has_one_wrapper_directory() {
    let e = |p: &str, d: bool| ArchiveEntry { path: Some(p.to_string()), is_dir: d };
    assert_eq!(
        common_root(&[e("EFMI-main/", true), e("EFMI-main/d3d11.dll", false)]),
        Some("EFMI-main".to_string())
    );
    assert_eq!(common_root(&[e("d3d11.dll", false), e("Mods/", true)]), None);
    assert_eq!(common_root(&[e("a/x", false), e("b/y", false)]), None);
    assert_eq!(common_root(&[ArchiveEntry { path: None, is_dir: false }]), None);
}

#[test]
fn release_urls_name_their_tag() {
    assert_eq!(
        release_tag_from_url("https://github.com/SpectrumQT/EFMI-Package/releases/tag/v1.2.0"),
        Some("v1.2.0".to_string())
    );
    assert_eq!(release_tag_from_url("https://github.com/x/y/releases/latest"), None);
    assert_eq!(
        fallback_package_url(LIBS_REPO, "v1"),
        "https://github.com/SpectrumQT/XXMI-Libs-Package/releases/download/v1/XXMI-PACKAGE-v1.zip"
    );
    assert_eq!(
        fallback_package_url(EFMI_REPO, "v2"),
        "https://github.com/SpectrumQT/EFMI-Package/releases/download/v2/EFMI-PACKAGE-v2.zip"
    );
    assert!(is_zip_asset("EFMI-PACKAGE-v2.ZIP"));
}

#[test]
fn never_overwrites_an_installed_mod_or_keeps_the_archives_own_files() {
    assert!(matches!(unpack_action(Some("Mods/Hat/hat.ini"), None, false, true), UnpackAction::Skip));
    assert!(matches!(
        unpack_action(Some("Mods/Hat/hat.ini"), None, false, false),
        UnpackAction::File { ref rel, backup_first: false } if rel == "Mods/Hat/hat.ini"
    ));
    assert!(matches!(unpack_action(Some("README.md"), None, false, false), UnpackAction::Skip));
    assert!(matches!(unpack_action(None, None, false, false), UnpackAction::Skip));
}

#[test]
fn unpacks_below_the_wrapper_and_backs_up_the_games_compiler() {
    let root = Some("EFMI-main");
    assert!(matches!(
        unpack_action(Some("EFMI-main/d3d11.dll"), root, false, true),
        UnpackAction::File { ref rel, backup_first: false } if rel == "d3d11.dll"
    ));
    assert!(matches!(unpack_action(Some("EFMI-main"), root, true, false), UnpackAction::Skip));
    assert!(matches!(unpack_action(Some("other/x.dll"), root, false, false), UnpackAction::Skip));
    assert!(matches!(
        unpack_action(Some("EFMI-main/Core/EFMI"), root, true, false),
        UnpackAction::Dir(ref d) if d == "Core/EFMI"
    ));
    assert!(matches!(
        unpack_action(Some("d3dcompiler_47.dll"), None, false, true),
        UnpackAction::File { backup_first: true, .. }
    ));
}

#[test]
fn clearing_the_loader_names_its_files_and_never_the_mods() {
    let files = llauncher::mods::loader_files_to_clear();
    assert_eq!(
        files,
        vec![
            "d3d11.dll.llauncher-off".to_string(),
            "d3dcompiler_47.dll.llauncher-off".to_string(),
            "d3d11.dll".to_string(),
            "d3dx.ini".to_string(),
        ]
    );
    assert!(!files.iter().any(|f| f.starts_with("Mods")));
}

#[test]
fn a_package_lists_its_entries_and_hands_out_their_data() {
    let opts = zip::write::SimpleFileOptions::default().compression_method(zip::CompressionMethod::Stored);
    let mut w = zip::ZipWriter::new(std::io::Cursor::new(Vec::new()));
    w.add_directory("pkg/", opts).unwrap();
    w.start_file("pkg/d3d11.dll", opts).unwrap();
    std::io::Write::write_all(&mut w, b"loader").unwrap();
    w.start_file("../evil.dll", opts).unwrap();
    std::io::Write::write_all(&mut w, b"nope").unwrap();
    let bytes = w.finish().unwrap().into_inner();

    let entries = llauncher::mods::package_entries(&bytes).unwrap();
    assert_eq!(entries.len(), 3);
    assert!(entries[0].is_dir);
    assert_eq!(entries[1].path.as_deref(), Some("pkg/d3d11.dll"));
    assert!(!entries[1].is_dir);
    assert_eq!(entries[2].path, None);
    assert_eq!(llauncher::mods::package_file(&bytes, 1).unwrap(), b"loader".to_vec());
    assert!(matches!(
        llauncher::mods::package_entries(b"not a zip"),
        Err(llauncher::error::AppError::ExtractionFailed(_))
    ));
}
