use llauncher::prefix::{
    backup_args, backup_has_pfx, check_backup_listing, check_backup_source, is_dxvk_cache_name,
    restore_args, scans_at, ShaderCacheResult,
};

#[test]
fn dxvk_caches_are_recognised_by_name() {
    assert!(is_dxvk_cache_name("Endfield.dxvk-cache"));
    assert!(is_dxvk_cache_name("Endfield.dxvk-cache.tmp"));
    assert!(!is_dxvk_cache_name("Endfield.exe"));
}

#[test]
fn the_sweep_stays_shallow() {
    assert!(scans_at(0) && scans_at(3));
    assert!(!scans_at(4));
}

#[test]
fn the_sweep_counts_files_and_bytes() {
    let mut r = ShaderCacheResult::new();
    r.count(100);
    r.count(23);
    assert_eq!(r.files_removed, 2);
    assert_eq!(r.bytes_freed, 123);
    r.count(u64::MAX);
    assert_eq!(r.bytes_freed, u64::MAX);
}

#[test]
fn a_backup_is_recognised_by_its_pfx_entry() {
    assert!(backup_has_pfx("./\n./pfx/\n./pfx/user.reg\n"));
    assert!(backup_has_pfx("pfx/system.reg"));
    assert!(!backup_has_pfx("./\n./drive_c/\n"));
    assert!(!backup_has_pfx(""));
}

#[test]
fn a_restore_refuses_an_archive_without_a_prefix() {
    let e = check_backup_listing("README\n").unwrap_err();
    assert_eq!(
        e.message(),
        "API error: Archive does not look like a prefix backup (no pfx/ inside)"
    );
    assert!(check_backup_listing("./pfx/\n").is_ok());
}

#[test]
fn a_backup_needs_an_existing_prefix() {
    assert!(check_backup_source(true).is_ok());
    let e = check_backup_source(false).unwrap_err();
    assert_eq!(
        e.message(),
        "API error: No Proton prefix exists yet — launch the game once first"
    );
}

#[test]
fn tar_archives_the_prefix_contents() {
    assert_eq!(backup_args("/c", "/b.tgz"), vec!["-czf", "/b.tgz", "-C", "/c", "."]);
    assert_eq!(restore_args("/b.tgz", "/c"), vec!["-xzf", "/b.tgz", "-C", "/c"]);
}
