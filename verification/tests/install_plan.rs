use llauncher::api_types::PackFile;
use llauncher::install_plan::{
    cached_bytes, cached_pack_name, download_bytes, is_blocked, plan_install, requirements,
    unpacked_total, DiskPart, DiskRequirement,
};

fn part(path: &str, required: u64, volume: &str, available: Option<u64>) -> DiskPart {
    DiskPart { path: path.to_string(), required, volume: volume.to_string(), available }
}

fn pack(url: &str, size: &str) -> PackFile {
    PackFile { url: url.to_string(), md5: String::new(), package_size: size.to_string() }
}

#[test]
fn folders_on_one_volume_add_up() {
    let disks = requirements(vec![
        part("/tmp/llauncher-game", 80, "2049", Some(1000)),
        part("/tmp/llauncher-cache", 40, "2049", Some(1000)),
    ]);
    assert_eq!(disks.len(), 1);
    assert_eq!(disks[0].required, 120);
    assert_eq!(disks[0].path, "/tmp/llauncher-game");
}

#[test]
fn separate_volumes_get_separate_rows_in_volume_order() {
    let disks = requirements(vec![part("/b", 1, "b", None), part("/a", 2, "a", Some(1))]);
    assert_eq!(disks.len(), 2);
    assert_eq!(disks[0].path, "/a");
    assert_eq!(disks[1].path, "/b");
    assert!(is_blocked(&disks));
    assert!(!is_blocked(&[DiskRequirement { path: "/x".to_string(), available: None, required: 9 }]));
}

#[test]
fn the_unpacked_size_needs_every_entry_size() {
    assert_eq!(unpacked_total(&[Some(1), Some(2)]), Some(3));
    assert_eq!(unpacked_total(&[Some(1), None]), None);
    assert_eq!(unpacked_total(&[Some(u64::MAX), Some(1)]), None);
    assert_eq!(unpacked_total(&[]), Some(0));
}

#[test]
fn packs_are_cached_under_their_url_name() {
    assert_eq!(cached_pack_name("https://cdn/x/pack_1.zip"), Some("pack_1.zip".to_string()));
    assert_eq!(cached_pack_name("https://cdn/x/"), None);
    assert_eq!(cached_pack_name("https://cdn/x/.."), None);
}

#[test]
fn the_plan_counts_what_is_not_cached_yet() {
    let packs = vec![pack("https://c/a.zip", "100"), pack("https://c/b.zip", "50"), pack("https://c/", "7")];
    assert_eq!(download_bytes(&packs), 157);
    assert_eq!(cached_bytes(&packs, &[Some(30), Some(500), Some(7)]), 80);
    let plan = plan_install(
        157,
        80,
        Some(400),
        part("/g/_download", 0, "1", Some(1000)),
        part("/g", 0, "1", Some(1000)),
    );
    assert_eq!(plan.download_bytes, 157);
    assert_eq!(plan.unpacked_bytes, Some(400));
    assert_eq!(plan.disks.len(), 1);
    assert_eq!(plan.disks[0].required, 77 + 400);
    assert!(!plan.blocked);
    let plan = plan_install(157, 0, None, part("/d", 0, "1", Some(100)), part("/g", 0, "2", None));
    assert!(plan.blocked);
}
