use base64::Engine;
use llauncher::resources::{
    check_digest, check_manifest, concurrency, decrypt_index, extract_rand_str,
    is_safe_relative_path, major_minor, needs_download, repair_list, require_rand_str, temp_name,
    verify_report_due, ManifestFile, RESOURCE_INDEX_KEY,
};

#[test]
fn rand_str_from_file_path() {
    assert_eq!(
        extract_rand_str(
            "https://beyond.hg-cdn.com/APP/1.3/update/6/6/Windows/1.3.3_BGlQHu2HgMlqTuqG/files"
        ),
        Some("BGlQHu2HgMlqTuqG".to_string())
    );
    // Trailing slash tolerated.
    assert_eq!(
        extract_rand_str(".../1.0.14_Qk2mXHuAH1JWKF37/files/"),
        Some("Qk2mXHuAH1JWKF37".to_string())
    );
}

#[test]
fn major_minor_takes_two_components() {
    assert_eq!(major_minor("1.3.3"), "1.3");
    assert_eq!(major_minor("1.0.14"), "1.0");
}

#[test]
fn rejects_path_traversal_in_manifest_names() {
    assert!(!is_safe_relative_path("../../etc/cron.d/evil"));
    assert!(!is_safe_relative_path("VFS/../../etc/passwd"));
    assert!(!is_safe_relative_path("/etc/passwd"));
    assert!(is_safe_relative_path("VFS/AB/CD.chk"));
}

#[test]
fn decrypt_round_trips_the_official_cipher() {
    let plain = br#"{"files":[{"name":"VFS/AB/CD.chk","md5":"deadbeef","size":12}]}"#;
    let key = RESOURCE_INDEX_KEY.as_bytes();
    let enc: Vec<u8> = plain
        .iter()
        .enumerate()
        .map(|(i, b)| b.wrapping_add(key[i % key.len()]))
        .collect();
    let b64 = base64::engine::general_purpose::STANDARD.encode(&enc);

    let decoded = decrypt_index(b64.as_bytes()).unwrap();
    assert_eq!(decoded, plain);
    let idx: serde_json::Value = serde_json::from_slice(&decoded).unwrap();
    let files = idx["files"].as_array().unwrap();
    assert_eq!(files.len(), 1);
    assert_eq!(files[0]["name"], "VFS/AB/CD.chk");
    assert_eq!(files[0]["size"], 12);
}

#[test]
fn decrypt_rejects_text_that_is_not_base64() {
    assert!(decrypt_index(b"@@not base64@@").is_err());
}

#[test]
fn decrypt_ignores_line_breaks_in_the_body() {
    let key = RESOURCE_INDEX_KEY.as_bytes();
    let enc: Vec<u8> = b"hello".iter().enumerate().map(|(i, b)| b.wrapping_add(key[i])).collect();
    let mut b64 = base64::engine::general_purpose::STANDARD.encode(&enc);
    b64.insert(4, '\n');
    assert_eq!(decrypt_index(b64.as_bytes()).unwrap(), b"hello");
}

#[test]
fn rand_str_needs_an_underscore_in_the_version_segment() {
    assert_eq!(extract_rand_str("APP/1.3/files"), None);
}

#[test]
fn a_file_of_the_right_size_and_digest_is_kept() {
    assert!(!needs_download(Some(12), Some("deadbeef"), 12, "deadbeef"));
    assert!(needs_download(None, None, 12, "deadbeef"));
    assert!(needs_download(Some(11), Some("deadbeef"), 12, "deadbeef"));
    assert!(needs_download(Some(12), Some("00000000"), 12, "deadbeef"));
}

#[test]
fn a_repair_fetches_the_stale_files_in_manifest_order() {
    let mf = |n: &str, size: u64| ManifestFile {
        name: n.to_string(),
        md5: String::new(),
        size,
        url: String::new(),
    };
    let manifest = vec![mf("a", 10), mf("b", 20), mf("c", 30)];
    assert_eq!(repair_list(&manifest, &[true, false, true]), (vec![0, 2], 40));
    assert_eq!(repair_list(&manifest, &[false, false, false]), (vec![], 0));
}

#[test]
fn repair_settings_and_checks() {
    assert_eq!(concurrency(0), 1);
    assert_eq!(concurrency(4), 4);
    assert_eq!(concurrency(64), 8);
    assert!(verify_report_due(64, 100));
    assert!(verify_report_due(100, 100));
    assert!(!verify_report_due(65, 100));
    assert_eq!(temp_name("CD.chk"), "CD.chk.llauncher_tmp");
    assert!(check_digest("ab", "ab").is_ok());
    assert_eq!(
        check_digest("ab", "cd").unwrap_err().message(),
        "MD5 mismatch: expected ab, got cd"
    );
    assert_eq!(
        require_rand_str("no-version").unwrap_err().message(),
        "API error: Could not derive rand_str from file_path"
    );
    assert_eq!(check_manifest(0).unwrap_err().message(), "API error: Resource manifest was empty");
    assert!(check_manifest(3).is_ok());
}

#[test]
fn windows_separators_and_drives_cannot_escape_either() {
    assert!(!is_safe_relative_path("..\\..\\Windows\\evil.dll"));
    assert!(!is_safe_relative_path("VFS\\..\\..\\x"));
    assert!(!is_safe_relative_path("\\Windows\\evil.dll"));
    assert!(!is_safe_relative_path("C:\\Windows\\evil.dll"));
    assert!(!is_safe_relative_path("C:evil.dll"));
    assert!(is_safe_relative_path("VFS\\AB\\CD.chk"));
    assert!(is_safe_relative_path("VFS/..AB/CD.chk"));
}
