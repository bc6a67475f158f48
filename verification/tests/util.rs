use llauncher::util::{is_appimage_path, sanitized, Sanitized};

#[test]
fn keeps_value_without_appimage_paths() {
    assert_eq!(
        sanitized("/usr/lib:/usr/local/lib", Some("/tmp/.mount_abc"), &[':']),
        Sanitized::Unchanged
    );
}

#[test]
fn drops_var_when_only_appimage_paths() {
    let appdir = Some("/tmp/.mount_LLaunCEJaAhH");
    assert_eq!(
        sanitized(
            "/tmp/.mount_LLaunCEJaAhH/usr/lib:/tmp/.mount_LLaunCEJaAhH/usr/lib/x86_64-linux-gnu",
            appdir,
            &[':'],
        ),
        Sanitized::Remove
    );
}

#[test]
fn keeps_user_paths_and_strips_appimage_ones() {
    let appdir = Some("/tmp/.mount_LLaunCEJaAhH");
    assert_eq!(
        sanitized(
            "/tmp/.mount_LLaunCEJaAhH/usr/lib:/opt/cuda/lib64",
            appdir,
            &[':'],
        ),
        Sanitized::SetTo("/opt/cuda/lib64".to_string())
    );
}

#[test]
fn detects_mount_path_without_appdir() {
    assert!(is_appimage_path("/tmp/.mount_xyz/usr/lib", None));
    assert!(!is_appimage_path("/usr/lib", None));
}

#[test]
fn preload_entries_split_on_spaces_too() {
    assert_eq!(
        sanitized("/opt/a.so /appdir/lib/b.so", Some("/appdir"), &[':', ' ']),
        Sanitized::SetTo("/opt/a.so".to_string())
    );
}

#[test]
fn the_appdir_itself_and_paths_below_it_are_appimage_paths() {
    assert!(is_appimage_path("/appdir", Some("/appdir")));
    assert!(is_appimage_path("/appdir/usr/lib", Some("/appdir")));
    assert!(!is_appimage_path("/appdirx/usr/lib", Some("/appdir")));
}
