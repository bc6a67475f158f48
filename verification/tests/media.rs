use llauncher::media::{
    can_play_video_background, dirs_have_plugins, every_plugin_found, plugin_dirs,
    plugin_env_vars, required_plugins,
};

#[test]
fn empty_or_missing_directories_fail_closed() {
    assert!(!dirs_have_plugins(
        &["/nonexistent-llauncher-test".to_string()],
        &["libgstautodetect.so"]
    ));
    assert!(!dirs_have_plugins(&[], &["libgstautodetect.so"]));
}

#[test]
fn one_plugin_present_is_not_enough() {
    assert!(!every_plugin_found(&[vec![true], vec![false]]));
    assert!(every_plugin_found(&[vec![true], vec![true]]));
}

#[test]
fn plugins_found_in_different_directories_count() {
    assert!(every_plugin_found(&[vec![true, false], vec![false, true]]));
    assert!(every_plugin_found(&[]));
}

#[test]
fn environment_directories_come_first_and_the_home_last() {
    let dirs = plugin_dirs(vec!["/bundle/gst".to_string()], Some("/home/u".to_string()));
    assert_eq!(dirs.first().unwrap(), "/bundle/gst");
    assert_eq!(dirs[1], "/usr/lib/x86_64-linux-gnu/gstreamer-1.0");
    assert_eq!(dirs.last().unwrap(), "/home/u/.local/share/gstreamer-1.0/plugins");
    assert_eq!(dirs.len(), 6);
    assert_eq!(plugin_dirs(vec![], None).len(), 4);
}

#[test]
fn the_probe_names_the_gstreamer_pieces_webkit_needs() {
    assert_eq!(plugin_env_vars(), vec!["GST_PLUGIN_SYSTEM_PATH_1_0", "GST_PLUGIN_PATH_1_0", "GST_PLUGIN_PATH"]);
    assert_eq!(required_plugins(), vec!["libgstautodetect.so", "libgstplayback.so"]);
}

#[test]
fn windows_always_plays_the_video() {
    assert!(can_play_video_background(true, vec![], None));
}
