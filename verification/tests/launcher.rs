use llauncher::launcher::linux;
use llauncher::launcher::macos::{self, WineInstall};
use llauncher::launcher::windows::{self, ABOVE_NORMAL_PRIORITY_CLASS};
use llauncher::launcher::{is_valid_env_var_name, log_tail, parse_custom_env_vars};
use llauncher::settings::AppSettings;

fn pairs(v: &[(&str, &str)]) -> Vec<(String, String)> {
    v.iter().map(|(a, b)| (a.to_string(), b.to_string())).collect()
}

#[test]
fn validates_env_var_names() {
    assert!(is_valid_env_var_name("DXVK_HUD"));
    assert!(is_valid_env_var_name("_FOO"));
    assert!(is_valid_env_var_name("FOO_1"));
    assert!(!is_valid_env_var_name(""));
    assert!(!is_valid_env_var_name("1FOO"));
    assert!(!is_valid_env_var_name("FOO BAR"));
    assert!(!is_valid_env_var_name("FOO;rm -rf ~"));
}

#[test]
fn parses_custom_env_var_lines() {
    let raw = "# a comment\n\
               DXVK_HUD=fps\n\
               \n\
               MANGOHUD_CONFIG = cpu_temp \n\
               1BAD=x\n\
               no_equals_sign\n";
    assert_eq!(
        parse_custom_env_vars(raw),
        pairs(&[("DXVK_HUD", "fps"), ("MANGOHUD_CONFIG", "cpu_temp")])
    );
}

#[test]
fn a_value_keeps_its_own_equals_signs() {
    assert_eq!(parse_custom_env_vars("A=b=c"), pairs(&[("A", "b=c")]));
}

#[test]
fn log_tail_keeps_the_last_lines() {
    assert_eq!(log_tail("a\nb\nc\n", 2), "b\nc");
    assert_eq!(log_tail("a\nb", 5), "a\nb");
    assert_eq!(log_tail("", 3), "");
}

#[test]
fn default_renderer_is_native_vulkan() {
    let mut settings = AppSettings::default();
    settings.use_native_vulkan = true;
    assert_eq!(linux::renderer_args(&settings, false), "-vulkan");
}

#[test]
fn modded_launch_forces_direct3d_11() {
    let mut settings = AppSettings::default();
    settings.use_native_vulkan = true;
    assert_eq!(linux::renderer_args(&settings, true), "-force-d3d11");
}

#[test]
fn directx_11_setting_forces_direct3d_11() {
    let mut settings = AppSettings::default();
    settings.use_native_vulkan = false;
    assert_eq!(linux::renderer_args(&settings, false), "-force-d3d11");
    assert_eq!(linux::renderer_args(&settings, true), "-force-d3d11");
}

#[test]
fn launch_command_includes_wrappers_and_renderer() {
    let mut settings = AppSettings::default();
    settings.use_native_vulkan = true;
    settings.use_gamemode = true;
    settings.use_mangohud = true;
    settings.custom_launch_args = "-screen-fullscreen 0".to_string();

    let cmd = linux::build_launch_cmd(&settings, "'proton'", "'Z:\\Endfield.exe'", false);
    assert_eq!(
        cmd,
        "gamemoderun mangohud 'proton' run 'Z:\\Endfield.exe' -vulkan -screen-fullscreen 0"
    );

    let modded_cmd = linux::build_launch_cmd(&settings, "'proton'", "'Z:\\Endfield.exe'", true);
    assert_eq!(
        modded_cmd,
        "gamemoderun mangohud 'proton' run 'Z:\\Endfield.exe' -force-d3d11 -screen-fullscreen 0"
    );

    settings.gamemode_command = "taskset -c 0-7 gamemoderun".to_string();
    let custom_cmd = linux::build_launch_cmd(&settings, "'proton'", "'Z:\\Endfield.exe'", false);
    assert_eq!(
        custom_cmd,
        "taskset -c 0-7 gamemoderun mangohud 'proton' run 'Z:\\Endfield.exe' -vulkan -screen-fullscreen 0"
    );
}

#[test]
fn a_legacy_prefix_in_the_game_directory_is_kept() {
    let mut settings = AppSettings::default();
    settings.proton_prefix_dir = " /srv/prefixes ".to_string();
    assert_eq!(linux::resolve_prefix_dir(&settings, "/games/ef", true), "/games/ef/_proton");
    assert_eq!(linux::resolve_prefix_dir(&settings, "/games/ef", false), "/srv/prefixes/endfield");
}

#[test]
fn the_launch_script_runs_the_game_through_proton_on_the_z_drive() {
    let mut settings = AppSettings::default();
    settings.game_dir = "/games/ef".to_string();
    let s = linux::launch_script(&settings, "/p", "/c", "/l/launch.log", false, false, false);
    assert!(s.contains("cd '/games/ef'\n"));
    assert!(s.contains("'/p/proton' run 'Z:\\games\\ef\\Endfield.exe'"));
    assert!(s.ends_with(" > '/l/launch.log' 2>&1\n"));
}

#[test]
fn env_script_always_pins_the_prefix() {
    let settings = AppSettings::default();
    let script = macos::build_env_script(&settings, "/Users/a/prefix/endfield/pfx", false);
    assert!(script.contains("export WINEPREFIX='/Users/a/prefix/endfield/pfx'\n"));
    assert!(script.contains("export ROSETTA_ADVERTISE_AVX=1\n"));
    assert!(!script.contains("MTL_HUD_ENABLED"));
}

#[test]
fn modded_launch_overrides_the_renderer_dlls() {
    let settings = AppSettings::default();
    let script = macos::build_env_script(&settings, "/tmp/pfx", true);
    assert!(script.contains("export WINEDLLOVERRIDES='d3d11=n,b;dxgi=n,b'\n"));
}

#[test]
fn the_game_is_held_on_direct3d_11_unless_asked_otherwise() {
    let mut settings = AppSettings::default();
    assert_eq!(macos::renderer_args(&settings, false), "-force-d3d11");
    settings.macos_native_vulkan = true;
    assert_eq!(macos::renderer_args(&settings, false), "-vulkan");
    assert_eq!(macos::renderer_args(&settings, true), "-force-d3d11");
}

#[test]
fn an_explicit_wine_path_is_never_silently_replaced() {
    // The setting points at nothing usable, so it resolves to nothing; the
    // launcher's own install must not be taken in its place.
    let mut settings = AppSettings::default();
    settings.macos_wine_dir = "/nonexistent/wine".to_string();
    let own = WineInstall { wine: "/own/bin/wine".to_string(), wineserver: None };
    assert!(macos::resolve_wine(&settings, None, vec![Some(own)]).is_none());
}

#[test]
fn without_a_setting_the_first_usable_install_runs_the_game() {
    let settings = AppSettings::default();
    let a = WineInstall { wine: "/a/bin/wine".to_string(), wineserver: None };
    let r = macos::resolve_wine(&settings, None, vec![None, Some(a)]).unwrap();
    assert_eq!(r.wine, "/a/bin/wine");
}

#[test]
fn wine_loader_candidates_cover_bin_root_and_bundle() {
    let c = macos::loader_candidates("/w");
    assert_eq!(c[0], "/w/wine");
    assert_eq!(c[1], "/w/wine64");
    assert_eq!(c[2], "/w/bin/wine");
    assert_eq!(c[5], "/w/Contents/Resources/wine/bin/wine64");
}

fn settings(vulkan: bool, extra: &str) -> AppSettings {
    let mut s = AppSettings::default();
    s.windows_use_vulkan = vulkan;
    s.custom_launch_args = extra.to_string();
    s
}

#[test]
fn default_command_line_matches_the_official_launcher() {
    assert_eq!(windows::build_launch_args(&settings(false, "  "), false), "");
}

#[test]
fn vulkan_flag_precedes_the_users_arguments() {
    assert_eq!(
        windows::build_launch_args(&settings(true, " -screen-fullscreen 0 "), false),
        "-vulkan -screen-fullscreen 0"
    );
    assert_eq!(windows::build_launch_args(&settings(true, ""), false), "-vulkan");
}

#[test]
fn modded_launch_stays_on_d3d11() {
    assert_eq!(windows::build_launch_args(&settings(true, "-log"), true), "-log");
}

#[test]
fn priority_class_is_above_normal_or_nothing() {
    let mut s = AppSettings::default();
    assert_eq!(windows::priority_flags(&s), 0);
    s.windows_high_priority = true;
    assert_eq!(windows::priority_flags(&s), ABOVE_NORMAL_PRIORITY_CLASS);
}

#[test]
fn taskkill_takes_the_whole_tree_and_forces_only_when_asked() {
    assert_eq!(windows::taskkill_args(4242, false), vec!["/PID", "4242", "/T"]);
    assert_eq!(windows::taskkill_args(7, true), vec!["/PID", "7", "/T", "/F"]);
}

#[test]
fn wine_tools_are_unsupported_on_windows() {
    let e = windows::run_prefix_tool(&AppSettings::default(), "winecfg").unwrap_err();
    assert_eq!(e.message(), "Not available on this platform: Wine tool winecfg");
}

#[test]
fn prefix_appdefaults_are_added_once() {
    let mut user_reg = "WINE REGISTRY Version 2\n;; All keys relative to \\\\User\\\\...\n".to_string();
    let added = linux::appdefaults_to_append(&user_reg).expect("a fresh prefix gets the overrides");
    user_reg.push_str(&added);
    assert!(user_reg.contains("[Software\\\\Wine\\\\AppDefaults\\\\Endfield.exe\\\\DllOverrides]"));
    assert!(user_reg.contains("[Software\\\\Wine\\\\AppDefaults\\\\PlatformProcess.exe\\\\DllOverrides]"));
    assert!(user_reg.contains("[Software\\\\Wine\\\\AppDefaults\\\\QtWebEngineProcess.exe\\\\DllOverrides]"));
    assert!(user_reg.contains("\"d3d11\"=\"builtin\""));
    assert!(user_reg.contains("\"d3d11\"=\"native,builtin\""));
    assert_eq!(
        added,
        "\n[Software\\\\Wine\\\\AppDefaults\\\\Endfield.exe\\\\DllOverrides]\n\"d3d11\"=\"native,builtin\"\n\"dxgi\"=\"native,builtin\"\n\n[Software\\\\Wine\\\\AppDefaults\\\\PlatformProcess.exe\\\\DllOverrides]\n\"d3d11\"=\"builtin\"\n\"dxgi\"=\"builtin\"\n\n[Software\\\\Wine\\\\AppDefaults\\\\QtWebEngineProcess.exe\\\\DllOverrides]\n\"d3d11\"=\"builtin\"\n\"dxgi\"=\"builtin\"\n"
    );
    assert!(linux::appdefaults_to_append(&user_reg).is_none());
}
