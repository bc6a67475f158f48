use llauncher::error::AppError;
use llauncher::optiscaler::{
    archive_asset, entry_target, files_to_remove, host_options, is_skipped, manifest_text, manifest_version,
    set_ini_key, tune_ini, InstallOptions, PROXY_DLL,
};

const SAMPLE_INI: &str = "[Upscalers]\r\n; Vulkan\r\nVulkanUpscaler=auto\r\n\r\n\r\n[Spoofing]\r\nDxgi=auto\r\nVulkan=auto\r\n\r\n[Hooks]\r\nUseNtdllHooks=auto\r\n";

#[test]
fn replaces_a_key_in_its_own_section_only() {
    let out = set_ini_key(SAMPLE_INI, "Spoofing", "Vulkan", "true");
    assert!(out.contains("[Spoofing]\r\nDxgi=auto\r\nVulkan=true\r\n"));
    assert!(out.contains("VulkanUpscaler=auto"));
    assert!(out.ends_with("\r\n"));
}

#[test]
fn appends_a_missing_key_before_the_next_section() {
    let out = set_ini_key(SAMPLE_INI, "Spoofing", "VulkanExtensionSpoofing", "true");
    assert!(out.contains("Vulkan=auto\r\nVulkanExtensionSpoofing=true\r\n\r\n[Hooks]"));
}

#[test]
fn appends_to_the_last_section_and_creates_a_missing_one() {
    let out = set_ini_key(SAMPLE_INI, "Hooks", "EarlyHooking", "false");
    assert!(out.ends_with("UseNtdllHooks=auto\r\nEarlyHooking=false\r\n"));
    let out = set_ini_key("[A]\nx=1\n", "B", "y", "2");
    assert_eq!(out, "[A]\nx=1\n\n[B]\ny=2\n");
}

#[test]
fn tunes_for_wine_without_nvidia() {
    let out = tune_ini(
        SAMPLE_INI,
        InstallOptions {
            wine: true,
            spoof_vulkan: true,
        },
    );
    assert!(out.contains("UseNtdllHooks=false"));
    assert!(out.contains("Vulkan=true"));
    assert!(out.contains("VulkanExtensionSpoofing=true"));
    assert!(out.contains("VulkanUpscaler=fsr31"));
}

#[test]
fn leaves_windows_hooks_and_spoofing_alone() {
    let out = tune_ini(SAMPLE_INI, InstallOptions::default());
    assert!(out.contains("UseNtdllHooks=auto"));
    assert!(out.contains("Vulkan=auto"));
    assert!(out.contains("VulkanUpscaler=fsr31"));
}

#[test]
fn setting_a_key_twice_gives_the_same_text() {
    let once = set_ini_key(SAMPLE_INI, "Spoofing", "Vulkan", "true");
    let twice = set_ini_key(&once, "Spoofing", "Vulkan", "true");
    assert_eq!(once, twice);
}

#[test]
fn tuning_a_tuned_ini_changes_nothing() {
    for (wine, spoof_vulkan) in [(true, true), (true, false), (false, true), (false, false)] {
        let o = InstallOptions { wine, spoof_vulkan };
        for ini in [SAMPLE_INI, "", "[Spoofing]\nVulkan=auto", "a=1\n[Other]\n"] {
            let once = tune_ini(ini, o);
            let twice = tune_ini(&once, o);
            assert_eq!(once, twice);
        }
    }
}

#[test]
fn host_tuning_follows_the_platform_and_driver() {
    let o = host_options(true, false);
    assert!(o.wine && o.spoof_vulkan);
    let o = host_options(true, true);
    assert!(o.wine && !o.spoof_vulkan);
    let o = host_options(false, false);
    assert!(!o.wine && !o.spoof_vulkan);
}

#[test]
fn the_proxy_takes_the_dll_and_the_installer_is_skipped() {
    assert_eq!(entry_target("OptiScaler.dll"), Some(PROXY_DLL.to_string()));
    assert!(is_skipped("setup_windows.bat"));
}

#[test]
fn the_manifest_records_the_version_first() {
    let files = vec!["winmm.dll".to_string(), "OptiScaler.ini".to_string()];
    let m = manifest_text("v0.9.4", &files);
    assert_eq!(manifest_version(&m), "v0.9.4");
    let removed = files_to_remove(Some(&m));
    assert!(removed.contains(&"winmm.dll".to_string()));
    assert!(removed.contains(&"OptiScaler.ini".to_string()));
}

#[test]
fn an_uninstall_removes_what_the_manifest_recorded() {
    let files = vec![
        " OptiScaler.ini ".to_string(),
        String::new(),
        "D3D12_Optiscaler/D3D12Core.dll\r".to_string(),
    ];
    let m = manifest_text(" v0.9.4\r", &files);
    assert_eq!(manifest_version(&m), "v0.9.4");
    let removed = files_to_remove(Some(&m));
    assert_eq!(
        removed,
        vec![
            "OptiScaler.ini".to_string(),
            "D3D12_Optiscaler/D3D12Core.dll".to_string(),
            PROXY_DLL.to_string(),
            "OptiScaler.log".to_string(),
            "fakenvapi.log".to_string(),
            "dlssg_to_fsr3.log".to_string(),
        ]
    );
}

#[test]
fn the_release_archive_is_the_first_7z_asset() {
    let names = vec![
        "OptiScaler_0.9.4.zip".to_string(),
        "OptiScaler_0.9.4.7Z".to_string(),
        "OptiScaler_0.9.4_debug.7z".to_string(),
    ];
    assert_eq!(archive_asset(&names).unwrap(), 1);
    match archive_asset(&names[..1]) {
        Err(AppError::Api(m)) => {
            assert_eq!(m, "The latest optiscaler/OptiScaler release has no .7z asset")
        }
        other => panic!("unexpected {:?}", other),
    }
}
