use llauncher::gpu_prefs::{
    needs_registry, plan_gpu_sync, reconcile, value_name_for, GpuPreferences, OwnedEntries,
    RegistryChange,
};
use llauncher::guid::{format_guid, guid_to_u128, parse_guid, HIGH_PERFORMANCE_PLAN};
use llauncher::settings::AppSettings;

const EXE: &str = r"C:\Games\Endfield\Endfield.exe";

fn settings(dgpu: bool, windowed: bool) -> AppSettings {
    let mut s = AppSettings::default();
    s.windows_prefer_dgpu = dgpu;
    s.windows_windowed_optimizations = windowed;
    s
}

fn owning(keys: &[&str]) -> OwnedEntries {
    OwnedEntries {
        exe: EXE.to_string(),
        keys: keys.iter().map(|k| k.to_string()).collect(),
    }
}

#[test]
fn writes_the_entries_windows_expects() {
    let (entry, owned) = reconcile("", &OwnedEntries::default(), EXE, &settings(true, true));
    assert_eq!(entry, "GpuPreference=2;SwapEffectUpgradeEnable=1;");
    assert_eq!(owned, owning(&["GpuPreference", "SwapEffectUpgradeEnable"]));
}

#[test]
fn leaves_other_entries_alone() {
    let (entry, owned) = reconcile(
        "AutoHDREnable=2097;",
        &OwnedEntries::default(),
        EXE,
        &settings(true, false),
    );
    assert_eq!(entry, "AutoHDREnable=2097;GpuPreference=2;");

    let (entry, _) = reconcile(&entry, &owned, EXE, &settings(false, false));
    assert_eq!(entry, "AutoHDREnable=2097;");
}

#[test]
fn switching_off_takes_back_only_what_the_launcher_wrote() {
    let user_set = "GpuPreference=2;";
    let (entry, owned) = reconcile(user_set, &OwnedEntries::default(), EXE, &settings(false, false));
    assert_eq!(entry, user_set);
    assert!(owned.keys.is_empty());

    let (entry, _) = reconcile(user_set, &owning(&["GpuPreference"]), EXE, &settings(false, false));
    assert_eq!(entry, "");
}

#[test]
fn a_record_for_another_executable_authorizes_nothing() {
    let owned = OwnedEntries {
        exe: r"D:\Old\Endfield.exe".to_string(),
        keys: vec!["GpuPreference".to_string()],
    };
    let (entry, _) = reconcile("GpuPreference=2;", &owned, EXE, &settings(false, false));
    assert_eq!(entry, "GpuPreference=2;");
}

#[test]
fn switching_off_keeps_a_choice_the_user_made_elsewhere() {
    let (entry, _) = reconcile(
        "GpuPreference=1;",
        &owning(&["GpuPreference"]),
        EXE,
        &settings(false, false),
    );
    assert_eq!(entry, "GpuPreference=1;");
}

#[test]
fn switching_on_overrides_whatever_was_there() {
    let (entry, _) = reconcile(
        "GpuPreference=1;SwapEffectUpgradeEnable=0;",
        &OwnedEntries::default(),
        EXE,
        &settings(true, true),
    );
    assert_eq!(entry, "GpuPreference=2;SwapEffectUpgradeEnable=1;");
}

#[test]
fn an_emptied_entry_comes_back_empty() {
    let (entry, owned) = reconcile(
        "GpuPreference=2;",
        &owning(&["GpuPreference"]),
        EXE,
        &settings(false, false),
    );
    assert_eq!(entry, "");
    assert!(owned.keys.is_empty());
}

#[test]
fn parsing_tolerates_sloppy_input() {
    let prefs = GpuPreferences::parse(" GpuPreference = 2 ;;garbage; =1;");
    assert_eq!(prefs.to_registry_string(), "GpuPreference=2;");
}

#[test]
fn keys_match_case_insensitively() {
    let mut prefs = GpuPreferences::parse("gpupreference=2;");
    prefs.unset_if("GpuPreference", "2");
    assert_eq!(prefs.to_registry_string(), "");
}

#[test]
fn guid_round_trips_in_powercfg_format() {
    assert_eq!(
        format_guid(HIGH_PERFORMANCE_PLAN),
        "8c5e7fda-e8bf-4a96-9a85-a6e23a8c635c"
    );
    assert_eq!(
        parse_guid("8c5e7fda-e8bf-4a96-9a85-a6e23a8c635c"),
        Some(HIGH_PERFORMANCE_PLAN)
    );
    assert_eq!(
        parse_guid("{381B4222-F694-41F0-9685-FF5BB260DF2E}\n"),
        Some(0x381b4222_f694_41f0_9685_ff5bb260df2e)
    );
    assert_eq!(parse_guid(""), None);
    assert_eq!(parse_guid("not-a-guid"), None);
    assert_eq!(parse_guid("8c5e7fda-e8bf-4a96-9a85-a6e23a8c635"), None);
    assert_eq!(parse_guid("+c5e7fda-e8bf-4a96-9a85-a6e23a8c635c"), None);
}

#[test]
fn any_guid_reads_back_what_was_formatted() {
    for g in [0u128, u128::MAX, 0x0123_4567_89ab_cdef_0011_2233_4455_6677] {
        assert_eq!(parse_guid(&format_guid(g)), Some(g));
    }
}

#[test]
fn the_win32_guid_layout_packs_big_endian() {
    let g = guid_to_u128(0x8c5e7fda, 0xe8bf, 0x4a96, [0x9a, 0x85, 0xa6, 0xe2, 0x3a, 0x8c, 0x63, 0x5c]);
    assert_eq!(g, HIGH_PERFORMANCE_PLAN);
}

#[test]
fn setting_a_key_replaces_its_value_in_place() {
    let mut prefs = GpuPreferences::parse("A=1;GpuPreference=1;B=2;");
    prefs.set("gpupreference", "2");
    assert_eq!(prefs.to_registry_string(), "A=1;GpuPreference=2;B=2;");
}

#[test]
fn the_registry_value_is_named_by_the_backslashed_path() {
    assert_eq!(value_name_for("C:/Games/Endfield/Endfield.exe"), EXE);
}

#[test]
fn the_registry_is_left_closed_when_there_is_nothing_to_do() {
    assert!(!needs_registry(&settings(false, false), &OwnedEntries::default()));
    assert!(needs_registry(&settings(false, false), &owning(&["GpuPreference"])));
    assert!(needs_registry(&settings(true, false), &OwnedEntries::default()));
}

#[test]
fn a_sync_plan_writes_deletes_or_keeps() {
    let (change, record) = plan_gpu_sync("", &OwnedEntries::default(), EXE, &settings(true, false));
    assert!(matches!(change, RegistryChange::Write(ref w) if w == "GpuPreference=2;"));
    assert_eq!(record, Some(owning(&["GpuPreference"])));

    let (change, record) = plan_gpu_sync("GpuPreference=2;", &owning(&["GpuPreference"]), EXE, &settings(true, false));
    assert!(matches!(change, RegistryChange::Keep));
    assert_eq!(record, None);

    let (change, _) = plan_gpu_sync("GpuPreference=2;", &owning(&["GpuPreference"]), EXE, &settings(false, false));
    assert!(matches!(change, RegistryChange::Delete));
}

#[test]
fn the_power_plan_switch_remembers_what_it_replaced() {
    use_plan_switch();
}

fn use_plan_switch() {
    assert!(llauncher::guid::plan_switch(HIGH_PERFORMANCE_PLAN).is_none());
    let balanced = 0x381b4222_f694_41f0_9685_ff5bb260df2e;
    let p = llauncher::guid::plan_switch(balanced).unwrap();
    assert_eq!(p.previous, balanced);
    let marker = p.marker_text();
    assert_eq!(marker, "381b4222-f694-41f0-9685-ff5bb260df2e");
    assert_eq!(llauncher::guid::PowerPlanRestore::from_marker(&marker).unwrap().previous, balanced);
    assert!(llauncher::guid::PowerPlanRestore::from_marker("garbage").is_none());
}

#[test]
fn a_second_sync_finds_nothing_to_change() {
    let starts = [
        "",
        " AutoHDREnable = 1 ;;GpuPreference=1;junk;SwapEffectUpgradeEnable=0;",
        "gpupreference=2;SwapEffectUpgradeEnable=1;",
    ];
    let records = [OwnedEntries::default(), owning(&["GpuPreference", "SwapEffectUpgradeEnable"])];
    for start in starts {
        for old in &records {
            for (dgpu, windowed) in [(true, true), (true, false), (false, true), (false, false)] {
                let s = settings(dgpu, windowed);
                let (change, record) = plan_gpu_sync(start, old, EXE, &s);
                let written = match change {
                    RegistryChange::Keep => start.to_string(),
                    RegistryChange::Delete => String::new(),
                    RegistryChange::Write(w) => w,
                };
                let record = record.unwrap_or_else(|| OwnedEntries {
                    exe: old.exe.clone(),
                    keys: old.keys.clone(),
                });
                let (again, new_record) = plan_gpu_sync(&written, &record, EXE, &s);
                assert!(matches!(again, RegistryChange::Keep), "{start:?} {dgpu} {windowed}");
                assert_eq!(new_record, None);
            }
        }
    }
}
