use llauncher::game_state::{
    adopt_install, append_session, check_launch, check_uninstall, determine_game_state,
    has_existing_install, incomplete_marker, is_launcher_cache, record_playtime, session_end,
    GameSession, GameState, MAX_SESSIONS, QUICK_EXIT_MS,
};
use llauncher::settings::{settings_to_save, strip_unplayable_video, AppSettings};
use llauncher::api_types::LauncherContent;

#[test]
fn an_interrupted_download_means_not_installed() {
    let s = determine_game_state("1.3.3".to_string(), true, "1.3.3", true, false);
    assert!(matches!(s, GameState::NotInstalled { ref latest_version } if latest_version == "1.3.3"));
    let s = determine_game_state("1.3.3".to_string(), false, "", true, false);
    assert!(matches!(s, GameState::NotInstalled { .. }));
    let s = determine_game_state("1.3.3".to_string(), false, "1.3.3", false, false);
    assert!(matches!(s, GameState::NotInstalled { .. }));
}

#[test]
fn an_update_needs_a_new_version_and_packs() {
    let s = determine_game_state("1.3.3".to_string(), false, "1.3.2", true, false);
    assert!(matches!(s, GameState::UpdateAvailable { ref installed_version, .. } if installed_version == "1.3.2"));
    let s = determine_game_state("1.3.3".to_string(), false, "1.3.2", true, true);
    assert!(matches!(s, GameState::Ready { ref version } if version == "1.3.2"));
    let s = determine_game_state("1.3.3".to_string(), false, "1.3.3", true, false);
    assert!(matches!(s, GameState::Ready { .. }));
}

#[test]
fn a_launch_is_refused_while_running_or_outdated() {
    assert_eq!(check_launch(true, None).unwrap_err().message(), "API error: Game is already running");
    let st = GameState::UpdateAvailable { installed_version: "1.0".to_string(), latest_version: "1.1".to_string() };
    assert_eq!(
        check_launch(false, Some(&st)).unwrap_err().message(),
        "Game update required (installed 1.0, latest 1.1)"
    );
    assert!(check_launch(false, Some(&GameState::Ready { version: "1.1".to_string() })).is_ok());
    assert!(check_launch(false, None).is_ok());
}

#[test]
fn a_quick_exit_is_a_failed_launch() {
    let e = session_end(true, QUICK_EXIT_MS - 1, false);
    assert!(e.quick_exit && !e.record_session && e.report_failure);
    let e = session_end(true, QUICK_EXIT_MS, false);
    assert!(!e.quick_exit && e.record_session && !e.report_failure);
    let e = session_end(true, 60_000, true);
    assert!(e.record_session && e.report_failure);
    let e = session_end(false, 10, true);
    assert!(e.record_session && !e.report_failure);
}

#[test]
fn playtime_accumulates() {
    let mut s = AppSettings::default();
    record_playtime(&mut s, 100, 1_700_000_000);
    record_playtime(&mut s, 50, 1_700_000_500);
    assert_eq!(s.total_playtime_secs, 150);
    assert_eq!(s.last_played, 1_700_000_500);
}

#[test]
fn the_journal_keeps_only_the_newest_sessions() {
    let mut j: Vec<GameSession> = Vec::new();
    for i in 0..(MAX_SESSIONS as u64 + 5) {
        append_session(&mut j, GameSession { start: i, duration_secs: 1 });
    }
    assert_eq!(j.len(), MAX_SESSIONS);
    assert_eq!(j[0].start, 5);
    assert_eq!(j.last().unwrap().start, MAX_SESSIONS as u64 + 4);
}

#[test]
fn an_existing_install_is_adopted_with_its_cache() {
    let mut s = AppSettings::default();
    adopt_install(&mut s, "/games/ef", "1.3.3");
    assert_eq!(s.game_dir, "/games/ef");
    assert_eq!(s.download_dir, "/games/ef/_download");
    assert_eq!(s.installed_version, "1.3.3");
    assert!(has_existing_install(true, false));
    assert!(!has_existing_install(true, true));
    assert_eq!(incomplete_marker("/games/ef"), "/games/ef/.llauncher_incomplete");
}

#[test]
fn uninstall_needs_something_to_remove() {
    assert_eq!(
        check_uninstall(false, false, false, "/g").unwrap_err().message(),
        "Game not found: No game installation found in /g"
    );
    assert!(check_uninstall(false, false, true, "/g").is_ok());
    assert!(check_uninstall(true, true, false, "/g").is_err());
}

#[test]
fn only_a_cache_named_download_is_deleted() {
    assert!(is_launcher_cache("/games/ef/_download"));
    assert!(!is_launcher_cache("/home/u/Downloads"));
}

#[test]
fn saving_settings_keeps_what_the_backend_owns() {
    let mut current = AppSettings::default();
    current.installed_version = "1.3.3".to_string();
    current.total_playtime_secs = 42;
    let mut incoming = current.clone();
    incoming.installed_version = String::new();
    incoming.total_playtime_secs = 0;
    incoming.use_mangohud = true;
    let saved = settings_to_save(&current, incoming.clone(), false).unwrap();
    assert_eq!(saved.installed_version, "1.3.3");
    assert_eq!(saved.total_playtime_secs, 42);
    assert!(saved.use_mangohud);
    incoming.game_dir = "/elsewhere".to_string();
    let e = settings_to_save(&current, incoming, true).unwrap_err();
    assert_eq!(e.message(), "API error: Wait for the current transfer before changing folders");
}

#[test]
fn the_video_backdrop_is_dropped_where_it_cannot_play() {
    let mut c = LauncherContent::default();
    c.background.url = "bg.png".to_string();
    c.background.video_url = "bg.mp4".to_string();
    let mut kept = c.clone();
    strip_unplayable_video(&mut kept, true);
    assert_eq!(kept.background.video_url, "bg.mp4");
    strip_unplayable_video(&mut c, false);
    assert_eq!(c.background.video_url, "");
    assert_eq!(c.background.url, "bg.png");
}
