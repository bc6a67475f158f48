use llauncher::power::{desktop_is, failure_message, inhibit_order, screen_off_supported, InhibitMethod, Power, PowerAction};

#[test]
fn the_inhibitor_follows_the_transfers() {
    let mut p = Power::new(true);
    assert_eq!(p.sync(true), PowerAction::Acquire);
    p.acquired();
    assert_eq!(p.sync(true), PowerAction::Nothing);
    assert_eq!(p.sync(false), PowerAction::Release);
    assert_eq!(p.sync(false), PowerAction::Nothing);
}

#[test]
fn switching_the_setting_off_releases_at_once() {
    let mut p = Power::new(true);
    assert_eq!(p.sync(true), PowerAction::Acquire);
    p.acquired();
    assert_eq!(p.set_enabled(false, true), PowerAction::Release);
    assert_eq!(p.sync(true), PowerAction::Nothing);
    assert_eq!(p.set_enabled(true, true), PowerAction::Acquire);
}

#[test]
fn flatpak_prefers_the_portal() {
    assert_eq!(inhibit_order(true), vec![InhibitMethod::Portal, InhibitMethod::ScreenSaver, InhibitMethod::Logind]);
    assert_eq!(inhibit_order(false), vec![InhibitMethod::ScreenSaver, InhibitMethod::Portal, InhibitMethod::Logind]);
}

#[test]
fn desktops_are_matched_per_component_ignoring_case() {
    assert!(desktop_is("ubuntu:GNOME", "gnome"));
    assert!(!desktop_is("XFCE", "GNOME"));
    assert!(screen_off_supported("KDE", false));
    assert!(screen_off_supported("XFCE", true));
    assert!(!screen_off_supported("XFCE", false));
}

#[test]
fn failures_are_reported_together() {
    assert_eq!(failure_message(&[], "no inhibitor available"), "no inhibitor available");
    assert_eq!(
        failure_message(&["portal: denied".to_string(), "logind: absent".to_string()], "x"),
        "portal: denied; logind: absent"
    );
}
