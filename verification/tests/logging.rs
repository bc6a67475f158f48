use llauncher::logging::{format_ts, log_line};

#[test]
fn formats_unix_timestamps_as_utc_civil_time() {
    assert_eq!(format_ts(0), "1970-01-01 00:00:00");
    assert_eq!(format_ts(1_788_372_000), "2026-09-02 18:00:00");
    assert_eq!(format_ts(1_709_164_800), "2024-02-29 00:00:00");
}

#[test]
fn century_years_are_leap_only_every_four_hundred() {
    // 2000-02-29 exists, 2100-02-29 does not.
    assert_eq!(format_ts(951_782_400), "2000-02-29 00:00:00");
    assert_eq!(format_ts(4_107_542_400), "2100-03-01 00:00:00");
    assert_eq!(format_ts(86_399), "1970-01-01 23:59:59");
}

#[test]
fn the_largest_time_still_formats() {
    let t = format_ts(u64::MAX);
    assert!(t.ends_with(" 07:00:15"));
}

#[test]
fn a_log_entry_stays_on_one_line() {
    assert_eq!(
        log_line(0, "warn", "first\nsecond"),
        "1970-01-01 00:00:00 [warn] first | second\n"
    );
}
