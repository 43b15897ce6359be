use clean_up::scanners::unused_apps::last_used_from_captures;
use clean_up::scanners::unused_apps::{
    app_name, cutoff_time, format_months, is_leap_year, is_reportable_size, is_skipped_app,
    last_used_from_mdls, parse_datetime_to_ms, unused_app_finding,
    unused_apps_scan_result,
};
use clean_up::types::Finding;

#[test]
fn parse_datetime_basic() {
    let ms = parse_datetime_to_ms("2024-01-01T00:00:00Z");
    assert!(ms.is_some());
    assert!(ms.unwrap() > 0);
}

#[test]
fn parse_datetime_known_epoch() {
    let ms = parse_datetime_to_ms("1970-01-01T00:00:00Z");
    assert_eq!(ms, Some(0));
}

#[test]
fn parse_datetime_with_time() {
    let ms = parse_datetime_to_ms("1970-01-01T01:00:00Z");
    assert_eq!(ms, Some(3_600_000));
}

#[test]
fn parse_datetime_invalid() {
    assert_eq!(parse_datetime_to_ms("not a date"), None);
    assert_eq!(parse_datetime_to_ms(""), None);
    assert_eq!(parse_datetime_to_ms("2024"), None);
}

#[test]
fn leap_year_detection() {
    assert!(is_leap_year(2000));
    assert!(is_leap_year(2024));
    assert!(!is_leap_year(1900));
    assert!(!is_leap_year(2023));
}

#[test]
fn format_months_display() {
    assert_eq!(format_months(0), "less than a month");
    let one_month_ms = 30 * 24 * 60 * 60 * 1000;
    assert_eq!(format_months(one_month_ms), "1 month");
    assert_eq!(format_months(one_month_ms * 6), "6 months");
}

#[test]
fn app_name_extraction() {
    assert_eq!(app_name("/Applications/Firefox.app"), "Firefox.app");
    assert_eq!(app_name("/Users/test/Applications/MyApp.app"), "MyApp.app");
    assert_eq!(app_name("StandaloneApp.app"), "StandaloneApp.app");
}

#[test]
fn skip_apps_includes_system_apps() {
    assert!(is_skipped_app("Safari.app"));
    assert!(is_skipped_app("Finder.app"));
    assert!(is_skipped_app("Clean Up.app"));
    assert!(!is_skipped_app("Firefox.app"));
}

#[test]
fn parse_datetime_known_dates() {
    assert_eq!(parse_datetime_to_ms("2024-01-01T00:00:00Z"), Some(1_704_067_200_000));
    assert_eq!(parse_datetime_to_ms("2000-03-01T12:30:15Z"), Some(951_913_815_000));
    assert_eq!(parse_datetime_to_ms("  1970-01-02T00:00:01Z  "), Some(86_401_000));
    assert_eq!(parse_datetime_to_ms("1970-01-01Tab:00:00Z"), None);
}

#[test]
fn parse_datetime_rejects_cut_characters_and_months_past_the_table() {
    // Byte 5 falls inside the two-byte 'é': the month field cannot be read.
    assert_eq!(parse_datetime_to_ms("1970é-01-01T00:00:00Z"), None);
    assert_eq!(parse_datetime_to_ms("1970-13-01T00:00:00Z"), Some(31_536_000_000));
    assert_eq!(parse_datetime_to_ms("1970-14-01T00:00:00Z"), None);
    assert_eq!(parse_datetime_to_ms("1970-00-01T00:00:00Z"), Some(0));
    assert_eq!(parse_datetime_to_ms("1970--1-02T00:00:00Z"), Some(86_400_000));
    assert_eq!(parse_datetime_to_ms("1970-12-01T00:00:00Z"), Some(28_857_600_000));
    assert_eq!(parse_datetime_to_ms("short"), None);
}

#[test]
fn format_months_rounds_to_nearest() {
    let month: u64 = 30 * 24 * 60 * 60 * 1000;
    assert_eq!(format_months(month / 2 - 1), "less than a month");
    assert_eq!(format_months(month / 2), "1 month");
    assert_eq!(format_months(month + month / 2), "2 months");
    assert_eq!(format_months(month * 13), "13 months");
}

#[test]
fn cutoff_is_six_months_before_now() {
    assert_eq!(cutoff_time(20_000_000_000), 20_000_000_000 - 15_552_000_000);
    assert_eq!(cutoff_time(1_000), 0);
    assert!(is_reportable_size(1024 * 1024));
    assert!(!is_reportable_size(1024 * 1024 - 1));
}

#[test]
fn last_used_date_from_mdls() {
    let out = "kMDItemLastUsedDate = 2024-01-15 10:30:00 +0000";
    assert_eq!(last_used_from_mdls(out), Some(1_705_314_600_000));
    assert_eq!(last_used_from_mdls("kMDItemLastUsedDate = (null)"), None);
}

#[test]
fn recently_used_app_is_not_reported() {
    let now: u64 = 40_000_000_000;
    let cutoff = cutoff_time(now);
    let used_recently = unused_app_finding(
        "/Applications/Foo.app".to_string(),
        "Foo.app",
        5_000_000,
        Some(cutoff),
        now,
        cutoff,
    );
    assert!(used_recently.is_none());
    let stale = unused_app_finding(
        "/Applications/Foo.app".to_string(),
        "Foo.app",
        5_000_000,
        Some(cutoff - 1),
        now,
        cutoff,
    )
    .unwrap();
    assert_eq!(stale.label, "Foo");
    assert_eq!(stale.age, now - cutoff + 1);
    assert_eq!(stale.reason, "Not opened in 6 months");
    let unknown = unused_app_finding(
        "/Applications/Bar.app".to_string(),
        "Bar.app",
        5_000_000,
        None,
        now,
        cutoff,
    )
    .unwrap();
    assert_eq!(unknown.age, 15_552_000_000);
    assert_eq!(unknown.reason, "No usage data \u{2014} may be unused");
    assert!(unknown.effort.is_none());
}

fn finding(path: &str, size: u64) -> Finding {
    Finding {
        path: path.to_string(),
        label: path.to_string(),
        size,
        age: 0,
        reason: String::new(),
        effort: None,
    }
}

#[test]
fn unused_apps_result_sorted_and_totalled() {
    let r = unused_apps_scan_result(vec![finding("a", 10), finding("b", 30), finding("c", 20)], 7);
    assert_eq!(r.scanner_name, "Unused Apps");
    let paths: Vec<&str> = r.findings.iter().map(|f| f.path.as_str()).collect();
    assert_eq!(paths, vec!["b", "c", "a"]);
    assert_eq!(r.total_size, 60);
    assert_eq!(r.duration, 7);
}

#[test]
fn last_used_from_captured_groups() {
    let caps = Some(vec![
        Some("whole".to_string()),
        Some("1970-01-02".to_string()),
        Some("00:00:01".to_string()),
    ]);
    assert_eq!(last_used_from_captures(&caps), Some(86_401_000));
    assert_eq!(last_used_from_captures(&None), None);
    let bad_month = Some(vec![None, Some("1970-15-02".to_string()), Some("00:00:01".to_string())]);
    assert_eq!(last_used_from_captures(&bad_month), None);
}
