use clean_up::commands::spotlight_status_from;
use clean_up::commands::{
    check_permissions, extract_png_from_icns, get_version, home_directory, icns_file_name,
    icns_path, icon_plist_path, mode_allows_write, open_settings, reindex_spotlight,
    spotlight_status, AppState, IconCache,
};

const PNG_SIG: [u8; 8] = [0x89, 0x50, 0x4E, 0x47, 0x0D, 0x0A, 0x1A, 0x0A];

fn entry(kind: &[u8; 4], data: &[u8]) -> Vec<u8> {
    let mut v = kind.to_vec();
    v.extend_from_slice(&((data.len() + 8) as u32).to_be_bytes());
    v.extend_from_slice(data);
    v
}

fn png(tag: u8) -> Vec<u8> {
    let mut v = PNG_SIG.to_vec();
    v.push(tag);
    v
}

fn icns(entries: &[Vec<u8>]) -> Vec<u8> {
    let body: Vec<u8> = entries.concat();
    let mut v = b"icns".to_vec();
    v.extend_from_slice(&((body.len() + 8) as u32).to_be_bytes());
    v.extend_from_slice(&body);
    v
}

#[test]
fn icns_prefers_best_ranked_png() {
    let data = icns(&[
        entry(b"ic10", &png(1)),
        entry(b"ic07", &png(2)),
        entry(b"ic12", &png(3)),
        entry(b"ic11", &png(4)),
    ]);
    assert_eq!(extract_png_from_icns(&data), Some(png(3)));
}

#[test]
fn icns_falls_back_to_first_png() {
    let data = icns(&[
        entry(b"it32", &[1, 2, 3, 4, 5, 6, 7, 8, 9]),
        entry(b"zzzz", &png(7)),
        entry(b"yyyy", &png(8)),
    ]);
    assert_eq!(extract_png_from_icns(&data), Some(png(7)));
    let preferred_later = icns(&[entry(b"zzzz", &png(7)), entry(b"ic14", &png(9))]);
    assert_eq!(extract_png_from_icns(&preferred_later), Some(png(9)));
}

#[test]
fn icns_keeps_first_of_equal_rank() {
    let data = icns(&[entry(b"ic12", &png(1)), entry(b"ic12", &png(2))]);
    assert_eq!(extract_png_from_icns(&data), Some(png(1)));
}

#[test]
fn icns_rejects_bad_input() {
    assert_eq!(extract_png_from_icns(b"icns"), None);
    assert_eq!(extract_png_from_icns(b"ICNS\0\0\0\x10ic12\0\0\0\x08"), None);
    // A non-PNG entry only.
    assert_eq!(extract_png_from_icns(&icns(&[entry(b"ic12", &[0u8; 12])])), None);
    // PNG data shorter than 8 bytes is ignored.
    assert_eq!(extract_png_from_icns(&icns(&[entry(b"ic12", &PNG_SIG[..4])])), None);
    // An entry whose size runs past the end stops the walk.
    let mut truncated = icns(&[entry(b"ic12", &png(1))]);
    truncated.truncate(truncated.len() - 1);
    assert_eq!(extract_png_from_icns(&truncated), None);
    // An entry with a size below 8 stops the walk before later entries.
    let mut bad = b"icns\0\0\0\0ic12\0\0\0\x04".to_vec();
    bad.extend_from_slice(&entry(b"ic12", &png(5)));
    assert_eq!(extract_png_from_icns(&bad), None);
}

#[test]
fn icon_cache_read_after_write() {
    let mut cache = IconCache::new();
    assert!(cache.get("/Applications/A.app").is_none());
    cache.insert("/Applications/A.app".to_string(), Some(vec![1, 2, 3]));
    cache.insert("/Applications/B.app".to_string(), None);
    assert_eq!(cache.get("/Applications/A.app"), Some(Some(vec![1, 2, 3])));
    assert_eq!(cache.get("/Applications/B.app"), Some(None));
    cache.insert("/Applications/A.app".to_string(), Some(vec![9]));
    assert_eq!(cache.get("/Applications/A.app"), Some(Some(vec![9])));
    assert_eq!(cache.get("/Applications/B.app"), Some(None));
}

#[test]
fn spotlight_grace_period_after_reindex() {
    let mut state = AppState::default();
    assert_eq!(state.last_reindex_time, 0);
    let idle = "/:\n\tIndexing enabled. \n";
    let s = spotlight_status(&mut state, idle, 1_000_000);
    assert!(!s.indexing);
    assert!(s.enabled);
    assert_eq!(s.raw, "/:\n\tIndexing enabled.");
    assert_eq!(reindex_spotlight(&mut state, true, "", 1_000_000), Ok(()));
    assert_eq!(state.last_reindex_time, 1_000_000);
    let s = spotlight_status(&mut state, idle, 1_000_000 + 299_999);
    assert!(s.indexing);
    assert_eq!(state.last_reindex_time, 1_000_000);
    let s = spotlight_status(&mut state, idle, 1_000_000 + 300_000);
    assert!(!s.indexing);
    assert_eq!(state.last_reindex_time, 0);
}

#[test]
fn spotlight_reports_indexing_in_progress() {
    let mut state = AppState::default();
    let s = spotlight_status(&mut state, "Indexing and searching disabled. Indexing in PROGRESS", 5);
    assert!(s.indexing);
    assert!(!s.enabled);
}

#[test]
fn reindex_failures() {
    let mut state = AppState::default();
    state.last_reindex_time = 42;
    assert_eq!(
        reindex_spotlight(&mut state, false, "execution error: User canceled. (-128)", 7),
        Err("cancelled".to_string())
    );
    assert_eq!(
        reindex_spotlight(&mut state, false, "boom", 7),
        Err("boom".to_string())
    );
    assert_eq!(state.last_reindex_time, 42);
}

#[test]
fn permissions_listed_with_probe_results() {
    let p = check_permissions(true, false, true);
    assert_eq!(p.len(), 3);
    assert_eq!(p[0].id, "full-disk-access");
    assert!(p[0].granted);
    assert_eq!(p[1].name, "Automation (Finder)");
    assert!(!p[1].granted);
    assert_eq!(
        p[2].deep_link,
        "x-apple.systempreferences:com.apple.preference.security?Privacy_AppManagement"
    );
    assert!(mode_allows_write(0o755));
    assert!(mode_allows_write(0o020));
    assert!(!mode_allows_write(0o555));
}

#[test]
fn settings_links_and_paths() {
    assert_eq!(
        open_settings("x-apple.systempreferences:com.apple.preference.security"),
        Ok(())
    );
    assert_eq!(open_settings("https://example.com"), Err("Invalid deep link".to_string()));
    assert_eq!(home_directory(Some("/Users/a"), Some("b")), "/Users/a");
    assert_eq!(home_directory(None, Some("b")), "/Users/b");
    assert_eq!(home_directory(None, None), "/Users/");
    let v = get_version("1.2.3", None);
    assert_eq!(v.version, "1.2.3");
    assert_eq!(v.built, "dev");
    assert_eq!(get_version("1", Some("2024-05-01")).built, "2024-05-01");
}

#[test]
fn icon_file_location() {
    assert_eq!(icon_plist_path("/Applications/A.app"), "/Applications/A.app/Contents/Info.plist");
    assert_eq!(icns_file_name("AppIcon\n"), Some("AppIcon.icns".to_string()));
    assert_eq!(icns_file_name(" AppIcon.icns "), Some("AppIcon.icns".to_string()));
    assert_eq!(icns_file_name("  \n"), None);
    assert_eq!(
        icns_path("/Applications/A.app", "AppIcon.icns"),
        "/Applications/A.app/Contents/Resources/AppIcon.icns"
    );
}

#[test]
fn spotlight_status_from_lowercase_text() {
    let mut state = AppState::default();
    let s = spotlight_status_from(&mut state, " X ", "indexing in progress, enabled", 3);
    assert!(s.indexing);
    assert!(s.enabled);
    assert_eq!(s.raw, "X");
    let s = spotlight_status_from(&mut state, "", "INDEXING IN PROGRESS", 3);
    assert!(!s.indexing);
}
