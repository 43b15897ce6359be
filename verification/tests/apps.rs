use clean_up::utils::apps::{app_identity_from_parts, bundle_id_if_match, is_app_data_lower, is_system_lowercase_id};
use clean_up::findings::sort_by_size_desc;
use clean_up::types::{AppInfo, AppUninstallData};
use clean_up::utils::apps::{
    app_data_item, app_identity_from_mdls, app_info, app_paths_from_mdfind, extract_bundle_id,
    extract_quoted_value, is_app_data, is_system_bundle_id, library_subdirs_exec,
    listable_apps_from_mdfind, sort_apps_by_name, InstalledApps,
};

#[test]
fn extract_bundle_id_valid() {
    assert_eq!(
        extract_bundle_id("com.spotify.client"),
        Some("com.spotify.client".to_string())
    );
    assert_eq!(
        extract_bundle_id("org.mozilla.firefox"),
        Some("org.mozilla.firefox".to_string())
    );
    assert_eq!(
        extract_bundle_id("com.apple.Safari"),
        Some("com.apple.safari".to_string())
    );
}

#[test]
fn extract_bundle_id_invalid() {
    assert_eq!(extract_bundle_id(".hidden"), None);
    assert_eq!(extract_bundle_id("no-dots"), None);
    assert_eq!(extract_bundle_id(""), None);
    assert_eq!(extract_bundle_id("123.starts.with.number"), None);
}

#[test]
fn system_bundle_ids_detected() {
    assert!(is_system_bundle_id("com.apple.Safari"));
    assert!(is_system_bundle_id("com.apple.finder"));
    assert!(is_system_bundle_id("com.microsoft.rdc"));
    assert!(is_system_bundle_id("group.com.apple.notes"));
    assert!(is_system_bundle_id("systemgroup.com.apple.something"));
}

#[test]
fn third_party_bundle_ids_not_system() {
    assert!(!is_system_bundle_id("com.spotify.client"));
    assert!(!is_system_bundle_id("org.mozilla.firefox"));
    assert!(!is_system_bundle_id("com.google.Chrome"));
}

#[test]
fn extract_quoted_value_works() {
    assert_eq!(
        extract_quoted_value(r#"kMDItemCFBundleIdentifier = "com.example.app""#),
        Some("com.example.app".to_string())
    );
    assert_eq!(
        extract_quoted_value("kMDItemCFBundleIdentifier = (null)"),
        None
    );
}

#[test]
fn extract_quoted_value_needs_closing_quote() {
    assert_eq!(extract_quoted_value("x = \"open"), None);
    assert_eq!(extract_quoted_value("\"\""), Some(String::new()));
}

#[test]
fn system_prefix_check_ignores_case() {
    assert!(is_system_bundle_id("COM.APPLE.Mail"));
    assert!(is_system_bundle_id("SystemGroup.x"));
    assert!(!is_system_bundle_id("com.applesauce.x"));
}

#[test]
fn mdfind_output_split_into_app_paths() {
    let out = "\n/Applications/A.app\n\n/System/Applications/Mail.app\n/Library/Apple/X.app\n/Applications/B.app/Contents\n/Users/me/Applications/C.app\n";
    assert_eq!(
        app_paths_from_mdfind(out),
        vec![
            "/Applications/A.app".to_string(),
            "/System/Applications/Mail.app".to_string(),
            "/Library/Apple/X.app".to_string(),
            "/Applications/B.app/Contents".to_string(),
            "/Users/me/Applications/C.app".to_string(),
        ]
    );
    assert_eq!(
        listable_apps_from_mdfind(out),
        vec!["/Applications/A.app".to_string(), "/Users/me/Applications/C.app".to_string()]
    );
}

#[test]
fn app_identity_read_from_mdls() {
    let mdls = "kMDItemCFBundleIdentifier = \"org.mozilla.firefox\"\nkMDItemDisplayName        = \"Firefox\"\n";
    assert_eq!(
        app_identity_from_mdls("/Applications/Firefox.app", mdls),
        Some(("org.mozilla.firefox".to_string(), "Firefox".to_string()))
    );
    let no_name = "kMDItemCFBundleIdentifier = \"com.example.tool\"\nkMDItemDisplayName = (null)\n";
    assert_eq!(
        app_identity_from_mdls("/Applications/My Tool.app", no_name),
        Some(("com.example.tool".to_string(), "My Tool".to_string()))
    );
    let system = "kMDItemCFBundleIdentifier = \"com.apple.Safari\"\n";
    assert_eq!(app_identity_from_mdls("/Applications/Safari.app", system), None);
    assert_eq!(app_identity_from_mdls("/Applications/X.app", "kMDItemCFBundleIdentifier = (null)"), None);
}

#[test]
fn small_apps_are_not_listed() {
    assert!(app_info("/Applications/T.app", "a.b".to_string(), "T".to_string(), 1024 * 1024 - 1).is_none());
    let a = app_info("/Applications/T.app", "a.b".to_string(), "T".to_string(), 1024 * 1024).unwrap();
    assert_eq!(a.path, "/Applications/T.app");
    assert_eq!(a.app_size, 1024 * 1024);
}

fn app(name: &str, path: &str) -> AppInfo {
    AppInfo {
        name: name.to_string(),
        path: path.to_string(),
        bundle_id: "x.y".to_string(),
        app_size: 1,
    }
}

#[test]
fn apps_sorted_by_name_stably() {
    let sorted = sort_apps_by_name(vec![
        app("Zoom", "1"),
        app("firefox", "2"),
        app("Arc", "3"),
        app("Zoom", "4"),
        app("\u{e9}clair", "5"),
        app("Arc", "6"),
    ]);
    let order: Vec<&str> = sorted.iter().map(|a| a.path.as_str()).collect();
    // Byte order: uppercase before lowercase, non-ASCII last; equal names keep their order.
    assert_eq!(order, vec!["3", "6", "1", "4", "2", "5"]);
}

#[test]
fn app_data_matching() {
    assert!(is_app_data("Caches", "com.Spotify.Client", "com.spotify.client", "Spotify.app"));
    assert!(is_app_data("Application Support", "Spotify", "com.spotify.client", "Spotify.app"));
    assert!(is_app_data("Logs", "spotify.app", "com.spotify.client", "Spotify.app"));
    assert!(is_app_data("Preferences", "com.spotify.client.plist", "com.spotify.client", "Spotify.app"));
    assert!(!is_app_data("Saved Application State", "com.spotify.client.savedState", "com.spotify.client", "Spotify"));
    assert!(is_app_data("Preferences", "com.spotify.client.savedstate", "com.spotify.client", "Spotify"));
    assert!(!is_app_data("Caches", "com.spotify.client.plist", "com.spotify.client", "Spotify.app"));
    assert!(!is_app_data("Caches", "Spotify Helper", "com.spotify.client", "Spotify.app"));
}

#[test]
fn app_data_labels_and_order() {
    let item = app_data_item("/Users/u/Library/Caches/x".to_string(), "Caches", "x", 5);
    assert_eq!(item.label, "Caches/x");
    assert_eq!(item.path, "/Users/u/Library/Caches/x");
    let items = vec![
        AppUninstallData { path: "a".to_string(), label: "a".to_string(), size: 1 },
        AppUninstallData { path: "b".to_string(), label: "b".to_string(), size: 9 },
        AppUninstallData { path: "c".to_string(), label: "c".to_string(), size: 1 },
    ];
    let sorted = sort_by_size_desc(items);
    let order: Vec<&str> = sorted.iter().map(|d| d.path.as_str()).collect();
    assert_eq!(order, vec!["b", "a", "c"]);
    let subdirs = library_subdirs_exec();
    assert_eq!(subdirs.len(), 8);
    assert_eq!(subdirs[4], "Preferences");
}

#[test]
fn installed_apps_record_lowercase_ids_once() {
    let mut installed = InstalledApps::new();
    installed.record_mdls_output("kMDItemCFBundleIdentifier = \"Com.Example.App\"");
    installed.record_mdls_output("kMDItemCFBundleIdentifier = \"com.example.app\"");
    installed.record_mdls_output("kMDItemCFBundleIdentifier = (null)");
    assert!(installed.contains("com.example.app"));
    assert!(!installed.contains("Com.Example.App"));
    assert!(!installed.contains("(null)"));
}

#[test]
fn app_identity_for_any_path() {
    let no_name = "kMDItemCFBundleIdentifier = \"com.example.tool\"\nkMDItemDisplayName = (null)\n";
    assert_eq!(
        app_identity_from_mdls("/Applications/Tool/", no_name),
        Some(("com.example.tool".to_string(), "Tool".to_string()))
    );
    assert_eq!(
        app_identity_from_mdls("/Applications/..", no_name),
        Some(("com.example.tool".to_string(), String::new()))
    );
}

#[test]
fn identity_and_matching_from_parts() {
    assert_eq!(
        app_identity_from_parts(Some("a.b".to_string()), false, None, Some("X.app".to_string())),
        Some(("a.b".to_string(), "X".to_string()))
    );
    assert_eq!(app_identity_from_parts(Some("a.b".to_string()), true, None, None), None);
    assert_eq!(app_identity_from_parts(None, false, Some("N".to_string()), None), None);
    assert_eq!(bundle_id_if_match(true, "x.y".to_string()), Some("x.y".to_string()));
    assert_eq!(bundle_id_if_match(false, "x.y".to_string()), None);
    assert!(is_system_lowercase_id("com.apple.mail"));
    assert!(!is_system_lowercase_id("COM.APPLE.mail"));
    assert!(is_app_data_lower("Preferences", "a.b.plist", "a.b", "zed.app"));
    assert!(is_app_data_lower("Caches", "zed", "a.b", "zed.app"));
    assert!(!is_app_data_lower("Caches", "a.b.plist", "a.b", "zed.app"));
}

#[test]
fn bundle_id_shapes() {
    assert_eq!(extract_bundle_id("a.b"), Some("a.b".to_string()));
    assert_eq!(extract_bundle_id("A-1.b.-9"), Some("a-1.b.-9".to_string()));
    assert_eq!(extract_bundle_id("a.1b"), None);
    assert_eq!(extract_bundle_id("a-.b\n"), None);
    assert_eq!(extract_bundle_id("a."), None);
    assert_eq!(extract_bundle_id("a_b.c"), None);
}
