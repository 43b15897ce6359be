use clean_up::scanners::{
    all_scanner_info, list_scanners, scanner_kind, scanners_to_run, unknown_scan_result,
    ScannerKind,
};

#[test]
fn scanner_count() {
    let scanners = all_scanner_info();
    assert_eq!(scanners.len(), 6);
}

#[test]
fn scanner_ids_are_unique() {
    let scanners = all_scanner_info();
    let ids: Vec<&str> = scanners.iter().map(|s| s.id.as_str()).collect();
    let mut deduped = ids.clone();
    deduped.sort();
    deduped.dedup();
    assert_eq!(ids.len(), deduped.len());
}

#[test]
fn expected_scanners_present() {
    let scanners = all_scanner_info();
    let ids: Vec<String> = scanners.iter().map(|s| s.id.clone()).collect();
    assert!(ids.contains(&"dev-artifacts".to_string()));
    assert!(ids.contains(&"system-caches".to_string()));
    assert!(ids.contains(&"app-leftovers".to_string()));
    assert!(ids.contains(&"large-old-files".to_string()));
    assert!(ids.contains(&"unused-apps".to_string()));
    assert!(ids.contains(&"homebrew-cleanup".to_string()));
}

#[test]
fn scanner_metadata_in_display_order() {
    let scanners = list_scanners();
    assert_eq!(scanners[0].id, "dev-artifacts");
    assert_eq!(scanners[0].name, "Dev Artifacts");
    assert_eq!(scanners[0].description, "node_modules, build caches, virtual environments");
    assert_eq!(scanners[3].name, "Large & Old Files");
    assert_eq!(scanners[3].description, "Files >100MB or untouched for >1 year");
    assert_eq!(scanners[5].id, "homebrew-cleanup");
}

#[test]
fn empty_request_runs_every_scanner() {
    let all = scanners_to_run(&Vec::new());
    let ids: Vec<String> = all_scanner_info().iter().map(|s| s.id.clone()).collect();
    assert_eq!(all, ids);
    let some = scanners_to_run(&vec!["unused-apps".to_string(), "bogus".to_string()]);
    assert_eq!(some, vec!["unused-apps".to_string(), "bogus".to_string()]);
}

#[test]
fn every_listed_scanner_is_runnable() {
    for info in all_scanner_info() {
        assert_ne!(scanner_kind(&info.id), ScannerKind::Unknown);
    }
    assert_eq!(scanner_kind("system-caches"), ScannerKind::SystemCaches);
    assert_eq!(scanner_kind("Dev-Artifacts"), ScannerKind::Unknown);
}

#[test]
fn unknown_scanner_reports_empty_result() {
    let r = unknown_scan_result("bogus");
    assert_eq!(r.scanner_name, "Unknown (bogus)");
    assert!(r.findings.is_empty());
    assert_eq!(r.total_size, 0);
    assert_eq!(r.duration, 0);
}
