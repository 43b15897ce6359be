use clean_up::scanners::homebrew_cleanup::paths_from_captures;
use clean_up::scanners::homebrew_cleanup::{
    brew_path_from_which, classify_path, cleanup_finding, cleanup_paths, homebrew_scan_result,
};

#[test]
fn classify_cellar_path() {
    let (label, reason) = classify_path("/opt/homebrew/Cellar/node/21.0.0");
    assert_eq!(label, "node@21.0.0");
    assert!(reason.contains("Old formula version"));
}

#[test]
fn classify_caskroom_path() {
    let (label, reason) = classify_path("/opt/homebrew/Caskroom/firefox/120.0");
    assert_eq!(label, "firefox@120.0");
    assert!(reason.contains("Old cask version"));
}

#[test]
fn classify_cache_path() {
    let (label, reason) =
        classify_path("/Users/test/Library/Caches/Homebrew/downloads/abc123--node-21.tar.gz");
    assert!(label.starts_with("Cached download:"));
    assert!(reason.contains("Stale Homebrew cache"));
}

#[test]
fn classify_unknown_path() {
    let (label, reason) = classify_path("/opt/homebrew/share/old-thing");
    assert_eq!(label, "old-thing");
    assert!(reason.contains("Old Homebrew artifact"));
}

#[test]
fn classify_exact_texts() {
    let (label, reason) =
        classify_path("/Users/test/Library/Caches/Homebrew/downloads/abc123--node-21.tar.gz");
    assert_eq!(label, "Cached download: abc123--node-21.tar.gz");
    assert_eq!(reason, "Stale Homebrew cache file \u{2014} safe to remove");
    let (label, reason) = classify_path("/usr/local/Cellar/python@3.11/3.11.4_1/bin");
    assert_eq!(label, "python@3.11@3.11.4_1");
    assert_eq!(reason, "Old formula version \u{2014} newer version installed");
    let (label, _) = classify_path("/tmp/mycache.db");
    assert_eq!(label, "Cached download: mycache.db");
    let (label, _) = classify_path("/opt/homebrew/Cellar/node");
    assert_eq!(label, "node");
}

#[test]
fn dry_run_output_paths() {
    let out = "Would remove: /opt/homebrew/Cellar/node/21.0.0 (1,234 files, 50MB)\n\nWould remove: /Users/u/Library/Caches/Homebrew/x.tar.gz (3MB)\n==> This operation would free approximately 53MB of disk space.\n";
    assert_eq!(
        cleanup_paths(out),
        vec![
            "/opt/homebrew/Cellar/node/21.0.0".to_string(),
            "/Users/u/Library/Caches/Homebrew/x.tar.gz".to_string(),
        ]
    );
    assert!(cleanup_paths("").is_empty());
}

#[test]
fn brew_found_by_which() {
    assert_eq!(
        brew_path_from_which(true, "/opt/homebrew/bin/brew\n"),
        Some("/opt/homebrew/bin/brew".to_string())
    );
    assert_eq!(brew_path_from_which(true, "  \n"), None);
    assert_eq!(brew_path_from_which(false, "/opt/homebrew/bin/brew"), None);
}

#[test]
fn homebrew_findings_and_result() {
    let f = cleanup_finding("/opt/homebrew/Caskroom/arc/1.2".to_string(), 4096);
    assert_eq!(f.label, "arc@1.2");
    assert_eq!(f.reason, "Old cask version \u{2014} newer version installed");
    assert_eq!(f.age, 0);
    assert!(f.effort.is_none());
    let g = cleanup_finding("/opt/homebrew/share/z".to_string(), 8192);
    let r = homebrew_scan_result(vec![f, g], 3);
    assert_eq!(r.scanner_name, "Homebrew Cleanup");
    assert_eq!(r.findings[0].path, "/opt/homebrew/share/z");
    assert_eq!(r.total_size, 12288);
}

#[test]
fn paths_from_line_captures() {
    let caps = vec![
        Some(vec![Some("/a b".to_string()), Some("/a".to_string())]),
        None,
        Some(vec![Some("x".to_string())]),
        Some(vec![Some("/c".to_string()), Some("/c".to_string())]),
    ];
    assert_eq!(paths_from_captures(&caps), vec!["/a".to_string(), "/c".to_string()]);
}
