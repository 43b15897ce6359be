use clean_up::utils::fs::is_root;
use clean_up::scanners::app_leftovers::leftover_bundle_id_from;
use clean_up::findings::{build_scan_result, sort_by_size_desc, total_size};
use clean_up::scanners::app_leftovers::{leftover_bundle_id, leftover_finding, leftovers_scan_result};
use clean_up::scanners::dev_artifacts::{
    artifact_finding, artifact_lookup, artifacts_scan_result, skip_dir, ArtifactWalk,
};
use clean_up::scanners::large_old_files::{
    large_files_scan_result, skip_name, walk_top_dir, EntryOutcome, FileEntry, GitRepoCache,
    GitStep, LargeFileWalk,
};
use clean_up::scanners::system_caches::{
    cache_finding, cache_targets, caches_scan_result, expand_home, is_tcc_protected,
};
use clean_up::types::{Effort, Finding};
use clean_up::utils::apps::InstalledApps;
use clean_up::utils::fs::{DirEntry, EntryKind, SizeWalk, SizedEntry};

fn finding(path: &str, size: u64) -> Finding {
    Finding {
        path: path.to_string(),
        label: path.to_string(),
        size,
        age: 0,
        reason: String::new(),
        effort: None,
    }
}

fn paths(fs: &[Finding]) -> Vec<&str> {
    fs.iter().map(|f| f.path.as_str()).collect()
}

#[test]
fn sort_is_descending_and_stable() {
    let sorted = sort_by_size_desc(vec![
        finding("a", 5),
        finding("b", 9),
        finding("c", 5),
        finding("d", 0),
        finding("e", 9),
    ]);
    assert_eq!(paths(&sorted), vec!["b", "e", "a", "c", "d"]);
    assert_eq!(total_size(&sorted), 28);
}

#[test]
fn scan_result_limit_keeps_largest() {
    let fs: Vec<Finding> = (0..60u64).map(|i| finding(&format!("f{}", i), i)).collect();
    let r = large_files_scan_result(fs, 11);
    assert_eq!(r.scanner_name, "Large & Old Files");
    assert_eq!(r.findings.len(), 50);
    assert_eq!(r.findings[0].path, "f59");
    assert_eq!(r.findings[49].path, "f10");
    assert_eq!(r.total_size, (10..60u64).sum::<u64>());
    let r = build_scan_result("X".to_string(), vec![finding("a", 1)], Some(5), 0);
    assert_eq!(r.findings.len(), 1);
    assert_eq!(r.total_size, 1);
    let empty = build_scan_result("Y".to_string(), Vec::new(), None, 4);
    assert_eq!(empty.total_size, 0);
    assert_eq!(empty.duration, 4);
}

#[test]
fn artifact_table_lookup() {
    let (reason, effort) = artifact_lookup("node_modules").unwrap();
    assert_eq!(reason, "Node.js dependencies \u{2014} can be reinstalled with npm/bun install");
    assert_eq!(effort, Effort::Reinstall);
    assert_eq!(artifact_lookup("target").unwrap().1, Effort::NoEffort);
    assert!(artifact_lookup("src").is_none());
    assert!(skip_dir(".git"));
    assert!(skip_dir(".cargo"));
    assert!(!skip_dir("code"));
}

fn dir(name: &str, path: &str) -> DirEntry {
    DirEntry { name: name.to_string(), path: path.to_string(), is_directory: true }
}

fn file(name: &str, path: &str) -> DirEntry {
    DirEntry { name: name.to_string(), path: path.to_string(), is_directory: false }
}

#[test]
fn artifact_walk_breadth_first() {
    let mut walk = ArtifactWalk::new("/Users/u".to_string());
    walk.visit_home(vec![
        dir("code", "/Users/u/code"),
        dir(".venv", "/Users/u/.venv"),
        dir(".hidden", "/Users/u/.hidden"),
        dir("Library", "/Users/u/Library"),
        file("node_modules", "/Users/u/node_modules"),
    ]);
    let (d, depth) = walk.next_dir().unwrap();
    assert_eq!((d.as_str(), depth), ("/Users/u/code", 1));
    walk.visit_dir(&d, depth, vec![
        dir("proj", "/Users/u/code/proj"),
        dir(".cargo", "/Users/u/code/.cargo"),
        dir(".git", "/Users/u/code/.git"),
    ]);
    let (d, depth) = walk.next_dir().unwrap();
    assert_eq!((d.as_str(), depth), ("/Users/u/code/proj", 2));
    walk.visit_dir(&d, depth, vec![dir("node_modules", "/Users/u/code/proj/node_modules")]);
    assert!(walk.next_dir().is_none());
    let found = walk.into_artifacts();
    let names: Vec<(&str, &str)> =
        found.iter().map(|a| (a.path.as_str(), a.parent_display.as_str())).collect();
    assert_eq!(
        names,
        vec![
            ("/Users/u/.venv", "~"),
            ("/Users/u/code/.cargo", "~/code"),
            ("/Users/u/code/proj/node_modules", "~/code/proj"),
        ]
    );
    let f = artifact_finding(found[2].clone(), 2 * 1024 * 1024, 10).unwrap();
    assert_eq!(f.label, "node_modules in ~/code/proj");
    assert_eq!(f.effort, Some(Effort::Reinstall));
    assert!(artifact_finding(found[0].clone(), 1024 * 1024 - 1, 0).is_none());
    let r = artifacts_scan_result(vec![f], 1);
    assert_eq!(r.scanner_name, "Dev Artifacts");
}

#[test]
fn artifact_walk_stops_below_depth_five() {
    let mut walk = ArtifactWalk::new("/h".to_string());
    walk.visit_home(vec![dir("a", "/h/a")]);
    let mut path = "/h/a".to_string();
    for depth in 1..=5usize {
        let (d, k) = walk.next_dir().unwrap();
        assert_eq!((d.as_str(), k), (path.as_str(), depth));
        path = format!("{}/a", path);
        walk.visit_dir(&d, k, vec![dir("a", &path)]);
    }
    assert!(walk.next_dir().is_none());
}

fn entry(name: &str, path: &str, is_dir: bool, size: u64, age: u64) -> FileEntry {
    FileEntry { path: path.to_string(), name: name.to_string(), is_dir, size, age }
}

#[test]
fn large_file_walk_flags_large_or_old() {
    let big = 100 * 1024 * 1024 + 1;
    let year: u64 = 365 * 24 * 60 * 60 * 1000 + 1;
    assert!(walk_top_dir("Documents", true));
    assert!(!walk_top_dir("Movies", true));
    assert!(!walk_top_dir(".ssh", true));
    assert!(!walk_top_dir("notes.txt", false));
    assert!(skip_name("node_modules"));
    let mut walk = LargeFileWalk::new("/Users/u/Documents".to_string(), 1, "/Users/u".to_string());
    let (d, depth) = walk.next_dir().unwrap();
    assert_eq!((d.as_str(), depth), ("/Users/u/Documents", 1));
    let sub = entry("sub", "/Users/u/Documents/sub", true, 0, 0);
    assert!(matches!(walk.visit_entry(depth, &sub), EntryOutcome::Done));
    let small = entry("a.txt", "/Users/u/Documents/a.txt", false, 10, 10);
    assert!(matches!(walk.visit_entry(depth, &small), EntryOutcome::Done));
    // Exactly 100 MB and exactly a year old is neither large nor old.
    let edge = entry("e.bin", "/Users/u/Documents/e.bin", false, big - 1, year - 1);
    assert!(matches!(walk.visit_entry(depth, &edge), EntryOutcome::Done));
    walk.record_file(edge, false);
    let large = entry("v.mov", "/Users/u/Documents/v.mov", false, big, 0);
    match walk.visit_entry(depth, &large) {
        EntryOutcome::CheckRepo(p) => assert_eq!(p, "/Users/u/Documents"),
        EntryOutcome::Done => panic!("large file needs the repository check"),
    }
    walk.record_file(large, false);
    walk.record_file(entry("old.c", "/Users/u/Documents/old.c", false, 5, year), true);
    walk.record_file(entry("both", "/Users/u/Documents/both", false, big, year), true);
    walk.record_file(entry("old.txt", "/Users/u/Documents/old.txt", false, 5, year), false);
    let (d, depth) = walk.next_dir().unwrap();
    assert_eq!((d.as_str(), depth), ("/Users/u/Documents/sub", 2));
    assert!(walk.next_dir().is_none());
    let found = walk.into_findings();
    let got: Vec<(&str, &str, &str)> = found
        .iter()
        .map(|f| (f.path.as_str(), f.label.as_str(), f.reason.as_str()))
        .collect();
    assert_eq!(
        got,
        vec![
            ("/Users/u/Documents/v.mov", "~/Documents/v.mov", "Large file (>100MB)"),
            (
                "/Users/u/Documents/both",
                "~/Documents/both",
                "Large file (>100MB) + Not modified in over a year"
            ),
            ("/Users/u/Documents/old.txt", "~/Documents/old.txt", "Not modified in over a year"),
        ]
    );
}

#[test]
fn git_repository_check_walks_up_and_remembers() {
    let mut cache = GitRepoCache::new();
    let home_len = "/Users/u".len();
    let (probe, step) = cache.begin("/Users/u/code/proj/src".to_string(), home_len);
    match step {
        GitStep::CheckForGitDir(p) => assert_eq!(p, "/Users/u/code/proj/src"),
        GitStep::Answer(_) => panic!("nothing is known yet"),
    }
    let (probe, step) = cache.git_entry_checked(probe, false, home_len);
    match step {
        GitStep::CheckForGitDir(p) => assert_eq!(p, "/Users/u/code/proj"),
        GitStep::Answer(_) => panic!("the parent must be checked"),
    }
    let (_, step) = cache.git_entry_checked(probe, true, home_len);
    assert!(matches!(step, GitStep::Answer(true)));
    assert_eq!(cache.lookup("/Users/u/code/proj"), Some(true));
    assert_eq!(cache.lookup("/Users/u/code/proj/src"), Some(true));
    let (_, again) = cache.begin("/Users/u/code/proj/src".to_string(), home_len);
    assert!(matches!(again, GitStep::Answer(true)));
    // A sibling reaches the cached repository root on its way up.
    let (probe, _) = cache.begin("/Users/u/code/proj/docs".to_string(), home_len);
    let (_, step) = cache.git_entry_checked(probe, false, home_len);
    assert!(matches!(step, GitStep::Answer(true)));
    assert_eq!(cache.lookup("/Users/u/code/proj/docs"), Some(true));
}

#[test]
fn git_check_stops_above_home() {
    let mut cache = GitRepoCache::new();
    let home_len = "/Users/u".len();
    let (probe, _) = cache.begin("/Users/u/x".to_string(), home_len);
    let (probe, step) = cache.git_entry_checked(probe, false, home_len);
    match step {
        GitStep::CheckForGitDir(p) => assert_eq!(p, "/Users/u"),
        GitStep::Answer(_) => panic!("home itself is checked"),
    }
    let (_, step) = cache.git_entry_checked(probe, false, home_len);
    assert!(matches!(step, GitStep::Answer(false)));
    assert_eq!(cache.lookup("/Users/u/x"), Some(false));
    assert_eq!(cache.lookup("/Users/u"), None);
    let (_, root) = cache.begin("/".to_string(), 0);
    assert!(matches!(root, GitStep::Answer(false)));
    for p in ["//", "/.", "/./"] {
        let (_, step) = cache.begin(p.to_string(), 0);
        assert!(matches!(step, GitStep::Answer(false)), "{}", p);
    }
    for p in ["/..", "/a", "/.a"] {
        let (_, step) = cache.begin(p.to_string(), 0);
        assert!(matches!(step, GitStep::CheckForGitDir(_)), "{}", p);
    }
    cache.set("/Users/u/x".to_string(), true);
    assert_eq!(cache.lookup("/Users/u/x"), Some(true));
}

#[test]
fn directory_size_walk() {
    let mut walk = SizeWalk::new("/d".to_string());
    assert_eq!(walk.next_dir(), Some("/d".to_string()));
    let entries = vec![
        SizedEntry { path: "/d/a".to_string(), kind: EntryKind::File(100) },
        SizedEntry { path: "/d/s".to_string(), kind: EntryKind::Directory },
        SizedEntry { path: "/d/l".to_string(), kind: EntryKind::Other },
        SizedEntry { path: "/d/b".to_string(), kind: EntryKind::File(23) },
    ];
    assert!(walk.can_add(&entries));
    walk.add_entries(entries);
    assert_eq!(walk.next_dir(), Some("/d/s".to_string()));
    let huge = vec![SizedEntry { path: "/d/s/h".to_string(), kind: EntryKind::File(u64::MAX) }];
    assert!(!walk.can_add(&huge));
    walk.add_entries(vec![SizedEntry { path: "/d/s/c".to_string(), kind: EntryKind::File(7) }]);
    assert_eq!(walk.next_dir(), None);
    assert_eq!(walk.total(), 130);
}

#[test]
fn system_cache_targets() {
    let targets = cache_targets();
    assert_eq!(targets.len(), 22);
    assert_eq!(targets[0].path, "~/Library/Caches/Google/Chrome");
    assert!(is_tcc_protected("~/Library/Caches/CloudKit"));
    assert!(!is_tcc_protected("~/Library/Caches/pip"));
    assert_eq!(expand_home("~/Library/Logs", "/Users/u"), "/Users/u/Library/Logs");
    assert_eq!(expand_home("/x/~y~", "/h"), "/x//hy~");
    let safari = targets.iter().find(|t| t.label == "Safari cache").unwrap();
    let f = cache_finding(safari, "/Users/u/Library/Caches/com.apple.Safari".to_string(), 5 * 1024 * 1024, 3)
        .unwrap();
    assert_eq!(
        f.reason,
        "Browser cache \u{2014} Safari will rebuild it (may need Full Disk Access)"
    );
    assert_eq!(f.effort, Some(Effort::NoEffort));
    assert!(cache_finding(safari, "p".to_string(), 5 * 1024 * 1024 - 1, 3).is_none());
    let r = caches_scan_result(vec![f], 2);
    assert_eq!(r.total_size, 5 * 1024 * 1024);
}

#[test]
fn leftovers_skip_system_and_installed() {
    let mut installed = InstalledApps::new();
    installed.record_mdls_output("kMDItemCFBundleIdentifier = \"com.spotify.client\"");
    assert_eq!(leftover_bundle_id("com.Spotify.Client", &installed), None);
    assert_eq!(leftover_bundle_id("com.apple.Music", &installed), None);
    assert_eq!(leftover_bundle_id(".DS_Store", &installed), None);
    assert_eq!(leftover_bundle_id("Apple", &installed), None);
    assert_eq!(leftover_bundle_id("Google", &installed), None);
    assert_eq!(
        leftover_bundle_id("com.Old.App", &installed),
        Some("com.old.app".to_string())
    );
    let f = leftover_finding("/p".to_string(), "com.Old.App", "Caches", "com.old.app", 512 * 1024, 9)
        .unwrap();
    assert_eq!(f.label, "com.Old.App in ~/Library/Caches");
    assert_eq!(f.reason, "Data from uninstalled app (com.old.app)");
    assert!(leftover_finding("/p".to_string(), "x", "Caches", "x", 512 * 1024 - 1, 9).is_none());
    let r = leftovers_scan_result(vec![f], 0);
    assert_eq!(r.scanner_name, "App Leftovers");
}

#[test]
fn leftover_decision_from_parts() {
    let mut installed = InstalledApps::new();
    installed.record_mdls_output("kMDItemCFBundleIdentifier = \"a.b\"");
    assert_eq!(leftover_bundle_id_from("A.B", "a.b".to_string(), true, false, &installed), None);
    assert_eq!(
        leftover_bundle_id_from("C.D", "c.d".to_string(), true, false, &installed),
        Some("c.d".to_string())
    );
    assert_eq!(leftover_bundle_id_from("C.D", "c.d".to_string(), false, false, &installed), None);
    assert_eq!(leftover_bundle_id_from("C.D", "c.d".to_string(), true, true, &installed), None);
    assert_eq!(leftover_bundle_id_from(".C.D", "c.d".to_string(), true, false, &installed), None);
}

#[test]
fn root_check_agrees_with_path_equality() {
    for p in ["", "/", "//", "/.", "/./", "/./.", "/..", "/a", "/.a", "./", ".", "/a/..", "a/"] {
        let same = std::path::Path::new(p) == std::path::Path::new("/");
        assert_eq!(is_root(p), same, "{:?}", p);
    }
}
