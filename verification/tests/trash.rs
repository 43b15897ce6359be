use clean_up::utils::trash::{
    applescript_escape, finder_delete_all_script, finder_delete_script, is_path_safe,
    single_after_trash_command, single_trash_start, BatchTrash, SingleTrashStep, TrashAction,
};

/// The home directory the checks run with (the value of `HOME`).
const HOME: &str = "/Users/tester";

fn safe(path: &str) -> bool {
    is_path_safe(path, Some(HOME))
}

#[test]
fn blocked_system_paths() {
    assert!(!safe("/"));
    assert!(!safe("/System"));
    assert!(!safe("/System/Library"));
    assert!(!safe("/Library"));
    assert!(!safe("/Users"));
    assert!(!safe("/Applications"));
    assert!(!safe("/usr"));
    assert!(!safe("/usr/bin"));
    assert!(!safe("/usr/local"));
    assert!(!safe("/bin"));
    assert!(!safe("/sbin"));
    assert!(!safe("/private"));
    assert!(!safe("/opt/homebrew"));
}

#[test]
fn blocked_prefixes() {
    assert!(!safe("/System/Library/Frameworks"));
    assert!(!safe("/usr/lib/libSystem.B.dylib"));
    assert!(!safe("/bin/sh"));
    assert!(!safe("/sbin/mount"));
    assert!(!safe("/private/etc/hosts"));
    assert!(!safe("/private/var/db"));
}

#[test]
fn trailing_slash_normalized() {
    assert!(!safe("/System/"));
    assert!(!safe("/usr/"));
    assert!(!safe("///"));
}

#[test]
fn home_directory_blocked() {
    let home = HOME.to_string();
    assert!(!is_path_safe(&home, Some(HOME)));
    assert!(!is_path_safe(&format!("{}/", home), Some(HOME)));
}

#[test]
fn safe_paths_allowed() {
    assert!(safe("/Users/test/Library/Caches/com.example"));
    assert!(safe("/Applications/SomeApp.app"));
    assert!(safe("/tmp/test-file"));
}

#[test]
fn user_library_subpaths_safe() {
    assert!(safe("/Users/test/Library/Application Support/com.example"));
    assert!(safe("/Users/test/Library/Caches/com.brave.Browser"));
    assert!(safe("/Users/test/code/project/node_modules"));
}

#[test]
fn home_given_explicitly() {
    assert!(!is_path_safe("/Users/alice", Some("/Users/alice/")));
    assert!(!is_path_safe("/Users/alice//", Some("/Users/alice")));
    assert!(is_path_safe("/Users/alice/Downloads", Some("/Users/alice")));
    assert!(is_path_safe("/Users/alice", None));
    assert!(!is_path_safe("/usr", None));
    assert!(is_path_safe("/usrx", None));
    assert!(is_path_safe("/System2/x", None));
}

#[test]
fn applescript_escaping() {
    assert_eq!(applescript_escape(r#"/a "b"\c"#), r#"/a \"b\"\\c"#);
    assert_eq!(
        finder_delete_script("/tmp/x"),
        r#"tell application "Finder" to delete POSIX file "/tmp/x""#
    );
    assert_eq!(
        finder_delete_all_script(&vec!["/a".to_string(), "/b\"".to_string()]),
        r#"tell application "Finder" to delete {POSIX file "/a", POSIX file "/b\""}"#
    );
}

fn results(action: TrashAction) -> Vec<(String, bool)> {
    match action {
        TrashAction::Report(v) => v.into_iter().map(|t| (t.path, t.success)).collect(),
        _ => panic!("expected a report"),
    }
}

#[test]
fn batch_of_only_blocked_paths_fails_every_path() {
    let (_, action) = BatchTrash::start(vec!["/System".to_string(), "/usr/".to_string()], None);
    assert_eq!(
        results(action),
        vec![("/System".to_string(), false), ("/usr/".to_string(), false)]
    );
}

#[test]
fn batch_sends_only_safe_paths_and_reports_in_order() {
    let paths = vec!["/tmp/a".to_string(), "/System".to_string(), "/tmp/b".to_string()];
    let (batch, action) = BatchTrash::start(paths, None);
    match action {
        TrashAction::RunTrashCommand(args) => {
            assert_eq!(args, vec!["/tmp/a".to_string(), "/tmp/b".to_string()])
        }
        _ => panic!("expected the trash command"),
    }
    let expected = vec![
        ("/tmp/a".to_string(), true),
        ("/System".to_string(), false),
        ("/tmp/b".to_string(), true),
    ];
    assert_eq!(results(batch.after_trash_command(true)), expected);
    match batch.after_trash_command(false) {
        TrashAction::RunFinderScript(s) => assert_eq!(
            s,
            r#"tell application "Finder" to delete {POSIX file "/tmp/a", POSIX file "/tmp/b"}"#
        ),
        _ => panic!("expected the Finder script"),
    }
    assert_eq!(results(batch.after_finder_script(true)), expected);
    assert!(matches!(batch.after_finder_script(false), TrashAction::TrashEachOnItsOwn));
}

#[test]
fn single_path_steps() {
    assert!(matches!(single_trash_start("/", None), SingleTrashStep::Done(false)));
    assert!(matches!(single_trash_start("/tmp/x", None), SingleTrashStep::RunTrashCommand));
    assert!(matches!(single_after_trash_command("/tmp/x", true), SingleTrashStep::Done(true)));
    match single_after_trash_command("/tmp/x", false) {
        SingleTrashStep::RunFinderScript(s) => {
            assert_eq!(s, r#"tell application "Finder" to delete POSIX file "/tmp/x""#)
        }
        _ => panic!("expected the Finder script"),
    }
}

#[test]
fn nothing_under_a_blocked_prefix_is_safe() {
    assert!(!is_path_safe("/private/etc/", None));
    assert!(!is_path_safe("/private/etc///", None));
    assert!(!is_path_safe("/System//Library", None));
    assert!(!is_path_safe("/usr/local/bin/tool", None));
    assert!(is_path_safe("/private/tmpfile", None));
    assert!(is_path_safe("/private/etcetera", None));
}
