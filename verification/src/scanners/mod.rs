use vstd::prelude::*;
use crate::text::{str_eq, views};
use crate::types::{ScanResult, ScannerInfo};

pub mod app_leftovers;
pub mod dev_artifacts;
pub mod homebrew_cleanup;
pub mod large_old_files;
pub mod system_caches;
pub mod unused_apps;

verus! {

/// All available scanners: id, name and description, in display order.
pub open spec fn scanner_defs() -> Seq<(Seq<char>, Seq<char>, Seq<char>)> {
    seq![
        (
            "dev-artifacts"@,
            "Dev Artifacts"@,
            "node_modules, build caches, virtual environments"@,
        ),
        (
            "system-caches"@,
            "System Caches"@,
            "Browser caches, system logs, dev tool caches"@,
        ),
        (
            "app-leftovers"@,
            "App Leftovers"@,
            "Orphaned data from uninstalled applications"@,
        ),
        ("large-old-files"@, "Large & Old Files"@, "Files >100MB or untouched for >1 year"@),
        ("unused-apps"@, "Unused Apps"@, "Applications not opened in 6+ months"@),
        (
            "homebrew-cleanup"@,
            "Homebrew Cleanup"@,
            "Old formula versions and stale Homebrew cache"@,
        ),
    ]
}

/// The metadata of a scanner as the frontend receives it.
pub open spec fn info_view(i: ScannerInfo) -> (Seq<char>, Seq<char>, Seq<char>) {
    (i.id@, i.name@, i.description@)
}

fn scanner_info(id: &str, name: &str, description: &str) -> (r: ScannerInfo)
    ensures
        info_view(r) == (id@, name@, description@),
{
    ScannerInfo { id: id.to_string(), name: name.to_string(), description: description.to_string() }
}

/// Get metadata for all available scanners.
pub fn all_scanner_info() -> (r: Vec<ScannerInfo>)
    ensures
        r@.map_values(|i: ScannerInfo| info_view(i)) == scanner_defs(),
{
    let r = vec![
        scanner_info(
            "dev-artifacts",
            "Dev Artifacts",
            "node_modules, build caches, virtual environments",
        ),
        scanner_info(
            "system-caches",
            "System Caches",
            "Browser caches, system logs, dev tool caches",
        ),
        scanner_info(
            "app-leftovers",
            "App Leftovers",
            "Orphaned data from uninstalled applications",
        ),
        scanner_info("large-old-files", "Large & Old Files", "Files >100MB or untouched for >1 year"),
        scanner_info("unused-apps", "Unused Apps", "Applications not opened in 6+ months"),
        scanner_info(
            "homebrew-cleanup",
            "Homebrew Cleanup",
            "Old formula versions and stale Homebrew cache",
        ),
    ];
    assert(r@.map_values(|i: ScannerInfo| info_view(i)) =~= scanner_defs());
    r
}

/// List all available scanners with their metadata.
pub fn list_scanners() -> (r: Vec<ScannerInfo>)
    ensures
        r@.map_values(|i: ScannerInfo| info_view(i)) == scanner_defs(),
{
    all_scanner_info()
}

/// The ids of all scanners, in display order.
pub open spec fn scanner_ids() -> Seq<Seq<char>> {
    scanner_defs().map_values(|d: (Seq<char>, Seq<char>, Seq<char>)| d.0)
}

/// The scanners to run for a request: the given ids in order, or every scanner
/// when none is given.
pub fn scanners_to_run(scanner_ids: &Vec<String>) -> (r: Vec<String>)
    ensures
        scanner_ids@.len() == 0 ==> views(r@) == crate::scanners::scanner_ids(),
        scanner_ids@.len() > 0 ==> r@ == scanner_ids@,
{
    if scanner_ids.len() == 0 {
        let r = vec![
            "dev-artifacts".to_string(),
            "system-caches".to_string(),
            "app-leftovers".to_string(),
            "large-old-files".to_string(),
            "unused-apps".to_string(),
            "homebrew-cleanup".to_string(),
        ];
        assert(views(r@) =~= crate::scanners::scanner_ids());
        r
    } else {
        scanner_ids.clone()
    }
}

/// A scanner that a request names.
#[derive(Debug, Clone, Copy, PartialEq, Eq, Structural)]
pub enum ScannerKind {
    DevArtifacts,
    SystemCaches,
    AppLeftovers,
    LargeOldFiles,
    UnusedApps,
    HomebrewCleanup,
    /// An id that names no scanner.
    Unknown,
}

/// The scanner that `id` names.
pub open spec fn scanner_kind_spec(id: Seq<char>) -> ScannerKind {
    if id == "dev-artifacts"@ {
        ScannerKind::DevArtifacts
    } else if id == "system-caches"@ {
        ScannerKind::SystemCaches
    } else if id == "app-leftovers"@ {
        ScannerKind::AppLeftovers
    } else if id == "large-old-files"@ {
        ScannerKind::LargeOldFiles
    } else if id == "unused-apps"@ {
        ScannerKind::UnusedApps
    } else if id == "homebrew-cleanup"@ {
        ScannerKind::HomebrewCleanup
    } else {
        ScannerKind::Unknown
    }
}

/// The scanner that `id` names.
pub fn scanner_kind(id: &str) -> (r: ScannerKind)
    ensures
        r == scanner_kind_spec(id@),
{
    if str_eq(id, "dev-artifacts") {
        ScannerKind::DevArtifacts
    } else if str_eq(id, "system-caches") {
        ScannerKind::SystemCaches
    } else if str_eq(id, "app-leftovers") {
        ScannerKind::AppLeftovers
    } else if str_eq(id, "large-old-files") {
        ScannerKind::LargeOldFiles
    } else if str_eq(id, "unused-apps") {
        ScannerKind::UnusedApps
    } else if str_eq(id, "homebrew-cleanup") {
        ScannerKind::HomebrewCleanup
    } else {
        ScannerKind::Unknown
    }
}

/// What a request for an unknown scanner id reports: an empty result named
/// `Unknown (<id>)`.
pub fn unknown_scan_result(id: &str) -> (r: ScanResult)
    ensures
        r.scanner_name@ == "Unknown ("@ + id@ + ")"@,
        r.findings@.len() == 0,
        r.total_size == 0,
        r.duration == 0,
{
    let mut name = "Unknown (".to_string();
    name.append(id);
    name.append(")");
    ScanResult { scanner_name: name, findings: Vec::new(), total_size: 0, duration: 0 }
}

/// There are six scanners, and no two share an id.
pub proof fn lemma_scanner_ids_unique()
    ensures
        scanner_ids().len() == 6,
        scanner_ids().no_duplicates(),
{
    reveal_strlit("dev-artifacts");
    reveal_strlit("system-caches");
    reveal_strlit("app-leftovers");
    reveal_strlit("large-old-files");
    reveal_strlit("unused-apps");
    reveal_strlit("homebrew-cleanup");
    let ids = scanner_ids();
    assert(ids[0][0] == 'd' && ids[1][0] == 's' && ids[2][0] == 'a' && ids[3][0] == 'l'
        && ids[4][0] == 'u' && ids[5][0] == 'h');
}

/// Every listed scanner id names a scanner that a request can run.
pub proof fn lemma_listed_scanners_run(i: int)
    requires
        0 <= i < scanner_ids().len(),
    ensures
        scanner_kind_spec(scanner_ids()[i]) != ScannerKind::Unknown,
{
}

/// The scanner name of the result that a run reports for a requested `id`: the fixed
/// name of the scanner that `id` names (each scanner's result function gives it), or
/// `Unknown (<id>)` (`unknown_scan_result`).
pub open spec fn run_result_name(id: Seq<char>) -> Seq<char> {
    match scanner_kind_spec(id) {
        ScannerKind::DevArtifacts => dev_artifacts::scanner_name(),
        ScannerKind::SystemCaches => system_caches::scanner_name(),
        ScannerKind::AppLeftovers => app_leftovers::scanner_name(),
        ScannerKind::LargeOldFiles => large_old_files::scanner_name(),
        ScannerKind::UnusedApps => unused_apps::scanner_name(),
        ScannerKind::HomebrewCleanup => homebrew_cleanup::scanner_name(),
        ScannerKind::Unknown => "Unknown ("@ + id + ")"@,
    }
}

/// A run with no scanner named runs every scanner (`scanners_to_run`), and its results
/// carry the six scanner names in display order: those `all_scanner_info` lists.
pub proof fn lemma_full_run_names()
    ensures
        scanner_ids().len() == 6,
        scanner_ids().map_values(|id: Seq<char>| run_result_name(id)) == scanner_defs().map_values(
            |d: (Seq<char>, Seq<char>, Seq<char>)| d.1,
        ),
{
    lemma_scanner_ids_unique();
    let ids = scanner_ids();
    assert(ids[0] == "dev-artifacts"@ && ids[1] == "system-caches"@ && ids[2] == "app-leftovers"@
        && ids[3] == "large-old-files"@ && ids[4] == "unused-apps"@ && ids[5] == "homebrew-cleanup"@);
    assert(ids[0] != ids[1] && ids[0] != ids[2] && ids[0] != ids[3] && ids[0] != ids[4] && ids[0] != ids[5]);
    assert(ids[1] != ids[2] && ids[1] != ids[3] && ids[1] != ids[4] && ids[1] != ids[5]);
    assert(ids[2] != ids[3] && ids[2] != ids[4] && ids[2] != ids[5]);
    assert(ids[3] != ids[4] && ids[3] != ids[5] && ids[4] != ids[5]);
    assert(run_result_name(ids[0]) == scanner_defs()[0].1);
    assert(run_result_name(ids[1]) == scanner_defs()[1].1);
    assert(run_result_name(ids[2]) == scanner_defs()[2].1);
    assert(run_result_name(ids[3]) == scanner_defs()[3].1);
    assert(run_result_name(ids[4]) == scanner_defs()[4].1);
    assert(run_result_name(ids[5]) == scanner_defs()[5].1);
    assert(scanner_ids().map_values(|id: Seq<char>| run_result_name(id)) =~= scanner_defs().map_values(
        |d: (Seq<char>, Seq<char>, Seq<char>)| d.1,
    ));
}

} // verus!
