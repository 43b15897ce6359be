use vstd::prelude::*;
use crate::findings::{build_scan_result, lemma_scan_total_fits, is_scan_of, sum_keys};
use crate::text::{lowercase, starts_with, starts_with_str, str_eq, to_lowercase};
use crate::types::{Effort, Finding, ScanResult};
use crate::utils::apps::{
    bundle_id_shape, extract_bundle_id, is_system_bundle_id, is_system_bundle_id_spec,
    InstalledApps,
};

verus! {

/// Minimum size to report (512 KB): smaller preference files are skipped.
pub open spec fn min_size() -> u64 {
    0x8_0000
}

/// Names (in lowercase) that are always skipped.
pub open spec fn always_skip(lower: Seq<char>) -> bool {
    ||| lower == ".ds_store"@
    ||| lower == ".localized"@
    ||| lower == "apple"@
    ||| lower == "com.apple.appstore"@
}

/// The bundle ID that the `~/Library` entry `name` stands for, given its lowercase
/// form `lower`, whether `name` has the shape of a bundle ID (`matches`) and whether
/// `lower` is a system ID: when it is data left by an uninstalled app (not hidden, not
/// always skipped, shaped as a bundle ID, not a system service, not among the
/// installed apps), the lowercase form.
pub open spec fn leftover_from(
    name: Seq<char>,
    lower: Seq<char>,
    matches: bool,
    id_is_system: bool,
    installed: Set<Seq<char>>,
) -> Option<Seq<char>> {
    if starts_with(name, "."@) || always_skip(lower) || !matches {
        None
    } else if id_is_system || installed.contains(lower) {
        None
    } else {
        Some(lower)
    }
}

/// The bundle ID that the `~/Library` entry `name` stands for, when it is data left
/// by an uninstalled app.
pub open spec fn leftover_bundle_id_spec(name: Seq<char>, installed: Set<Seq<char>>) -> Option<
    Seq<char>,
> {
    leftover_from(
        name,
        lowercase(name),
        bundle_id_shape(name),
        is_system_bundle_id_spec(lowercase(name)),
        installed,
    )
}

/// The bundle ID of an orphaned `~/Library` entry from its name and the parts computed
/// from it (see `leftover_from`), or `None` when the entry is kept.
pub fn leftover_bundle_id_from(
    name: &str,
    lower: String,
    matches: bool,
    id_is_system: bool,
    installed: &InstalledApps,
) -> (r: Option<String>)
    ensures
        r.deep_view() == leftover_from(name@, lower@, matches, id_is_system, installed@),
{
    if starts_with_str(name, ".") {
        return None;
    }
    let l = lower.as_str();
    if str_eq(l, ".ds_store") || str_eq(l, ".localized") || str_eq(l, "apple") || str_eq(
        l,
        "com.apple.appstore",
    ) {
        return None;
    }
    if !matches || id_is_system || installed.contains(l) {
        return None;
    }
    Some(lower)
}

/// The bundle ID of an orphaned `~/Library` entry, or `None` when the entry is kept.
pub fn leftover_bundle_id(name: &str, installed: &InstalledApps) -> (r: Option<String>)
    ensures
        r.deep_view() == leftover_bundle_id_spec(name@, installed@),
{
    let lower = to_lowercase(name);
    let matches = extract_bundle_id(name).is_some();
    let id_is_system = is_system_bundle_id(lower.as_str());
    leftover_bundle_id_from(name, lower, matches, id_is_system, installed)
}

/// The finding for orphaned data `name` in `~/Library/<subdir>` at `path`, unless it
/// is smaller than 512 KB.
pub fn leftover_finding(
    path: String,
    name: &str,
    subdir: &str,
    bundle_id: &str,
    size: u64,
    age: u64,
) -> (r: Option<Finding>)
    ensures
        size < min_size() ==> r is None,
        size >= min_size() ==> (r matches Some(f) && f.path == path && f.label@ == name@
            + " in ~/Library/"@ + subdir@ && f.size == size && f.age == age && f.reason@
            == "Data from uninstalled app ("@ + bundle_id@ + ")"@ && f.effort == Some(
            Effort::NoEffort,
        )),
{
    if size < 0x8_0000 {
        return None;
    }
    let mut label = name.to_string();
    label.append(" in ~/Library/");
    label.append(subdir);
    let mut reason = "Data from uninstalled app (".to_string();
    reason.append(bundle_id);
    reason.append(")");
    Some(Finding { path, label, size, age, reason, effort: Some(Effort::NoEffort) })
}

/// Name of this scanner.
pub open spec fn scanner_name() -> Seq<char> {
    "App Leftovers"@
}

/// The scan result of the app leftovers scanner for its findings.
pub fn leftovers_scan_result(findings: Vec<Finding>, duration: u64) -> (r: ScanResult)
    requires
        sum_keys(findings@) <= u64::MAX,
    ensures
        r.scanner_name@ == scanner_name(),
        r.duration == duration,
        is_scan_of(findings@, None, r),
{
    proof {
        lemma_scan_total_fits(findings@, None);
    }
    build_scan_result("App Leftovers".to_string(), findings, None, duration)
}

/// Data is never reported as left over for a system service or for an installed app:
/// the ID reported is the entry name in lowercase, neither a system ID nor installed.
pub proof fn lemma_leftovers_spare_installed_and_system(name: Seq<char>, installed: Set<Seq<char>>)
    ensures
        leftover_bundle_id_spec(name, installed) matches Some(id) ==> {
            &&& id == lowercase(name)
            &&& !is_system_bundle_id_spec(id)
            &&& !installed.contains(id)
        },
{
}

} // verus!
