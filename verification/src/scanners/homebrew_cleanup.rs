use vstd::prelude::*;
use crate::findings::{build_scan_result, lemma_scan_total_fits, sum_keys};
use crate::pattern::{capture_group, capture_group_exec, regex_captures, regex_captures_exec};
use crate::text::{
    after_last, after_last_str, contains, contains_str, nonempty_pieces, nonempty_pieces_str,
    trim, trim_str, views,
};
use crate::types::{Finding, ScanResult};

verus! {

/// Pattern for a Cellar path: `/Cellar/<name>/<version>`.
pub open spec fn cellar_pattern() -> Seq<char> {
    "/Cellar/([^/]+)/([^/]+)"@
}

/// Pattern for a Caskroom path: `/Caskroom/<name>/<version>`.
pub open spec fn caskroom_pattern() -> Seq<char> {
    "/Caskroom/([^/]+)/([^/]+)"@
}

/// Pattern for the path on a line of `brew cleanup --dry-run` output.
pub open spec fn output_path_pattern() -> Seq<char> {
    "(/\\S+)"@
}

pub open spec fn old_formula_reason() -> Seq<char> {
    "Old formula version \u{2014} newer version installed"@
}

pub open spec fn old_cask_reason() -> Seq<char> {
    "Old cask version \u{2014} newer version installed"@
}

pub open spec fn stale_cache_reason() -> Seq<char> {
    "Stale Homebrew cache file \u{2014} safe to remove"@
}

pub open spec fn old_artifact_reason() -> Seq<char> {
    "Old Homebrew artifact \u{2014} safe to remove"@
}

/// Label and reason for a path from `brew cleanup` output, given what the Cellar and
/// Caskroom patterns captured on it: `name@version` for a Cellar or Caskroom match,
/// a cached download for a path under `Caches/Homebrew` or containing `cache`, else
/// the last path component. A match missing either group counts as no match.
pub open spec fn classify_spec(
    file_path: Seq<char>,
    cellar: Option<Seq<Option<Seq<char>>>>,
    cask: Option<Seq<Option<Seq<char>>>>,
) -> (Seq<char>, Seq<char>) {
    match (capture_group(cellar, 1), capture_group(cellar, 2)) {
        (Some(name), Some(version)) => (name + "@"@ + version, old_formula_reason()),
        _ => match (capture_group(cask, 1), capture_group(cask, 2)) {
            (Some(name), Some(version)) => (name + "@"@ + version, old_cask_reason()),
            _ => if contains(file_path, "Caches/Homebrew"@) || contains(file_path, "cache"@) {
                ("Cached download: "@ + after_last(file_path, '/'), stale_cache_reason())
            } else {
                (after_last(file_path, '/'), old_artifact_reason())
            },
        },
    }
}

/// Label and reason for `file_path`, given the captures of the Cellar and Caskroom patterns.
pub fn classify_with_captures(
    file_path: &str,
    cellar: &Option<Vec<Option<String>>>,
    cask: &Option<Vec<Option<String>>>,
) -> (r: (String, String))
    ensures
        (r.0@, r.1@) == classify_spec(file_path@, cellar.deep_view(), cask.deep_view()),
{
    match (capture_group_exec(cellar, 1), capture_group_exec(cellar, 2)) {
        (Some(name), Some(version)) => {
            let mut label = name;
            label.append("@");
            label.append(version.as_str());
            return (label, "Old formula version \u{2014} newer version installed".to_string());
        },
        _ => {},
    }
    match (capture_group_exec(cask, 1), capture_group_exec(cask, 2)) {
        (Some(name), Some(version)) => {
            let mut label = name;
            label.append("@");
            label.append(version.as_str());
            return (label, "Old cask version \u{2014} newer version installed".to_string());
        },
        _ => {},
    }
    if contains_str(file_path, "Caches/Homebrew") || contains_str(file_path, "cache") {
        let mut label = "Cached download: ".to_string();
        let name = after_last_str(file_path, '/');
        label.append(name.as_str());
        (label, "Stale Homebrew cache file \u{2014} safe to remove".to_string())
    } else {
        (after_last_str(file_path, '/'), "Old Homebrew artifact \u{2014} safe to remove".to_string())
    }
}

/// Classify a path from `brew cleanup` output into a human-readable label and a reason.
pub fn classify_path(file_path: &str) -> (r: (String, String))
    ensures
        (r.0@, r.1@) == classify_spec(
            file_path@,
            regex_captures(cellar_pattern(), file_path@),
            regex_captures(caskroom_pattern(), file_path@),
        ),
{
    let cellar = regex_captures_exec("/Cellar/([^/]+)/([^/]+)", file_path);
    let cask = regex_captures_exec("/Caskroom/([^/]+)/([^/]+)", file_path);
    classify_with_captures(file_path, &cellar, &cask)
}

/// The brew binary named by the output of `which brew`: the trimmed output, when
/// the command succeeded and printed something.
pub fn brew_path_from_which(success: bool, stdout: &str) -> (r: Option<String>)
    ensures
        r matches Some(p) ==> success && p@ == trim(stdout@) && p@.len() > 0,
        r is None ==> !success || trim(stdout@).len() == 0,
{
    if !success {
        return None;
    }
    let p = trim_str(stdout);
    if p.as_str().is_empty() {
        None
    } else {
        Some(p)
    }
}

/// The paths that per-line matches of the output-path pattern found: group 1 of each
/// match, in line order, lines without a match left out.
pub open spec fn captured_paths(caps: Seq<Option<Seq<Option<Seq<char>>>>>) -> Seq<Seq<char>>
    decreases caps.len(),
{
    if caps.len() == 0 {
        Seq::empty()
    } else {
        let rest = captured_paths(caps.drop_last());
        match capture_group(caps.last(), 1) {
            Some(p) => rest.push(p),
            None => rest,
        }
    }
}

/// What the output-path pattern captures on each of `lines`.
pub open spec fn line_captures(lines: Seq<Seq<char>>) -> Seq<Option<Seq<Option<Seq<char>>>>> {
    lines.map_values(|l: Seq<char>| regex_captures(output_path_pattern(), l))
}

/// The paths that `brew cleanup --dry-run` lists: the trimmed output is split into
/// non-empty lines and the first path-like token (`/` then non-space characters)
/// is taken from each line that has one.
pub open spec fn cleanup_paths_spec(stdout: Seq<char>) -> Seq<Seq<char>> {
    captured_paths(line_captures(nonempty_pieces(trim(stdout), '\n')))
}

/// The paths that per-line matches of the output-path pattern found.
pub fn paths_from_captures(caps: &Vec<Option<Vec<Option<String>>>>) -> (r: Vec<String>)
    ensures
        views(r@) == captured_paths(caps.deep_view()),
{
    let ghost cs = caps.deep_view();
    let mut out: Vec<String> = Vec::new();
    let mut i: usize = 0;
    assert(cs.take(0) =~= Seq::<Option<Seq<Option<Seq<char>>>>>::empty());
    assert(views(out@) =~= Seq::<Seq<char>>::empty());
    while i < caps.len()
        invariant
            i <= caps@.len(),
            cs == caps.deep_view(),
            views(out@) == captured_paths(cs.take(i as int)),
        decreases caps@.len() - i,
    {
        assert(cs.take(i + 1).drop_last() =~= cs.take(i as int));
        assert(cs.take(i + 1).last() == caps@[i as int].deep_view());
        match capture_group_exec(&caps[i], 1) {
            Some(p) => {
                let ghost before = out@;
                out.push(p);
                assert(views(out@) =~= views(before).push(p@));
            },
            None => {},
        }
        i = i + 1;
    }
    assert(cs.take(caps@.len() as int) =~= cs);
    out
}

/// The paths listed in the output of `brew cleanup --dry-run`.
pub fn cleanup_paths(stdout: &str) -> (r: Vec<String>)
    ensures
        views(r@) == cleanup_paths_spec(stdout@),
{
    let text = trim_str(stdout);
    let lines = nonempty_pieces_str(text.as_str(), '\n');
    let ghost ls = views(lines@);
    let mut caps: Vec<Option<Vec<Option<String>>>> = Vec::new();
    let mut i: usize = 0;
    assert(caps.deep_view() =~= line_captures(ls.take(0)));
    while i < lines.len()
        invariant
            i <= lines@.len(),
            ls == views(lines@),
            caps.deep_view() == line_captures(ls.take(i as int)),
        decreases lines@.len() - i,
    {
        let c = regex_captures_exec("(/\\S+)", lines[i].as_str());
        let ghost before = caps.deep_view();
        caps.push(c);
        assert(caps.deep_view() =~= line_captures(ls.take(i + 1))) by {
            assert(caps.deep_view() =~= before.push(c.deep_view()));
            assert(ls.take(i + 1) =~= ls.take(i as int).push(lines@[i as int]@));
        }
        i = i + 1;
    }
    assert(ls.take(lines@.len() as int) =~= ls);
    paths_from_captures(&caps)
}

/// The finding for a path listed by `brew cleanup` that exists, of the given size.
pub fn cleanup_finding(path: String, size: u64) -> (r: Finding)
    ensures
        r.path@ == path@,
        (r.label@, r.reason@) == classify_spec(
            path@,
            regex_captures(cellar_pattern(), path@),
            regex_captures(caskroom_pattern(), path@),
        ),
        r.size == size,
        r.age == 0,
        r.effort is None,
{
    let (label, reason) = classify_path(path.as_str());
    Finding { path, label, size, age: 0, reason, effort: None }
}

/// Name of this scanner.
pub open spec fn scanner_name() -> Seq<char> {
    "Homebrew Cleanup"@
}

/// The scan result of the Homebrew scanner for its findings.
pub fn homebrew_scan_result(findings: Vec<Finding>, duration: u64) -> (r: ScanResult)
    requires
        sum_keys(findings@) <= u64::MAX,
    ensures
        r.scanner_name@ == scanner_name(),
        r.duration == duration,
        crate::findings::is_scan_of(findings@, None, r),
{
    proof {
        lemma_scan_total_fits(findings@, None);
    }
    build_scan_result("Homebrew Cleanup".to_string(), findings, None, duration)
}

} // verus!
