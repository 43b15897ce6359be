use vstd::prelude::*;
use crate::findings::{build_scan_result, is_scan_of, scan_total_fits};
use crate::text::{replace_all, replace_str, starts_with, starts_with_str, str_eq};
use crate::types::{Effort, Finding, ScanResult};
use crate::keyed::KeyedVec;
use crate::scanners::dev_artifacts::first_shallow;
use crate::utils::fs::{is_root, parent_of, is_root_path, path_parent};

verus! {

/// Names skipped while walking for large and old files.
pub open spec fn skip_names() -> Seq<Seq<char>> {
    seq![
        "Library"@,
        ".Trash"@,
        ".git"@,
        "node_modules"@,
        ".next"@,
        ".venv"@,
        "venv"@,
        "__pycache__"@,
        ".cache"@,
        ".local"@,
        ".config"@,
        ".npm"@,
        ".bun"@,
        ".nvm"@,
        ".volta"@,
        ".rustup"@,
        ".cargo"@,
        ".docker"@,
        ".orbstack"@,
        "target"@,
        "dist"@,
        "build"@,
        ".gradle"@,
        "Applications"@,
        "Photos Library.photoslibrary"@,
        "Music"@,
        "Movies"@,
        ".Spotlight-V100"@,
        ".fseventsd"@,
    ]
}

/// Directories (and files) skipped while walking for large and old files.
pub open spec fn is_skip_name(name: Seq<char>) -> bool {
    skip_names().contains(name)
}

/// The names the walk for large and old files never looks into or at: `Library`, the
/// Trash, version control and tool caches, dependency and build folders,
/// `Applications`, the photo, music and movie libraries, and Spotlight's own data.
/// Such a directory at the top of the home directory is not walked, and below it is
/// neither walked nor inspected as a file.
pub proof fn lemma_skipped_names(name: Seq<char>, is_dir: bool)
    ensures
        is_skip_name(name) == {
        ||| name == "Library"@
        ||| name == ".Trash"@
        ||| name == ".git"@
        ||| name == "node_modules"@
        ||| name == ".next"@
        ||| name == ".venv"@
        ||| name == "venv"@
        ||| name == "__pycache__"@
        ||| name == ".cache"@
        ||| name == ".local"@
        ||| name == ".config"@
        ||| name == ".npm"@
        ||| name == ".bun"@
        ||| name == ".nvm"@
        ||| name == ".volta"@
        ||| name == ".rustup"@
        ||| name == ".cargo"@
        ||| name == ".docker"@
        ||| name == ".orbstack"@
        ||| name == "target"@
        ||| name == "dist"@
        ||| name == "build"@
        ||| name == ".gradle"@
        ||| name == "Applications"@
        ||| name == "Photos Library.photoslibrary"@
        ||| name == "Music"@
        ||| name == "Movies"@
        ||| name == ".Spotlight-V100"@
        ||| name == ".fseventsd"@
        },
        is_skip_name(name) ==> !is_walked_top_dir(name, is_dir) && !is_walked_dir(name, is_dir)
            && !is_inspected_file(name, is_dir),
{
    if is_skip_name(name) {
        let i = choose|i: int| 0 <= i < skip_names().len() && skip_names()[i] == name;
        assert(0 <= i < 29);
    }
    assert(skip_names()[0] == "Library"@);
    assert(skip_names()[1] == ".Trash"@);
    assert(skip_names()[2] == ".git"@);
    assert(skip_names()[3] == "node_modules"@);
    assert(skip_names()[4] == ".next"@);
    assert(skip_names()[5] == ".venv"@);
    assert(skip_names()[6] == "venv"@);
    assert(skip_names()[7] == "__pycache__"@);
    assert(skip_names()[8] == ".cache"@);
    assert(skip_names()[9] == ".local"@);
    assert(skip_names()[10] == ".config"@);
    assert(skip_names()[11] == ".npm"@);
    assert(skip_names()[12] == ".bun"@);
    assert(skip_names()[13] == ".nvm"@);
    assert(skip_names()[14] == ".volta"@);
    assert(skip_names()[15] == ".rustup"@);
    assert(skip_names()[16] == ".cargo"@);
    assert(skip_names()[17] == ".docker"@);
    assert(skip_names()[18] == ".orbstack"@);
    assert(skip_names()[19] == "target"@);
    assert(skip_names()[20] == "dist"@);
    assert(skip_names()[21] == "build"@);
    assert(skip_names()[22] == ".gradle"@);
    assert(skip_names()[23] == "Applications"@);
    assert(skip_names()[24] == "Photos Library.photoslibrary"@);
    assert(skip_names()[25] == "Music"@);
    assert(skip_names()[26] == "Movies"@);
    assert(skip_names()[27] == ".Spotlight-V100"@);
    assert(skip_names()[28] == ".fseventsd"@);
}

/// Whether the walk skips entries named `name`.
pub fn skip_name(name: &str) -> (r: bool)
    ensures
        r == is_skip_name(name@),
{
    let names: Vec<&'static str> = vec![
        "Library",
        ".Trash",
        ".git",
        "node_modules",
        ".next",
        ".venv",
        "venv",
        "__pycache__",
        ".cache",
        ".local",
        ".config",
        ".npm",
        ".bun",
        ".nvm",
        ".volta",
        ".rustup",
        ".cargo",
        ".docker",
        ".orbstack",
        "target",
        "dist",
        "build",
        ".gradle",
        "Applications",
        "Photos Library.photoslibrary",
        "Music",
        "Movies",
        ".Spotlight-V100",
        ".fseventsd",
    ];
    assert(names@.map_values(|x: &str| x@) =~= skip_names());
    let mut i: usize = 0;
    while i < names.len()
        invariant
            i <= names@.len(),
            names@.map_values(|x: &str| x@) == skip_names(),
            forall|j: int| 0 <= j < i ==> skip_names()[j] != name@,
        decreases names@.len() - i,
    {
        assert(skip_names()[i as int] == names@[i as int]@);
        if str_eq(names[i], name) {
            return true;
        }
        i = i + 1;
    }
    false
}

/// Size threshold: a file of more than 100 MB is large.
pub open spec fn size_threshold() -> u64 {
    104_857_600
}

/// Age threshold: a file untouched for more than 365 days (in milliseconds) is old.
pub open spec fn age_threshold() -> u64 {
    31_536_000_000
}

/// Maximum number of findings reported.
pub open spec fn max_findings() -> usize {
    50
}

/// Maximum depth walked from the home directory.
pub open spec fn max_depth() -> int {
    5
}

/// Whether a top-level entry of the home directory is walked: a directory that is
/// neither skipped nor hidden.
pub open spec fn is_walked_top_dir(name: Seq<char>, is_dir: bool) -> bool {
    is_dir && !is_skip_name(name) && !starts_with(name, "."@)
}

/// Whether a top-level entry of the home directory is walked.
pub fn walk_top_dir(name: &str, is_dir: bool) -> (r: bool)
    ensures
        r == is_walked_top_dir(name@, is_dir),
{
    is_dir && !skip_name(name) && !starts_with_str(name, ".")
}

/// An entry met by the walk whose metadata could be read.
#[derive(Debug, Clone)]
pub struct FileEntry {
    pub path: String,
    pub name: String,
    pub is_dir: bool,
    /// Size in bytes (files).
    pub size: u64,
    /// Milliseconds since the last modification (0 when unknown).
    pub age: u64,
}

/// What comes of an entry once looked at.
pub enum EntryOutcome {
    /// Nothing more to do for it.
    Done,
    /// A large or old file: whether the directory `parent` lies inside a git
    /// repository decides, see `record_file`.
    CheckRepo(String),
}

/// The reason text of a flagged file.
pub open spec fn file_reason(is_large: bool, is_old: bool) -> Seq<char> {
    if is_large && is_old {
        "Large file (>100MB) + Not modified in over a year"@
    } else if is_large {
        "Large file (>100MB)"@
    } else {
        "Not modified in over a year"@
    }
}

/// Whether an entry is looked at as a file: not a hidden directory, not a skipped
/// name, not a directory.
pub open spec fn is_inspected_file(name: Seq<char>, is_dir: bool) -> bool {
    !(starts_with(name, "."@) && is_dir) && !is_skip_name(name) && !is_dir
}

/// Whether an entry is a directory to walk below.
pub open spec fn is_walked_dir(name: Seq<char>, is_dir: bool) -> bool {
    !(starts_with(name, "."@) && is_dir) && !is_skip_name(name) && is_dir
}

/// The finding for a flagged file, given whether it lies in a git repository: files in
/// a repository are reported only when both large and old.
pub open spec fn file_finding_spec(e: FileEntry, home: Seq<char>, in_repo: bool) -> Option<
    (Seq<char>, Seq<char>, u64, u64, Seq<char>, Option<Effort>),
> {
    let is_large = e.size > size_threshold();
    let is_old = e.age > age_threshold();
    if !is_large && !is_old {
        None
    } else if in_repo && !(is_large && is_old) {
        None
    } else {
        Some(
            (
                e.path@,
                replace_all(e.path@, home, "~"@),
                e.size,
                e.age,
                file_reason(is_large, is_old),
                None,
            ),
        )
    }
}

pub open spec fn finding_view(f: Finding) -> (Seq<char>, Seq<char>, u64, u64, Seq<char>, Option<Effort>) {
    (f.path@, f.label@, f.size, f.age, f.reason@, f.effort)
}

/// Walk of one subtree of the home directory for large and old files. The caller
/// takes directories from `next_dir`, lists them, and hands each readable entry to
/// `visit_entry` (and, when asked, the repository check to `record_file`).
pub struct LargeFileWalk {
    home: String,
    queue: std::collections::VecDeque<(String, usize)>,
    findings: Vec<Finding>,
}

impl LargeFileWalk {
    pub closed spec fn home(&self) -> Seq<char> {
        self.home@
    }

    /// Directories waiting to be listed, first to be taken first, with their depth.
    pub closed spec fn waiting(&self) -> Seq<(Seq<char>, int)> {
        self.queue@.map_values(|q: (String, usize)| (q.0@, q.1 as int))
    }

    /// The findings so far.
    pub closed spec fn found(&self) -> Seq<(Seq<char>, Seq<char>, u64, u64, Seq<char>, Option<Effort>)> {
        self.findings@.map_values(|f: Finding| finding_view(f))
    }

    /// A walk of the subtree `start_dir` at `start_depth`.
    pub fn new(start_dir: String, start_depth: usize, home: String) -> (r: Self)
        ensures
            r.home() == home@,
            r.waiting() == seq![(start_dir@, start_depth as int)],
            r.found().len() == 0,
    {
        let mut queue = std::collections::VecDeque::new();
        queue.push_back((start_dir, start_depth));
        let r = LargeFileWalk { home, queue, findings: Vec::new() };
        assert(r.waiting() =~= seq![(r.queue@[0].0@, start_depth as int)]);
        assert(r.found() =~= Seq::<(Seq<char>, Seq<char>, u64, u64, Seq<char>, Option<Effort>)>::empty());
        r
    }

    /// The next directory to list and its depth: the first waiting one not deeper
    /// than the maximum depth (deeper ones are dropped on the way).
    pub fn next_dir(&mut self) -> (r: Option<(String, usize)>)
        ensures
            final(self).home() == old(self).home(),
            final(self).found() == old(self).found(),
            r is None ==> final(self).waiting().len() == 0 && forall|i: int| 0 <= i < old(self).waiting().len()
                ==> (#[trigger] old(self).waiting()[i]).1 > max_depth(),
            r matches Some(d) ==> exists|k: int| 0 <= k < old(self).waiting().len() && (forall|i: int| 0 <= i < k
                ==> (#[trigger] old(self).waiting()[i]).1 > max_depth()) && old(self).waiting()[k] == (d.0@, d.1 as int)
                && d.1 <= max_depth() && final(self).waiting() == old(self).waiting().skip(k + 1),
    {
        let ghost w0 = self.waiting();
        let ghost mut k: int = 0;
        loop
            invariant
                self.home() == old(self).home(),
                self.found() == old(self).found(),
                w0 == old(self).waiting(),
                0 <= k <= w0.len(),
                self.waiting() == w0.skip(k),
                forall|i: int| 0 <= i < k ==> (#[trigger] w0[i]).1 > max_depth(),
            decreases w0.len() - k,
        {
            let ghost before = self.queue@;
            match self.queue.pop_front() {
                Some((dir, depth)) => {
                    proof {
                        assert(before.len() > 0);
                        assert(before[0] == (dir, depth));
                        assert(before.map_values(|q: (String, usize)| (q.0@, q.1 as int)) == w0.skip(k));
                        assert(w0.skip(k).len() == before.len());
                        assert(w0.skip(k)[0] == (before[0].0@, before[0].1 as int));
                        assert(k < w0.len());
                        assert(w0[k] == w0.skip(k)[0]);
                        assert(self.queue@ == before.drop_first());
                        assert forall|i: int| 0 <= i < self.waiting().len() implies self.waiting()[i] == w0.skip(k + 1)[i] by {
                            assert(self.queue@[i] == before[i + 1]);
                            assert(w0.skip(k)[i + 1] == w0[k + 1 + i]);
                        }
                        assert(self.waiting() =~= w0.skip(k + 1));
                    }
                    if depth <= 5 {
                        return Some((dir, depth));
                    }
                    proof {
                        k = k + 1;
                    }
                },
                None => {
                    assert(w0.skip(k).len() == 0);
                    return None;
                },
            }
        }
    }

    /// Looks at an entry of a directory listed at `depth`: hidden directories and
    /// skipped names are ignored, directories are queued one level deeper, and a file
    /// that is large or old needs the repository check of its parent directory (`/`
    /// when the path has no parent).
    pub fn visit_entry(&mut self, depth: usize, e: &FileEntry) -> (r: EntryOutcome)
        requires
            depth <= max_depth(),
        ensures
            final(self).home() == old(self).home(),
            final(self).found() == old(self).found(),
            is_walked_dir(e.name@, e.is_dir) ==> final(self).waiting() == old(self).waiting().push(
                (e.path@, depth + 1),
            ),
            !is_walked_dir(e.name@, e.is_dir) ==> final(self).waiting() == old(self).waiting(),
            is_inspected_file(e.name@, e.is_dir) && (e.size > size_threshold() || e.age
                > age_threshold()) ==> (r matches EntryOutcome::CheckRepo(p) && p@ == match path_parent(
                e.path@,
            ) {
                Some(q) => q,
                None => "/"@,
            }),
            !(is_inspected_file(e.name@, e.is_dir) && (e.size > size_threshold() || e.age
                > age_threshold())) ==> r is Done,
    {
        let hidden_dir = starts_with_str(e.name.as_str(), ".") && e.is_dir;
        if hidden_dir || skip_name(e.name.as_str()) {
            return EntryOutcome::Done;
        }
        if e.is_dir {
            let ghost before = self.queue@;
            self.queue.push_back((e.path.clone(), depth + 1));
            assert(self.queue@.map_values(|q: (String, usize)| (q.0@, q.1 as int)) =~= before.map_values(
                |q: (String, usize)| (q.0@, q.1 as int),
            ).push((e.path@, depth + 1)));
            return EntryOutcome::Done;
        }
        if e.size <= 104_857_600 && e.age <= 31_536_000_000 {
            return EntryOutcome::Done;
        }
        let parent = match parent_of(e.path.as_str()) {
            Some(p) => p,
            None => "/".to_string(),
        };
        EntryOutcome::CheckRepo(parent)
    }

    /// Records a large or old file once it is known whether it lies in a git
    /// repository: a file in a repository is kept only when both large and old.
    pub fn record_file(&mut self, e: FileEntry, in_repo: bool)
        ensures
            final(self).home() == old(self).home(),
            final(self).waiting() == old(self).waiting(),
            final(self).found() == match file_finding_spec(e, old(self).home(), in_repo) {
                Some(f) => old(self).found().push(f),
                None => old(self).found(),
            },
    {
        let is_large = e.size > 104_857_600;
        let is_old = e.age > 31_536_000_000;
        if !is_large && !is_old {
            return;
        }
        if in_repo && !(is_large && is_old) {
            return;
        }
        let reason = if is_large && is_old {
            "Large file (>100MB) + Not modified in over a year".to_string()
        } else if is_large {
            "Large file (>100MB)".to_string()
        } else {
            "Not modified in over a year".to_string()
        };
        let label = replace_str(e.path.as_str(), self.home.as_str(), "~");
        let f = Finding { path: e.path, label, size: e.size, age: e.age, reason, effort: None };
        let ghost before = self.findings@;
        self.findings.push(f);
        assert(self.findings@.map_values(|f: Finding| finding_view(f)) =~= before.map_values(
            |f: Finding| finding_view(f),
        ).push(finding_view(self.findings@.last())));
    }

    /// The findings of the walk.
    pub fn into_findings(self) -> (r: Vec<Finding>)
        ensures
            r@.map_values(|f: Finding| finding_view(f)) == self.found(),
    {
        self.findings
    }
}

/// The directory whose repository check decides for a file at `path`: its parent, or
/// `/` when the path has none.
pub open spec fn parent_dir(path: Seq<char>) -> Seq<char> {
    match path_parent(path) {
        Some(q) => q,
        None => "/"@,
    }
}

/// The directories among `entries` that the walk goes down into, each at `depth`.
pub open spec fn dir_queued(entries: Seq<FileEntry>, depth: int) -> Seq<(Seq<char>, int)>
    decreases entries.len(),
{
    if entries.len() == 0 {
        Seq::empty()
    } else {
        let rest = dir_queued(entries.drop_last(), depth);
        let e = entries.last();
        if is_walked_dir(e.name@, e.is_dir) {
            rest.push((e.path@, depth))
        } else {
            rest
        }
    }
}

/// The findings among `entries`, where `repo` answers the repository check of a
/// directory.
pub open spec fn dir_found(
    entries: Seq<FileEntry>,
    home: Seq<char>,
    repo: spec_fn(Seq<char>) -> bool,
) -> Seq<(Seq<char>, Seq<char>, u64, u64, Seq<char>, Option<Effort>)>
    decreases entries.len(),
{
    if entries.len() == 0 {
        Seq::empty()
    } else {
        let rest = dir_found(entries.drop_last(), home, repo);
        let e = entries.last();
        if is_inspected_file(e.name@, e.is_dir) {
            match file_finding_spec(e, home, repo(parent_dir(e.path@))) {
                Some(f) => rest.push(f),
                None => rest,
            }
        } else {
            rest
        }
    }
}

/// One entry of a directory listed at `depth` taken in: `visit_entry` on it, then, when
/// it asked for the repository check of its parent directory, `record_file` with the
/// answer that `repo` gives.
pub open spec fn entry_step(
    before: LargeFileWalk,
    after: LargeFileWalk,
    e: FileEntry,
    depth: int,
    repo: spec_fn(Seq<char>) -> bool,
) -> bool {
    &&& after.home() == before.home()
    &&& after.waiting() == if is_walked_dir(e.name@, e.is_dir) {
        before.waiting().push((e.path@, depth + 1))
    } else {
        before.waiting()
    }
    &&& after.found() == if is_inspected_file(e.name@, e.is_dir) {
        match file_finding_spec(e, before.home(), repo(parent_dir(e.path@))) {
            Some(f) => before.found().push(f),
            None => before.found(),
        }
    } else {
        before.found()
    }
}

/// Taking in the entries of a directory listed at `depth` one by one (`entry_step`)
/// adds exactly the directories `dir_queued` and the findings `dir_found` of the listing.
pub proof fn lemma_directory_entries(
    states: Seq<LargeFileWalk>,
    entries: Seq<FileEntry>,
    depth: int,
    repo: spec_fn(Seq<char>) -> bool,
)
    requires
        states.len() == entries.len() + 1,
        forall|j: int| 0 <= j < entries.len() ==> entry_step(#[trigger] states[j], states[j + 1], entries[j], depth, repo),
    ensures
        states.last().home() == states[0].home(),
        states.last().waiting() == states[0].waiting() + dir_queued(entries, depth + 1),
        states.last().found() == states[0].found() + dir_found(entries, states[0].home(), repo),
    decreases entries.len(),
{
    if entries.len() == 0 {
        assert(states[0].waiting() + Seq::<(Seq<char>, int)>::empty() == states[0].waiting());
        assert(states[0].found() + Seq::<(Seq<char>, Seq<char>, u64, u64, Seq<char>, Option<Effort>)>::empty()
            == states[0].found());
    } else {
        let n = entries.len() as int;
        lemma_directory_entries(states.drop_last(), entries.drop_last(), depth, repo);
        assert(states.drop_last().last() == states[n - 1]);
        assert(entry_step(states[n - 1], states[n], entries[n - 1], depth, repo));
        assert(entries.last() == entries[n - 1]);
        let q = dir_queued(entries.drop_last(), depth + 1);
        let f = dir_found(entries.drop_last(), states[0].home(), repo);
        assert((states[0].waiting() + q).push((entries[n - 1].path@, depth + 1)) == states[0].waiting() + q.push(
            (entries[n - 1].path@, depth + 1),
        ));
        match file_finding_spec(entries[n - 1], states[0].home(), repo(parent_dir(entries[n - 1].path@))) {
            Some(x) => {
                assert((states[0].found() + f).push(x) == states[0].found() + f.push(x));
            },
            None => {},
        }
    }
}

/// The entries that a model directory tree lists for `dir` (none when it cannot be read).
pub open spec fn listed_files(tree: Map<Seq<char>, Seq<FileEntry>>, dir: Seq<char>) -> Seq<FileEntry> {
    if tree.dom().contains(dir) {
        tree[dir]
    } else {
        Seq::empty()
    }
}

/// The breadth-first walk for large and old files over the model directory tree
/// `tree`, with `repo` answering the repository checks, from the directories `waiting`
/// and the findings `found` so far, within `fuel` listings: the first waiting directory
/// not deeper than the maximum depth is listed, its findings are added and its walked
/// subdirectories wait one level deeper; the walk ends when no such directory waits.
pub open spec fn large_walk_run(
    home: Seq<char>,
    tree: Map<Seq<char>, Seq<FileEntry>>,
    repo: spec_fn(Seq<char>) -> bool,
    waiting: Seq<(Seq<char>, int)>,
    found: Seq<(Seq<char>, Seq<char>, u64, u64, Seq<char>, Option<Effort>)>,
    fuel: nat,
) -> Option<Seq<(Seq<char>, Seq<char>, u64, u64, Seq<char>, Option<Effort>)>>
    decreases fuel,
{
    match first_shallow(waiting) {
        None => Some(found),
        Some(k) => if fuel == 0 {
            None
        } else {
            let d = waiting[k];
            let entries = listed_files(tree, d.0);
            large_walk_run(
                home,
                tree,
                repo,
                waiting.skip(k + 1) + dir_queued(entries, d.1 + 1),
                found + dir_found(entries, home, repo),
                (fuel - 1) as nat,
            )
        },
    }
}

/// One round of a walk driven over `tree`: `next_dir` handed out a directory, and its
/// listing in `tree` was taken in entry by entry (see `lemma_directory_entries`).
pub open spec fn large_walk_round(
    before: LargeFileWalk,
    after: LargeFileWalk,
    tree: Map<Seq<char>, Seq<FileEntry>>,
    repo: spec_fn(Seq<char>) -> bool,
) -> bool {
    exists|k: int|
        {
            &&& 0 <= k < before.waiting().len()
            &&& forall|i: int| 0 <= i < k ==> (#[trigger] before.waiting()[i]).1 > max_depth()
            &&& (#[trigger] before.waiting()[k]).1 <= max_depth()
            &&& after.home() == before.home()
            &&& after.waiting() == before.waiting().skip(k + 1) + dir_queued(
                listed_files(tree, before.waiting()[k].0),
                before.waiting()[k].1 + 1,
            )
            &&& after.found() == before.found() + dir_found(
                listed_files(tree, before.waiting()[k].0),
                before.home(),
                repo,
            )
        }
}

proof fn lemma_large_first_shallow_at(w: Seq<(Seq<char>, int)>, k: int)
    requires
        0 <= k < w.len(),
        forall|i: int| 0 <= i < k ==> (#[trigger] w[i]).1 > max_depth(),
        w[k].1 <= max_depth(),
    ensures
        first_shallow(w) == Some(k),
    decreases k,
{
    if k > 0 {
        assert forall|i: int| 0 <= i < k - 1 implies (#[trigger] w.drop_first()[i]).1 > max_depth() by {
            assert(w.drop_first()[i] == w[i + 1]);
        }
        lemma_large_first_shallow_at(w.drop_first(), k - 1);
    }
}

proof fn lemma_large_first_shallow_none(w: Seq<(Seq<char>, int)>)
    requires
        forall|i: int| 0 <= i < w.len() ==> (#[trigger] w[i]).1 > max_depth(),
    ensures
        first_shallow(w) is None,
    decreases w.len(),
{
    if w.len() > 0 {
        assert forall|i: int| 0 <= i < w.len() - 1 implies (#[trigger] w.drop_first()[i]).1
            > max_depth() by {
            assert(w.drop_first()[i] == w[i + 1]);
        }
        lemma_large_first_shallow_none(w.drop_first());
    }
}

proof fn lemma_large_walk_homes(
    tree: Map<Seq<char>, Seq<FileEntry>>,
    repo: spec_fn(Seq<char>) -> bool,
    walks: Seq<LargeFileWalk>,
    j: int,
)
    requires
        0 <= j < walks.len(),
        forall|x: int| 0 <= x < walks.len() - 1 ==> large_walk_round(#[trigger] walks[x], walks[x + 1], tree, repo),
    ensures
        walks[j].home() == walks[0].home(),
    decreases j,
{
    if j > 0 {
        lemma_large_walk_homes(tree, repo, walks, j - 1);
        assert(large_walk_round(walks[j - 1], walks[j], tree, repo));
    }
}

proof fn lemma_large_walk_rounds(
    tree: Map<Seq<char>, Seq<FileEntry>>,
    repo: spec_fn(Seq<char>) -> bool,
    walks: Seq<LargeFileWalk>,
    i: int,
)
    requires
        walks.len() >= 1,
        0 <= i < walks.len(),
        forall|j: int| 0 <= j < walks.len() - 1 ==> large_walk_round(#[trigger] walks[j], walks[j + 1], tree, repo),
        forall|j: int| 0 <= j < walks.len() ==> (#[trigger] walks[j]).home() == walks[0].home(),
        forall|j: int| 0 <= j < walks.last().waiting().len() ==> (#[trigger] walks.last().waiting()[j]).1
            > max_depth(),
    ensures
        large_walk_run(
            walks[0].home(),
            tree,
            repo,
            walks[i].waiting(),
            walks[i].found(),
            (walks.len() - 1 - i) as nat,
        ) == Some(walks.last().found()),
    decreases walks.len() - i,
{
    if i == walks.len() - 1 {
        lemma_large_first_shallow_none(walks[i].waiting());
    } else {
        lemma_large_walk_rounds(tree, repo, walks, i + 1);
        assert(large_walk_round(walks[i], walks[i + 1], tree, repo));
        let w = walks[i].waiting();
        let k = choose|k: int|
            {
                &&& 0 <= k < w.len()
                &&& forall|x: int| 0 <= x < k ==> (#[trigger] w[x]).1 > max_depth()
                &&& (#[trigger] w[k]).1 <= max_depth()
                &&& walks[i + 1].home() == walks[i].home()
                &&& walks[i + 1].waiting() == w.skip(k + 1) + dir_queued(listed_files(tree, w[k].0), w[k].1 + 1)
                &&& walks[i + 1].found() == walks[i].found() + dir_found(
                    listed_files(tree, w[k].0),
                    walks[i].home(),
                    repo,
                )
            };
        lemma_large_first_shallow_at(w, k);
    }
}

/// The whole walk of one subtree: when the walk started at `start_dir` at depth
/// `start_depth` (`new`), and each round took the next directory with `next_dir` and
/// took in its listing in the model tree `tree` (with `repo` answering the repository
/// checks), until `next_dir` had nothing more, the findings are exactly those of the
/// breadth-first walk of `tree` (`large_walk_run`): the large or old files of the
/// directories reached through walked directories, down to the maximum depth.
pub proof fn lemma_large_walk_result(
    home: Seq<char>,
    start_dir: Seq<char>,
    start_depth: int,
    tree: Map<Seq<char>, Seq<FileEntry>>,
    repo: spec_fn(Seq<char>) -> bool,
    walks: Seq<LargeFileWalk>,
)
    requires
        walks.len() >= 1,
        walks[0].home() == home,
        walks[0].waiting() == seq![(start_dir, start_depth)],
        walks[0].found().len() == 0,
        forall|j: int| 0 <= j < walks.len() - 1 ==> large_walk_round(#[trigger] walks[j], walks[j + 1], tree, repo),
        forall|j: int| 0 <= j < walks.last().waiting().len() ==> (#[trigger] walks.last().waiting()[j]).1
            > max_depth(),
    ensures
        large_walk_run(
            home,
            tree,
            repo,
            seq![(start_dir, start_depth)],
            Seq::empty(),
            (walks.len() - 1) as nat,
        ) == Some(walks.last().found()),
{
    assert forall|j: int| 0 <= j < walks.len() implies (#[trigger] walks[j]).home() == walks[0].home() by {
        lemma_large_walk_homes(tree, repo, walks, j);
    }
    lemma_large_walk_rounds(tree, repo, walks, 0);
    assert(walks[0].found() == Seq::<(Seq<char>, Seq<char>, u64, u64, Seq<char>, Option<Effort>)>::empty());
}

/// Name of this scanner.
pub open spec fn scanner_name() -> Seq<char> {
    "Large & Old Files"@
}

/// The scan result of the large and old files scanner: the 50 largest findings.
pub fn large_files_scan_result(findings: Vec<Finding>, duration: u64) -> (r: ScanResult)
    requires
        scan_total_fits(findings@, Some(50)),
    ensures
        r.scanner_name@ == scanner_name(),
        r.duration == duration,
        is_scan_of(findings@, Some(50), r),
        r.findings@.len() <= 50,
{
    build_scan_result("Large & Old Files".to_string(), findings, Some(50), duration)
}


/// Known answers of the git repository check: whether a directory lies in a repository.
pub struct GitRepoCache {
    answers: KeyedVec<bool>,
}

impl GitRepoCache {
    /// The answers held: directory to whether it lies in a repository.
    pub closed spec fn cached(&self) -> Map<Seq<char>, bool> {
        self.answers.map()
    }

    /// No answer known yet.
    pub fn new() -> (r: Self)
        ensures
            r.cached() == Map::<Seq<char>, bool>::empty(),
    {
        GitRepoCache { answers: KeyedVec::new() }
    }

    /// The answer held for `dir`, if any.
    pub fn lookup(&self, dir: &str) -> (r: Option<bool>)
        ensures
            r == (if self.cached().dom().contains(dir@) {
                Some(self.cached()[dir@])
            } else {
                None
            }),
    {
        match self.answers.get(dir) {
            Some(v) => Some(*v),
            None => None,
        }
    }

    /// Holds `answer` for `dir`, replacing what was held for it.
    pub fn set(&mut self, dir: String, answer: bool)
        ensures
            final(self).cached() == old(self).cached().insert(dir@, answer),
    {
        self.answers.set(dir, answer);
    }
}

/// What `str::len` gives for `s`: its number of bytes in UTF-8.
pub open spec fn byte_len(s: Seq<char>) -> int {
    (vstd::utf8::encode_utf8(s).len() as usize) as int
}

/// One step up the ancestors of `dir`, at `current`: the walk stops (the answer is
/// no repository) once `current` is shorter than the home directory or is `/`; a
/// held answer for `current` is the answer; else `current/.git` must be checked.
/// Gives the answers held afterwards and the answer, if decided.
pub open spec fn probe_at(
    cache: Map<Seq<char>, bool>,
    dir: Seq<char>,
    current: Seq<char>,
    home_len: int,
) -> (Map<Seq<char>, bool>, Option<bool>) {
    if !(byte_len(current) >= home_len && !is_root_path(current)) {
        (cache.insert(dir, false), Some(false))
    } else if cache.dom().contains(current) {
        (cache.insert(dir, cache[current]), Some(cache[current]))
    } else {
        (cache, None)
    }
}

/// A check in progress of whether `dir` lies in a git repository.
pub struct GitProbe {
    dir: String,
    current: String,
}

impl GitProbe {
    pub closed spec fn dir(&self) -> Seq<char> {
        self.dir@
    }

    /// The ancestor whose `.git` entry is being checked.
    pub closed spec fn current(&self) -> Seq<char> {
        self.current@
    }
}

/// What the repository check needs next.
pub enum GitStep {
    /// The check is over: whether the directory lies in a repository.
    Answer(bool),
    /// Check whether `<path>/.git` exists and report it with `GitRepoCache::git_entry_checked`.
    CheckForGitDir(String),
}

impl GitRepoCache {
    fn advance(&mut self, dir: String, current: String, home_len: usize) -> (r: (GitProbe, GitStep))
        ensures
            ({
                let (c, a) = probe_at(old(self).cached(), dir@, current@, home_len as int);
                &&& final(self).cached() == c
                &&& a matches Some(v) ==> r.1 == GitStep::Answer(v)
                &&& a is None ==> (r.1 matches GitStep::CheckForGitDir(p) && p@ == current@)
                &&& r.0.dir() == dir@
                &&& r.0.current() == current@
            }),
    {
        let long_enough = current.as_str().len() >= home_len;
        if !(long_enough && !is_root(current.as_str())) {
            self.set(dir.clone(), false);
            return (GitProbe { dir, current }, GitStep::Answer(false));
        }
        match self.lookup(current.as_str()) {
            Some(v) => {
                self.set(dir.clone(), v);
                (GitProbe { dir, current }, GitStep::Answer(v))
            },
            None => {
                let p = current.clone();
                (GitProbe { dir, current }, GitStep::CheckForGitDir(p))
            },
        }
    }

    /// Starts checking whether `dir` lies in a git repository, walking up its
    /// ancestors while they are at least `home_len` bytes long.
    pub fn begin(&mut self, dir: String, home_len: usize) -> (r: (GitProbe, GitStep))
        ensures
            r.0.dir() == dir@,
            old(self).cached().dom().contains(dir@) ==> r.1 == GitStep::Answer(old(self).cached()[dir@])
                && final(self).cached() == old(self).cached(),
            !old(self).cached().dom().contains(dir@) ==> ({
                let (c, a) = probe_at(old(self).cached(), dir@, dir@, home_len as int);
                &&& final(self).cached() == c
                &&& a matches Some(v) ==> r.1 == GitStep::Answer(v)
                &&& a is None ==> (r.1 matches GitStep::CheckForGitDir(p) && p@ == dir@)
                &&& r.0.current() == dir@
            }),
    {
        match self.lookup(dir.as_str()) {
            Some(v) => {
                let current = dir.clone();
                (GitProbe { dir, current }, GitStep::Answer(v))
            },
            None => {
                let current = dir.clone();
                self.advance(dir, current, home_len)
            },
        }
    }

    /// Continues a check once it is known whether `<current>/.git` exists: if it does,
    /// `current` and the directory lie in a repository; else the check moves to the
    /// parent of `current` (no parent: no repository).
    pub fn git_entry_checked(&mut self, probe: GitProbe, exists: bool, home_len: usize) -> (r: (
        GitProbe,
        GitStep,
    ))
        ensures
            r.0.dir() == probe.dir(),
            exists ==> r.1 == GitStep::Answer(true) && final(self).cached() == old(self).cached().insert(
                probe.current(),
                true,
            ).insert(probe.dir(), true),
            !exists && path_parent(probe.current()) is None ==> r.1 == GitStep::Answer(false)
                && final(self).cached() == old(self).cached().insert(probe.dir(), false),
            !exists && path_parent(probe.current()) is Some ==> ({
                let p = path_parent(probe.current())->0;
                let (c, a) = probe_at(old(self).cached(), probe.dir(), p, home_len as int);
                &&& final(self).cached() == c
                &&& a matches Some(v) ==> r.1 == GitStep::Answer(v)
                &&& a is None ==> (r.1 matches GitStep::CheckForGitDir(q) && q@ == p)
                &&& r.0.current() == p
            }),
    {
        let GitProbe { dir, current } = probe;
        if exists {
            self.set(current.clone(), true);
            self.set(dir.clone(), true);
            return (GitProbe { dir, current }, GitStep::Answer(true));
        }
        match parent_of(current.as_str()) {
            None => {
                self.set(dir.clone(), false);
                (GitProbe { dir, current }, GitStep::Answer(false))
            },
            Some(p) => self.advance(dir, p, home_len),
        }
    }
}

/// Whenever a step of the repository check gives an answer, that answer is held for
/// the directory afterwards, so asking again gives it at once.
pub proof fn lemma_probe_answer_remembered(
    cache: Map<Seq<char>, bool>,
    dir: Seq<char>,
    current: Seq<char>,
    home_len: int,
)
    ensures
        probe_at(cache, dir, current, home_len).1 matches Some(v) ==> probe_at(
            cache,
            dir,
            current,
            home_len,
        ).0.dom().contains(dir) && probe_at(cache, dir, current, home_len).0[dir] == v,
        probe_at(cache, dir, current, home_len).1 is None ==> probe_at(
            cache,
            dir,
            current,
            home_len,
        ).0 == cache,
{
}

/// Reading the held answers (`lookup`) after recording one for a directory (`set`)
/// gives that answer; the answers for other directories are unchanged.
pub proof fn lemma_git_cache_read_after_write(
    before: GitRepoCache,
    after: GitRepoCache,
    dir: Seq<char>,
    answer: bool,
    other: Seq<char>,
)
    requires
        after.cached() == before.cached().insert(dir, answer),
    ensures
        after.cached().dom().contains(dir),
        after.cached()[dir] == answer,
        other != dir ==> (after.cached().dom().contains(other) == before.cached().dom().contains(
            other,
        )),
        other != dir && before.cached().dom().contains(other) ==> after.cached()[other]
            == before.cached()[other],
{
}

/// A flagged file is larger than 100 MB or untouched for over a year; inside a git
/// repository it is flagged only when both hold.
pub proof fn lemma_flagged_files(e: FileEntry, home: Seq<char>, in_repo: bool)
    ensures
        file_finding_spec(e, home, in_repo) is Some ==> (e.size > size_threshold() || e.age
            > age_threshold()),
        file_finding_spec(e, home, in_repo) is Some && in_repo ==> (e.size > size_threshold()
            && e.age > age_threshold()),
        (e.size > size_threshold() && e.age > age_threshold()) ==> file_finding_spec(
            e,
            home,
            in_repo,
        ) is Some,
{
}

} // verus!
