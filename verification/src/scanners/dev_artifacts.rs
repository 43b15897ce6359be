use vstd::prelude::*;
use crate::findings::{build_scan_result, lemma_scan_total_fits, is_scan_of, sum_keys};
use crate::text::{replace_all, replace_str, starts_with, starts_with_str, str_eq};
use crate::types::{Effort, Finding, ScanResult};
use crate::utils::fs::DirEntry;

verus! {

/// Known dev artifact directories: name, why it can go, and what removing it costs.
pub open spec fn artifact_table() -> Seq<(Seq<char>, Seq<char>, Effort)> {
    seq![
        ("node_modules"@, "Node.js dependencies \u{2014} can be reinstalled with npm/bun install"@, Effort::Reinstall),
        (".next"@, "Next.js build cache \u{2014} regenerated on next build"@, Effort::NoEffort),
        (".nuxt"@, "Nuxt.js build cache \u{2014} regenerated on next build"@, Effort::NoEffort),
        (".svelte-kit"@, "SvelteKit build cache \u{2014} regenerated on next build"@, Effort::NoEffort),
        (".turbo"@, "Turborepo cache \u{2014} regenerated on next build"@, Effort::NoEffort),
        ("dist"@, "Build output \u{2014} regenerated on next build"@, Effort::NoEffort),
        ("build"@, "Build output \u{2014} regenerated on next build"@, Effort::NoEffort),
        ("out"@, "Build output \u{2014} regenerated on next build"@, Effort::NoEffort),
        (".venv"@, "Python virtual environment \u{2014} recreate with python -m venv"@, Effort::Reinstall),
        ("venv"@, "Python virtual environment \u{2014} recreate with python -m venv"@, Effort::Reinstall),
        ("__pycache__"@, "Python bytecode cache \u{2014} regenerated automatically"@, Effort::NoEffort),
        (".pytest_cache"@, "Pytest cache \u{2014} regenerated on next test run"@, Effort::NoEffort),
        (".mypy_cache"@, "Mypy type-checking cache \u{2014} regenerated automatically"@, Effort::NoEffort),
        (".ruff_cache"@, "Ruff linter cache \u{2014} regenerated automatically"@, Effort::NoEffort),
        ("target"@, "Rust/Java build output \u{2014} regenerated on next build"@, Effort::NoEffort),
        (".gradle"@, "Gradle build cache \u{2014} regenerated on next build"@, Effort::NoEffort),
        (".cargo"@, "Cargo cache \u{2014} regenerated on next build"@, Effort::NoEffort),
        (".expo"@, "Expo cache \u{2014} regenerated on next build"@, Effort::NoEffort),
        (".parcel-cache"@, "Parcel bundler cache \u{2014} regenerated on next build"@, Effort::NoEffort),
        (".webpack"@, "Webpack cache \u{2014} regenerated on next build"@, Effort::NoEffort),
        (".angular"@, "Angular build cache \u{2014} regenerated on next build"@, Effort::NoEffort),
        (".cache"@, "Generic build cache \u{2014} usually safe to remove"@, Effort::NoEffort),
        (".tsbuildinfo"@, "TypeScript incremental build cache"@, Effort::NoEffort),
        ("coverage"@, "Test coverage reports \u{2014} regenerated on next test run"@, Effort::NoEffort),
        (".nyc_output"@, "NYC coverage output \u{2014} regenerated on next test run"@, Effort::NoEffort),
        (".dart_tool"@, "Dart tool cache \u{2014} regenerated automatically"@, Effort::NoEffort),
        (".pub-cache"@, "Dart pub cache \u{2014} regenerated on next pub get"@, Effort::NoEffort),
    ]
}

/// The artifact definition (reason, effort) of directory name `name`, from `artifact_table()[k..]`.
pub open spec fn artifact_def_from(name: Seq<char>, k: int) -> Option<(Seq<char>, Effort)>
    decreases artifact_table().len() - k,
{
    if k < 0 || k >= artifact_table().len() {
        None
    } else if artifact_table()[k].0 == name {
        Some((artifact_table()[k].1, artifact_table()[k].2))
    } else {
        artifact_def_from(name, k + 1)
    }
}

/// The artifact definition of directory name `name`, if it is a known artifact.
pub open spec fn artifact_def(name: Seq<char>) -> Option<(Seq<char>, Effort)> {
    artifact_def_from(name, 0)
}

/// The known dev artifact directories, each with why it can go and what removing it
/// costs: `node_modules` (reinstall), the `.next`, `.nuxt`, `.svelte-kit` and `.turbo`
/// caches, the `dist`, `build` and `out` build outputs, the `.venv` and `venv` virtual
/// environments (reinstall), Python, test, linter, Rust/Java, Gradle, Cargo, Expo,
/// bundler, Angular, TypeScript, coverage and Dart caches; no other name is one.
pub proof fn lemma_artifact_names(name: Seq<char>)
    ensures
        artifact_def(name) ==         if name == "node_modules"@ {
            Some(("Node.js dependencies \u{2014} can be reinstalled with npm/bun install"@, Effort::Reinstall))
        } else if name == ".next"@ {
            Some(("Next.js build cache \u{2014} regenerated on next build"@, Effort::NoEffort))
        } else if name == ".nuxt"@ {
            Some(("Nuxt.js build cache \u{2014} regenerated on next build"@, Effort::NoEffort))
        } else if name == ".svelte-kit"@ {
            Some(("SvelteKit build cache \u{2014} regenerated on next build"@, Effort::NoEffort))
        } else if name == ".turbo"@ {
            Some(("Turborepo cache \u{2014} regenerated on next build"@, Effort::NoEffort))
        } else if name == "dist"@ {
            Some(("Build output \u{2014} regenerated on next build"@, Effort::NoEffort))
        } else if name == "build"@ {
            Some(("Build output \u{2014} regenerated on next build"@, Effort::NoEffort))
        } else if name == "out"@ {
            Some(("Build output \u{2014} regenerated on next build"@, Effort::NoEffort))
        } else if name == ".venv"@ {
            Some(("Python virtual environment \u{2014} recreate with python -m venv"@, Effort::Reinstall))
        } else if name == "venv"@ {
            Some(("Python virtual environment \u{2014} recreate with python -m venv"@, Effort::Reinstall))
        } else if name == "__pycache__"@ {
            Some(("Python bytecode cache \u{2014} regenerated automatically"@, Effort::NoEffort))
        } else if name == ".pytest_cache"@ {
            Some(("Pytest cache \u{2014} regenerated on next test run"@, Effort::NoEffort))
        } else if name == ".mypy_cache"@ {
            Some(("Mypy type-checking cache \u{2014} regenerated automatically"@, Effort::NoEffort))
        } else if name == ".ruff_cache"@ {
            Some(("Ruff linter cache \u{2014} regenerated automatically"@, Effort::NoEffort))
        } else if name == "target"@ {
            Some(("Rust/Java build output \u{2014} regenerated on next build"@, Effort::NoEffort))
        } else if name == ".gradle"@ {
            Some(("Gradle build cache \u{2014} regenerated on next build"@, Effort::NoEffort))
        } else if name == ".cargo"@ {
            Some(("Cargo cache \u{2014} regenerated on next build"@, Effort::NoEffort))
        } else if name == ".expo"@ {
            Some(("Expo cache \u{2014} regenerated on next build"@, Effort::NoEffort))
        } else if name == ".parcel-cache"@ {
            Some(("Parcel bundler cache \u{2014} regenerated on next build"@, Effort::NoEffort))
        } else if name == ".webpack"@ {
            Some(("Webpack cache \u{2014} regenerated on next build"@, Effort::NoEffort))
        } else if name == ".angular"@ {
            Some(("Angular build cache \u{2014} regenerated on next build"@, Effort::NoEffort))
        } else if name == ".cache"@ {
            Some(("Generic build cache \u{2014} usually safe to remove"@, Effort::NoEffort))
        } else if name == ".tsbuildinfo"@ {
            Some(("TypeScript incremental build cache"@, Effort::NoEffort))
        } else if name == "coverage"@ {
            Some(("Test coverage reports \u{2014} regenerated on next test run"@, Effort::NoEffort))
        } else if name == ".nyc_output"@ {
            Some(("NYC coverage output \u{2014} regenerated on next test run"@, Effort::NoEffort))
        } else if name == ".dart_tool"@ {
            Some(("Dart tool cache \u{2014} regenerated automatically"@, Effort::NoEffort))
        } else if name == ".pub-cache"@ {
            Some(("Dart pub cache \u{2014} regenerated on next pub get"@, Effort::NoEffort))
        } else {
            None
        },
{
    reveal_with_fuel(artifact_def_from, 28);
}

/// Directories never entered while walking.
pub open spec fn is_skip_dir(name: Seq<char>) -> bool {
    ||| name == ".Trash"@
    ||| name == ".git"@
    ||| name == "Library"@
    ||| name == ".cache"@
    ||| name == ".local"@
    ||| name == ".config"@
    ||| name == ".npm"@
    ||| name == ".bun"@
    ||| name == ".nvm"@
    ||| name == ".volta"@
    ||| name == ".rustup"@
    ||| name == ".cargo"@
}

/// The artifact definition of `name`, if it is a known artifact.
pub fn artifact_lookup(name: &str) -> (r: Option<(String, Effort)>)
    ensures
        r matches Some(d) ==> artifact_def(name@) == Some((d.0@, d.1)),
        r is None ==> artifact_def(name@) is None,
{
    let table: Vec<(&'static str, &'static str, Effort)> = vec![
        ("node_modules", "Node.js dependencies \u{2014} can be reinstalled with npm/bun install", Effort::Reinstall),
        (".next", "Next.js build cache \u{2014} regenerated on next build", Effort::NoEffort),
        (".nuxt", "Nuxt.js build cache \u{2014} regenerated on next build", Effort::NoEffort),
        (".svelte-kit", "SvelteKit build cache \u{2014} regenerated on next build", Effort::NoEffort),
        (".turbo", "Turborepo cache \u{2014} regenerated on next build", Effort::NoEffort),
        ("dist", "Build output \u{2014} regenerated on next build", Effort::NoEffort),
        ("build", "Build output \u{2014} regenerated on next build", Effort::NoEffort),
        ("out", "Build output \u{2014} regenerated on next build", Effort::NoEffort),
        (".venv", "Python virtual environment \u{2014} recreate with python -m venv", Effort::Reinstall),
        ("venv", "Python virtual environment \u{2014} recreate with python -m venv", Effort::Reinstall),
        ("__pycache__", "Python bytecode cache \u{2014} regenerated automatically", Effort::NoEffort),
        (".pytest_cache", "Pytest cache \u{2014} regenerated on next test run", Effort::NoEffort),
        (".mypy_cache", "Mypy type-checking cache \u{2014} regenerated automatically", Effort::NoEffort),
        (".ruff_cache", "Ruff linter cache \u{2014} regenerated automatically", Effort::NoEffort),
        ("target", "Rust/Java build output \u{2014} regenerated on next build", Effort::NoEffort),
        (".gradle", "Gradle build cache \u{2014} regenerated on next build", Effort::NoEffort),
        (".cargo", "Cargo cache \u{2014} regenerated on next build", Effort::NoEffort),
        (".expo", "Expo cache \u{2014} regenerated on next build", Effort::NoEffort),
        (".parcel-cache", "Parcel bundler cache \u{2014} regenerated on next build", Effort::NoEffort),
        (".webpack", "Webpack cache \u{2014} regenerated on next build", Effort::NoEffort),
        (".angular", "Angular build cache \u{2014} regenerated on next build", Effort::NoEffort),
        (".cache", "Generic build cache \u{2014} usually safe to remove", Effort::NoEffort),
        (".tsbuildinfo", "TypeScript incremental build cache", Effort::NoEffort),
        ("coverage", "Test coverage reports \u{2014} regenerated on next test run", Effort::NoEffort),
        (".nyc_output", "NYC coverage output \u{2014} regenerated on next test run", Effort::NoEffort),
        (".dart_tool", "Dart tool cache \u{2014} regenerated automatically", Effort::NoEffort),
        (".pub-cache", "Dart pub cache \u{2014} regenerated on next pub get", Effort::NoEffort),
    ];
    assert(table@.map_values(|t: (&str, &str, Effort)| (t.0@, t.1@, t.2)) =~= artifact_table());
    let mut k: usize = 0;
    while k < table.len()
        invariant
            k <= table@.len(),
            table@.map_values(|t: (&str, &str, Effort)| (t.0@, t.1@, t.2)) == artifact_table(),
            artifact_def(name@) == artifact_def_from(name@, k as int),
        decreases table@.len() - k,
    {
        let (n, reason, effort) = table[k];
        assert(artifact_table()[k as int] == (n@, reason@, effort));
        if str_eq(n, name) {
            return Some((reason.to_string(), effort));
        }
        k = k + 1;
    }
    None
}

/// Whether the walk never enters a directory named `name`.
pub fn skip_dir(name: &str) -> (r: bool)
    ensures
        r == is_skip_dir(name@),
{
    str_eq(name, ".Trash") || str_eq(name, ".git") || str_eq(name, "Library") || str_eq(name, ".cache") || str_eq(name, ".local") || str_eq(name, ".config") || str_eq(name, ".npm") || str_eq(name, ".bun") || str_eq(name, ".nvm") || str_eq(name, ".volta") || str_eq(name, ".rustup") || str_eq(name, ".cargo")
}

/// What the walk does with a directory entry.
#[derive(Debug, Clone, Copy, PartialEq, Eq, Structural)]
pub enum WalkAction {
    /// Ignore it.
    Skip,
    /// Record it as an artifact (and do not enter it).
    Record,
    /// Enter it later.
    Descend,
}

/// The action for an entry of the home directory itself: only directories count;
/// skipped directories, and hidden ones that are not artifacts, are ignored.
pub open spec fn home_action(name: Seq<char>, is_dir: bool) -> WalkAction {
    if !is_dir || is_skip_dir(name) {
        WalkAction::Skip
    } else if artifact_def(name) is Some {
        WalkAction::Record
    } else if starts_with(name, "."@) {
        WalkAction::Skip
    } else {
        WalkAction::Descend
    }
}

/// The action for an entry below the home directory: artifacts are recorded before
/// the skip list applies, hidden directories are ignored.
pub open spec fn inner_action(name: Seq<char>, is_dir: bool) -> WalkAction {
    if !is_dir {
        WalkAction::Skip
    } else if artifact_def(name) is Some {
        WalkAction::Record
    } else if is_skip_dir(name) || starts_with(name, "."@) {
        WalkAction::Skip
    } else {
        WalkAction::Descend
    }
}

/// An artifact found by the walk, before its size is known.
#[derive(Debug, Clone)]
pub struct FoundArtifact {
    pub path: String,
    pub name: String,
    pub parent_display: String,
    pub reason: String,
    pub effort: Effort,
}

pub open spec fn found_view(a: FoundArtifact) -> (Seq<char>, Seq<char>, Seq<char>, Seq<char>, Effort) {
    (a.path@, a.name@, a.parent_display@, a.reason@, a.effort)
}

/// The artifacts recorded from `entries` listed in a directory shown as `parent`,
/// with `top` telling whether that directory is the home directory.
pub open spec fn recorded(entries: Seq<DirEntry>, parent: Seq<char>, top: bool) -> Seq<
    (Seq<char>, Seq<char>, Seq<char>, Seq<char>, Effort),
>
    decreases entries.len(),
{
    if entries.len() == 0 {
        Seq::empty()
    } else {
        let e = entries.last();
        let action = if top {
            home_action(e.name@, e.is_directory)
        } else {
            inner_action(e.name@, e.is_directory)
        };
        let rest = recorded(entries.drop_last(), parent, top);
        if action == WalkAction::Record {
            let d = artifact_def(e.name@)->0;
            rest.push((e.path@, e.name@, parent, d.0, d.1))
        } else {
            rest
        }
    }
}

/// The directories queued from `entries`, each at `depth`.
pub open spec fn queued(entries: Seq<DirEntry>, depth: int, top: bool) -> Seq<(Seq<char>, int)>
    decreases entries.len(),
{
    if entries.len() == 0 {
        Seq::empty()
    } else {
        let e = entries.last();
        let action = if top {
            home_action(e.name@, e.is_directory)
        } else {
            inner_action(e.name@, e.is_directory)
        };
        let rest = queued(entries.drop_last(), depth, top);
        if action == WalkAction::Descend {
            rest.push((e.path@, depth))
        } else {
            rest
        }
    }
}

/// Maximum depth walked below the home directory.
pub open spec fn max_depth() -> int {
    5
}

/// Breadth-first walk of the home directory for dev artifacts. The caller lists the
/// home directory into `visit_home`, then repeatedly takes a directory from
/// `next_dir`, lists it, and hands the entries to `visit_dir`.
pub struct ArtifactWalk {
    home: String,
    queue: std::collections::VecDeque<(String, usize)>,
    found: Vec<FoundArtifact>,
}

impl ArtifactWalk {
    pub closed spec fn home(&self) -> Seq<char> {
        self.home@
    }

    /// Directories waiting to be listed, first to be taken first, with their depth.
    pub closed spec fn waiting(&self) -> Seq<(Seq<char>, int)> {
        self.queue@.map_values(|q: (String, usize)| (q.0@, q.1 as int))
    }

    /// The artifacts recorded so far.
    pub closed spec fn artifacts(&self) -> Seq<(Seq<char>, Seq<char>, Seq<char>, Seq<char>, Effort)> {
        self.found@.map_values(|a: FoundArtifact| found_view(a))
    }

    /// A walk of `home` that has seen nothing yet.
    pub fn new(home: String) -> (r: Self)
        ensures
            r.home() == home@,
            r.waiting().len() == 0,
            r.artifacts().len() == 0,
    {
        let r = ArtifactWalk { home, queue: std::collections::VecDeque::new(), found: Vec::new() };
        assert(r.waiting() =~= Seq::<(Seq<char>, int)>::empty());
        assert(r.artifacts() =~= Seq::<(Seq<char>, Seq<char>, Seq<char>, Seq<char>, Effort)>::empty());
        r
    }

    fn visit(&mut self, entries: Vec<DirEntry>, parent: String, depth: usize, top: bool)
        ensures
            final(self).home() == old(self).home(),
            final(self).artifacts() == old(self).artifacts() + recorded(entries@, parent@, top),
            final(self).waiting() == old(self).waiting() + queued(entries@, depth as int, top),
    {
        let ghost a0 = self.artifacts();
        let ghost w0 = self.waiting();
        let mut i: usize = 0;
        assert(entries@.take(0) =~= Seq::<DirEntry>::empty());
        assert(a0 + Seq::<(Seq<char>, Seq<char>, Seq<char>, Seq<char>, Effort)>::empty() == a0);
        assert(w0 + Seq::<(Seq<char>, int)>::empty() == w0);
        while i < entries.len()
            invariant
                i <= entries@.len(),
                self.home() == old(self).home(),
                a0 == old(self).artifacts(),
                w0 == old(self).waiting(),
                self.artifacts() == a0 + recorded(entries@.take(i as int), parent@, top),
                self.waiting() == w0 + queued(entries@.take(i as int), depth as int, top),
            decreases entries@.len() - i,
        {
            assert(entries@.take(i + 1).drop_last() == entries@.take(i as int));
            assert(entries@.take(i + 1).last() == entries@[i as int]);
            let e = &entries[i];
            let def = artifact_lookup(e.name.as_str());
            let action = if !e.is_directory {
                WalkAction::Skip
            } else if top {
                if skip_dir(e.name.as_str()) {
                    WalkAction::Skip
                } else if def.is_some() {
                    WalkAction::Record
                } else if starts_with_str(e.name.as_str(), ".") {
                    WalkAction::Skip
                } else {
                    WalkAction::Descend
                }
            } else {
                if def.is_some() {
                    WalkAction::Record
                } else if skip_dir(e.name.as_str()) || starts_with_str(e.name.as_str(), ".") {
                    WalkAction::Skip
                } else {
                    WalkAction::Descend
                }
            };
            match action {
                WalkAction::Record => {
                    let (reason, effort) = def.unwrap();
                    let a = FoundArtifact {
                        path: e.path.clone(),
                        name: e.name.clone(),
                        parent_display: parent.clone(),
                        reason,
                        effort,
                    };
                    let ghost before = self.found@;
                    self.found.push(a);
                    assert(self.found@.map_values(|a: FoundArtifact| found_view(a)) =~= before.map_values(
                        |a: FoundArtifact| found_view(a),
                    ).push(found_view(self.found@.last())));
                },
                WalkAction::Descend => {
                    let ghost before = self.queue@;
                    self.queue.push_back((e.path.clone(), depth));
                    assert(self.queue@.map_values(|q: (String, usize)| (q.0@, q.1 as int)) =~= before.map_values(
                        |q: (String, usize)| (q.0@, q.1 as int),
                    ).push((e.path@, depth as int)));
                },
                WalkAction::Skip => {},
            }
            i = i + 1;
        }
        assert(entries@.take(entries@.len() as int) == entries@);
    }

    /// Takes in the listing of the home directory: artifacts there are shown under
    /// `~`, other directories are queued at depth 1.
    pub fn visit_home(&mut self, entries: Vec<DirEntry>)
        ensures
            final(self).home() == old(self).home(),
            final(self).artifacts() == old(self).artifacts() + recorded(entries@, "~"@, true),
            final(self).waiting() == old(self).waiting() + queued(entries@, 1, true),
    {
        self.visit(entries, "~".to_string(), 1, true);
    }

    /// The next directory to list and its depth: the first waiting one not deeper
    /// than the maximum depth (deeper ones are dropped on the way).
    pub fn next_dir(&mut self) -> (r: Option<(String, usize)>)
        ensures
            final(self).home() == old(self).home(),
            final(self).artifacts() == old(self).artifacts(),
            r is None ==> final(self).waiting().len() == 0 && forall|i: int| 0 <= i < old(self).waiting().len()
                ==> (#[trigger] old(self).waiting()[i]).1 > max_depth(),
            r matches Some(d) ==> exists|k: int| 0 <= k < old(self).waiting().len() && (forall|i: int| 0 <= i < k
                ==> (#[trigger] old(self).waiting()[i]).1 > max_depth()) && old(self).waiting()[k] == (d.0@, d.1 as int)
                && d.1 <= max_depth() && final(self).waiting() == old(self).waiting().skip(k + 1),
    {
        let ghost w0 = self.waiting();
        let ghost mut k: int = 0;
        loop
            invariant
                self.home() == old(self).home(),
                self.artifacts() == old(self).artifacts(),
                w0 == old(self).waiting(),
                0 <= k <= w0.len(),
                self.waiting() == w0.skip(k),
                forall|i: int| 0 <= i < k ==> (#[trigger] w0[i]).1 > max_depth(),
            decreases w0.len() - k,
        {
            let ghost before = self.queue@;
            match self.queue.pop_front() {
                Some((dir, depth)) => {
                    proof {
                        assert(before.len() > 0);
                        assert(before[0] == (dir, depth));
                        assert(before.map_values(|q: (String, usize)| (q.0@, q.1 as int)) == w0.skip(k));
                        assert(w0.skip(k).len() == before.len());
                        assert(w0.skip(k)[0] == (before[0].0@, before[0].1 as int));
                        assert(k < w0.len());
                        assert(w0[k] == w0.skip(k)[0]);
                        assert(self.queue@ == before.drop_first());
                        assert forall|i: int| 0 <= i < self.waiting().len() implies self.waiting()[i] == w0.skip(k + 1)[i] by {
                            assert(self.queue@[i] == before[i + 1]);
                            assert(w0.skip(k)[i + 1] == w0[k + 1 + i]);
                        }
                        assert(self.waiting() =~= w0.skip(k + 1));
                    }
                    if depth <= 5 {
                        return Some((dir, depth));
                    }
                    proof {
                        k = k + 1;
                    }
                },
                None => {
                    assert(w0.skip(k).len() == 0);
                    return None;
                },
            }
        }
    }

    /// Takes in the listing of `dir` (taken from `next_dir` at `depth`): artifacts are
    /// shown under `dir` with the home directory written `~`, other directories are
    /// queued one level deeper.
    pub fn visit_dir(&mut self, dir: &str, depth: usize, entries: Vec<DirEntry>)
        requires
            depth <= max_depth(),
        ensures
            final(self).home() == old(self).home(),
            final(self).artifacts() == old(self).artifacts() + recorded(
                entries@,
                replace_all(dir@, old(self).home(), "~"@),
                false,
            ),
            final(self).waiting() == old(self).waiting() + queued(entries@, depth + 1, false),
    {
        let parent = replace_str(dir, self.home.as_str(), "~");
        self.visit(entries, parent, depth + 1, false);
    }

    /// The artifacts found by the walk.
    pub fn into_artifacts(self) -> (r: Vec<FoundArtifact>)
        ensures
            r@.map_values(|a: FoundArtifact| found_view(a)) == self.artifacts(),
    {
        self.found
    }
}

/// The index of the first waiting directory not deeper than the maximum depth: the
/// one `next_dir` hands out.
pub open spec fn first_shallow(w: Seq<(Seq<char>, int)>) -> Option<int>
    decreases w.len(),
{
    if w.len() == 0 {
        None
    } else if w[0].1 <= max_depth() {
        Some(0)
    } else {
        match first_shallow(w.drop_first()) {
            Some(k) => Some(k + 1),
            None => None,
        }
    }
}

proof fn lemma_first_shallow_at(w: Seq<(Seq<char>, int)>, k: int)
    requires
        0 <= k < w.len(),
        forall|i: int| 0 <= i < k ==> (#[trigger] w[i]).1 > max_depth(),
        w[k].1 <= max_depth(),
    ensures
        first_shallow(w) == Some(k),
    decreases k,
{
    if k > 0 {
        assert forall|i: int| 0 <= i < k - 1 implies (#[trigger] w.drop_first()[i]).1 > max_depth() by {
            assert(w.drop_first()[i] == w[i + 1]);
        }
        lemma_first_shallow_at(w.drop_first(), k - 1);
    }
}

proof fn lemma_first_shallow_none(w: Seq<(Seq<char>, int)>)
    requires
        forall|i: int| 0 <= i < w.len() ==> (#[trigger] w[i]).1 > max_depth(),
    ensures
        first_shallow(w) is None,
    decreases w.len(),
{
    if w.len() > 0 {
        assert forall|i: int| 0 <= i < w.len() - 1 implies (#[trigger] w.drop_first()[i]).1
            > max_depth() by {
            assert(w.drop_first()[i] == w[i + 1]);
        }
        lemma_first_shallow_none(w.drop_first());
    }
}

/// The entries that a model directory tree lists for `dir` (none when it cannot be read).
pub open spec fn listed(tree: Map<Seq<char>, Seq<DirEntry>>, dir: Seq<char>) -> Seq<DirEntry> {
    if tree.dom().contains(dir) {
        tree[dir]
    } else {
        Seq::empty()
    }
}

/// The breadth-first walk of the model directory tree `tree` below `home`, from the
/// directories `waiting` and the artifacts `found` so far, within `fuel` listings: the
/// first waiting directory not deeper than the maximum depth is listed, its artifacts
/// are recorded under its path with the home directory written `~`, and its other
/// directories wait one level deeper; the walk ends when no such directory waits.
pub open spec fn artifact_walk_run(
    home: Seq<char>,
    tree: Map<Seq<char>, Seq<DirEntry>>,
    waiting: Seq<(Seq<char>, int)>,
    found: Seq<(Seq<char>, Seq<char>, Seq<char>, Seq<char>, Effort)>,
    fuel: nat,
) -> Option<Seq<(Seq<char>, Seq<char>, Seq<char>, Seq<char>, Effort)>>
    decreases fuel,
{
    match first_shallow(waiting) {
        None => Some(found),
        Some(k) => if fuel == 0 {
            None
        } else {
            let d = waiting[k];
            let entries = listed(tree, d.0);
            artifact_walk_run(
                home,
                tree,
                waiting.skip(k + 1) + queued(entries, d.1 + 1, false),
                found + recorded(entries, replace_all(d.0, home, "~"@), false),
                (fuel - 1) as nat,
            )
        },
    }
}

/// The artifacts of a whole walk of the model tree `tree` of the home directory `home`,
/// when it ends within `fuel` listings below the home directory.
pub open spec fn artifact_walk_result(
    home: Seq<char>,
    tree: Map<Seq<char>, Seq<DirEntry>>,
    fuel: nat,
) -> Option<Seq<(Seq<char>, Seq<char>, Seq<char>, Seq<char>, Effort)>> {
    artifact_walk_run(
        home,
        tree,
        queued(listed(tree, home), 1, true),
        recorded(listed(tree, home), "~"@, true),
        fuel,
    )
}

/// One round of a walk driven over `tree`: `next_dir` handed out a directory, which was
/// listed as `tree` says and given to `visit_dir`.
pub open spec fn walk_round(
    before: ArtifactWalk,
    after: ArtifactWalk,
    tree: Map<Seq<char>, Seq<DirEntry>>,
) -> bool {
    exists|k: int|
        {
            &&& 0 <= k < before.waiting().len()
            &&& forall|i: int| 0 <= i < k ==> (#[trigger] before.waiting()[i]).1 > max_depth()
            &&& (#[trigger] before.waiting()[k]).1 <= max_depth()
            &&& after.home() == before.home()
            &&& after.waiting() == before.waiting().skip(k + 1) + queued(
                listed(tree, before.waiting()[k].0),
                before.waiting()[k].1 + 1,
                false,
            )
            &&& after.artifacts() == before.artifacts() + recorded(
                listed(tree, before.waiting()[k].0),
                replace_all(before.waiting()[k].0, before.home(), "~"@),
                false,
            )
        }
}

proof fn lemma_walk_rounds(
    tree: Map<Seq<char>, Seq<DirEntry>>,
    walks: Seq<ArtifactWalk>,
    i: int,
)
    requires
        walks.len() >= 1,
        0 <= i < walks.len(),
        forall|j: int| 0 <= j < walks.len() - 1 ==> walk_round(#[trigger] walks[j], walks[j + 1], tree),
        forall|j: int| 0 <= j < walks.len() ==> (#[trigger] walks[j]).home() == walks[0].home(),
        forall|j: int| 0 <= j < walks.last().waiting().len() ==> (#[trigger] walks.last().waiting()[j]).1
            > max_depth(),
    ensures
        artifact_walk_run(
            walks[0].home(),
            tree,
            walks[i].waiting(),
            walks[i].artifacts(),
            (walks.len() - 1 - i) as nat,
        ) == Some(walks.last().artifacts()),
    decreases walks.len() - i,
{
    let home = walks[0].home();
    if i == walks.len() - 1 {
        lemma_first_shallow_none(walks[i].waiting());
    } else {
        lemma_walk_rounds(tree, walks, i + 1);
        assert(walk_round(walks[i], walks[i + 1], tree));
        let w = walks[i].waiting();
        let k = choose|k: int|
            {
                &&& 0 <= k < w.len()
                &&& forall|x: int| 0 <= x < k ==> (#[trigger] w[x]).1 > max_depth()
                &&& (#[trigger] w[k]).1 <= max_depth()
                &&& walks[i + 1].home() == walks[i].home()
                &&& walks[i + 1].waiting() == w.skip(k + 1) + queued(listed(tree, w[k].0), w[k].1 + 1, false)
                &&& walks[i + 1].artifacts() == walks[i].artifacts() + recorded(
                    listed(tree, w[k].0),
                    replace_all(w[k].0, walks[i].home(), "~"@),
                    false,
                )
            };
        lemma_first_shallow_at(w, k);
        assert(walks[i].home() == home);
    }
}

/// The whole walk: when the walk of `home` started with `visit_home` on the listing
/// that the model tree `tree` gives for `home`, and each round took the next directory
/// with `next_dir` and gave `visit_dir` its listing in `tree`, until `next_dir` had
/// nothing more (no waiting directory within the maximum depth), the artifacts found
/// are exactly those of the breadth-first walk of `tree` (`artifact_walk_result`),
/// whatever the order in which directories deeper than five levels were dropped.
pub proof fn lemma_artifact_walk_result(
    home: Seq<char>,
    tree: Map<Seq<char>, Seq<DirEntry>>,
    walks: Seq<ArtifactWalk>,
)
    requires
        walks.len() >= 1,
        walks[0].home() == home,
        walks[0].waiting() == queued(listed(tree, home), 1, true),
        walks[0].artifacts() == recorded(listed(tree, home), "~"@, true),
        forall|j: int| 0 <= j < walks.len() - 1 ==> walk_round(#[trigger] walks[j], walks[j + 1], tree),
        forall|j: int| 0 <= j < walks.last().waiting().len() ==> (#[trigger] walks.last().waiting()[j]).1
            > max_depth(),
    ensures
        artifact_walk_result(home, tree, (walks.len() - 1) as nat) == Some(walks.last().artifacts()),
{
    assert forall|j: int| 0 <= j < walks.len() implies (#[trigger] walks[j]).home() == walks[0].home() by {
        lemma_walk_homes(tree, walks, j);
    }
    lemma_walk_rounds(tree, walks, 0);
}

proof fn lemma_walk_homes(tree: Map<Seq<char>, Seq<DirEntry>>, walks: Seq<ArtifactWalk>, j: int)
    requires
        0 <= j < walks.len(),
        forall|x: int| 0 <= x < walks.len() - 1 ==> walk_round(#[trigger] walks[x], walks[x + 1], tree),
    ensures
        walks[j].home() == walks[0].home(),
    decreases j,
{
    if j > 0 {
        lemma_walk_homes(tree, walks, j - 1);
        assert(walk_round(walks[j - 1], walks[j], tree));
    }
}

/// Minimum size to report (1 MB).
pub open spec fn min_size() -> u64 {
    0x10_0000
}

/// The finding for an artifact of the given size and age, unless it is under 1 MB:
/// labelled `<name> in <parent>`.
pub fn artifact_finding(a: FoundArtifact, size: u64, age: u64) -> (r: Option<Finding>)
    ensures
        size < min_size() ==> r is None,
        size >= min_size() ==> (r matches Some(f) && f.path == a.path && f.label@ == a.name@ + " in "@
            + a.parent_display@ && f.size == size && f.age == age && f.reason == a.reason
            && f.effort == Some(a.effort)),
{
    if size < 0x10_0000 {
        return None;
    }
    let mut label = a.name.clone();
    label.append(" in ");
    label.append(a.parent_display.as_str());
    Some(Finding { path: a.path, label, size, age, reason: a.reason, effort: Some(a.effort) })
}

/// Name of this scanner.
pub open spec fn scanner_name() -> Seq<char> {
    "Dev Artifacts"@
}

/// The scan result of the dev artifacts scanner for its findings.
pub fn artifacts_scan_result(findings: Vec<Finding>, duration: u64) -> (r: ScanResult)
    requires
        sum_keys(findings@) <= u64::MAX,
    ensures
        r.scanner_name@ == scanner_name(),
        r.duration == duration,
        is_scan_of(findings@, None, r),
{
    proof {
        lemma_scan_total_fits(findings@, None);
    }
    build_scan_result("Dev Artifacts".to_string(), findings, None, duration)
}

} // verus!
