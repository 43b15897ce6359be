use vstd::prelude::*;
use crate::text::{replace_all, replace_str, starts_with, starts_with_str, str_eq, trim_end_char, trim_end_char_str};
use crate::text::views;
use crate::types::TrashResult;

verus! {

/// Paths that must never be trashed: critical system directories.
pub open spec fn blocked_paths() -> Seq<Seq<char>> {
    seq![
        "/"@,
        "/System"@,
        "/System/Library"@,
        "/Library"@,
        "/Users"@,
        "/Applications"@,
        "/bin"@,
        "/sbin"@,
        "/usr"@,
        "/usr/bin"@,
        "/usr/lib"@,
        "/usr/local"@,
        "/usr/sbin"@,
        "/etc"@,
        "/var"@,
        "/tmp"@,
        "/private"@,
        "/private/etc"@,
        "/private/var"@,
        "/private/tmp"@,
        "/opt"@,
        "/opt/homebrew"@,
        "/Volumes"@,
        "/cores"@,
        "/dev"@,
        "/net"@,
        "/home"@,
    ]
}

/// Prefixes under which nothing may be trashed.
pub open spec fn blocked_prefixes() -> Seq<Seq<char>> {
    seq!["/System/"@, "/usr/"@, "/bin/"@, "/sbin/"@, "/private/etc/"@, "/private/var/"@]
}

/// `path` without trailing slashes, or `/` when nothing is left.
pub open spec fn normalized_path(path: Seq<char>) -> Seq<char> {
    let t = trim_end_char(path, '/');
    if t.len() == 0 {
        "/"@
    } else {
        t
    }
}

/// Whether a path may be trashed: after removing trailing slashes it is not a blocked
/// path, does not start with a blocked prefix, and is not the home directory
/// (`home` is the value of `HOME`, if set).
pub open spec fn is_path_safe_spec(path: Seq<char>, home: Option<Seq<char>>) -> bool {
    let n = normalized_path(path);
    &&& !blocked_paths().contains(n)
    &&& forall|i: int| 0 <= i < blocked_prefixes().len() ==> !starts_with(n, #[trigger] blocked_prefixes()[i])
    &&& match home {
        Some(h) => n != trim_end_char(h, '/'),
        None => true,
    }
}

/// The view of an optional home directory.
pub open spec fn home_view(home: Option<&str>) -> Option<Seq<char>> {
    match home {
        Some(h) => Some(h@),
        None => None,
    }
}

fn blocked_paths_exec() -> (r: Vec<&'static str>)
    ensures
        r@.map_values(|x: &str| x@) == blocked_paths(),
{
    let r = vec![
        "/",
        "/System",
        "/System/Library",
        "/Library",
        "/Users",
        "/Applications",
        "/bin",
        "/sbin",
        "/usr",
        "/usr/bin",
        "/usr/lib",
        "/usr/local",
        "/usr/sbin",
        "/etc",
        "/var",
        "/tmp",
        "/private",
        "/private/etc",
        "/private/var",
        "/private/tmp",
        "/opt",
        "/opt/homebrew",
        "/Volumes",
        "/cores",
        "/dev",
        "/net",
        "/home",
    ];
    assert(r@.map_values(|x: &str| x@) =~= blocked_paths());
    r
}

fn blocked_prefixes_exec() -> (r: Vec<&'static str>)
    ensures
        r@.map_values(|x: &str| x@) == blocked_prefixes(),
{
    let r = vec!["/System/", "/usr/", "/bin/", "/sbin/", "/private/etc/", "/private/var/"];
    assert(r@.map_values(|x: &str| x@) =~= blocked_prefixes());
    r
}

/// Check if a path is safe to trash: true if it is not blocked.
/// `home` is the home directory (`HOME`), which is blocked too.
pub fn is_path_safe(path: &str, home: Option<&str>) -> (r: bool)
    ensures
        r == is_path_safe_spec(path@, home_view(home)),
{
    let trimmed = trim_end_char_str(path, '/');
    let normalized: String = if trimmed.as_str().is_empty() {
        "/".to_string()
    } else {
        trimmed
    };
    assert(normalized@ == normalized_path(path@));
    let n = normalized.as_str();
    let blocked = blocked_paths_exec();
    let mut i: usize = 0;
    while i < blocked.len()
        invariant
            i <= blocked@.len(),
            n@ == normalized_path(path@),
            blocked@.map_values(|x: &str| x@) == blocked_paths(),
            forall|j: int| 0 <= j < i ==> blocked_paths()[j] != n@,
        decreases blocked@.len() - i,
    {
        assert(blocked_paths()[i as int] == blocked@[i as int]@);
        if str_eq(blocked[i], n) {
            assert(blocked_paths().contains(n@));
            return false;
        }
        i = i + 1;
    }
    let prefixes = blocked_prefixes_exec();
    let mut k: usize = 0;
    while k < prefixes.len()
        invariant
            k <= prefixes@.len(),
            n@ == normalized_path(path@),
            prefixes@.map_values(|x: &str| x@) == blocked_prefixes(),
            forall|j: int| 0 <= j < k ==> !starts_with(n@, #[trigger] blocked_prefixes()[j]),
        decreases prefixes@.len() - k,
    {
        assert(blocked_prefixes()[k as int] == prefixes@[k as int]@);
        if starts_with_str(n, prefixes[k]) {
            return false;
        }
        k = k + 1;
    }
    match home {
        Some(h) => {
            let home_normalized = trim_end_char_str(h, '/');
            !str_eq(n, home_normalized.as_str())
        },
        None => true,
    }
}

/// `path` escaped for a double-quoted AppleScript string: backslashes doubled, then
/// double quotes preceded by a backslash.
pub open spec fn applescript_escaped(path: Seq<char>) -> Seq<char> {
    replace_all(replace_all(path, "\\"@, "\\\\"@), "\""@, "\\\""@)
}

/// `path` escaped for a double-quoted AppleScript string.
pub fn applescript_escape(path: &str) -> (r: String)
    ensures
        r@ == applescript_escaped(path@),
{
    let once = replace_str(path, "\\", "\\\\");
    replace_str(once.as_str(), "\"", "\\\"")
}

/// The AppleScript that asks Finder to delete one file.
pub open spec fn finder_delete_script_spec(path: Seq<char>) -> Seq<char> {
    "tell application \"Finder\" to delete POSIX file \""@ + applescript_escaped(path) + "\""@
}

/// The AppleScript that asks Finder to delete one file.
pub fn finder_delete_script(path: &str) -> (r: String)
    ensures
        r@ == finder_delete_script_spec(path@),
{
    let mut s = "tell application \"Finder\" to delete POSIX file \"".to_string();
    let esc = applescript_escape(path);
    s.append(esc.as_str());
    s.append("\"");
    s
}

/// The Finder references `POSIX file "<escaped>"` of `paths`, joined by `, `.
pub open spec fn posix_file_list(paths: Seq<Seq<char>>) -> Seq<char>
    decreases paths.len(),
{
    if paths.len() == 0 {
        Seq::empty()
    } else if paths.len() == 1 {
        "POSIX file \""@ + applescript_escaped(paths[0]) + "\""@
    } else {
        posix_file_list(paths.drop_last()) + ", "@ + ("POSIX file \""@ + applescript_escaped(
            paths.last(),
        ) + "\""@)
    }
}

/// The AppleScript that asks Finder to delete several files at once.
pub open spec fn finder_delete_all_script_spec(paths: Seq<Seq<char>>) -> Seq<char> {
    "tell application \"Finder\" to delete {"@ + posix_file_list(paths) + "}"@
}

/// The AppleScript that asks Finder to delete several files at once.
pub fn finder_delete_all_script(paths: &Vec<String>) -> (r: String)
    ensures
        r@ == finder_delete_all_script_spec(crate::text::views(paths@)),
{
    let ghost ps = crate::text::views(paths@);
    let mut list = String::new();
    let mut i: usize = 0;
    assert(ps.take(0) =~= Seq::<Seq<char>>::empty());
    while i < paths.len()
        invariant
            i <= paths@.len(),
            ps == crate::text::views(paths@),
            list@ == posix_file_list(ps.take(i as int)),
        decreases paths@.len() - i,
    {
        assert(ps.take(i + 1).drop_last() == ps.take(i as int));
        assert(ps.take(i + 1).last() == paths@[i as int]@);
        if i > 0 {
            list.append(", ");
        } else {
            assert(ps.take(1)[0] == paths@[0]@);
            assert(Seq::<char>::empty() + ("POSIX file \""@ + applescript_escaped(paths@[0]@) + "\""@)
                == "POSIX file \""@ + applescript_escaped(paths@[0]@) + "\""@);
        }
        list.append("POSIX file \"");
        let esc = applescript_escape(paths[i].as_str());
        list.append(esc.as_str());
        list.append("\"");
        i = i + 1;
    }
    assert(ps.take(paths@.len() as int) == ps);
    let mut s = "tell application \"Finder\" to delete {".to_string();
    s.append(list.as_str());
    s.append("}");
    s
}


/// The paths of `paths` that may be trashed, in order.
pub open spec fn safe_paths_spec(paths: Seq<Seq<char>>, home: Option<Seq<char>>) -> Seq<Seq<char>>
    decreases paths.len(),
{
    if paths.len() == 0 {
        Seq::empty()
    } else if is_path_safe_spec(paths.last(), home) {
        safe_paths_spec(paths.drop_last(), home).push(paths.last())
    } else {
        safe_paths_spec(paths.drop_last(), home)
    }
}

/// The view of a trash result.
pub open spec fn result_view(r: TrashResult) -> (Seq<char>, bool) {
    (r.path@, r.success)
}

/// The report of a batch that went through: one result per requested path, in
/// order, successful exactly for the paths that were sent to the Trash.
pub open spec fn batch_report(paths: Seq<Seq<char>>, sent: Seq<Seq<char>>) -> Seq<(Seq<char>, bool)> {
    Seq::new(paths.len(), |i: int| (paths[i], sent.contains(paths[i])))
}

/// The report when nothing was sent: every path failed.
pub open spec fn all_failed(paths: Seq<Seq<char>>) -> Seq<(Seq<char>, bool)> {
    Seq::new(paths.len(), |i: int| (paths[i], false))
}

/// What to do next to move a batch of paths to the Trash.
pub enum TrashAction {
    /// Nothing more to run: these are the results, one per requested path, in order.
    Report(Vec<TrashResult>),
    /// Run the `trash` command with these paths as its arguments.
    RunTrashCommand(Vec<String>),
    /// Run this AppleScript with `osascript -e`.
    RunFinderScript(String),
    /// Move each requested path on its own (see `single_trash_start`) and report
    /// each outcome, in order.
    TrashEachOnItsOwn,
}

/// A batch of paths being moved to the Trash in one operation.
pub struct BatchTrash {
    paths: Vec<String>,
    safe: Vec<String>,
}

impl BatchTrash {
    /// The requested paths.
    pub closed spec fn requested(&self) -> Seq<Seq<char>> {
        views(self.paths@)
    }

    /// The requested paths that may be trashed.
    pub closed spec fn safe(&self) -> Seq<Seq<char>> {
        views(self.safe@)
    }

    fn report(&self) -> (r: Vec<TrashResult>)
        ensures
            r@.map_values(|t: TrashResult| result_view(t)) == batch_report(self.requested(), self.safe()),
    {
        let mut out: Vec<TrashResult> = Vec::new();
        let mut i: usize = 0;
        while i < self.paths.len()
            invariant
                i <= self.paths@.len(),
                out@.len() == i,
                forall|j: int| 0 <= j < i ==> result_view(#[trigger] out@[j]) == (self.requested()[j], self.safe().contains(self.requested()[j])),
            decreases self.paths@.len() - i,
        {
            let p = self.paths[i].as_str();
            let mut found = false;
            let mut k: usize = 0;
            while k < self.safe.len()
                invariant
                    k <= self.safe@.len(),
                    p@ == self.requested()[i as int],
                    i < self.paths@.len(),
                    found == exists|j: int| 0 <= j < k && self.safe()[j] == p@,
                decreases self.safe@.len() - k,
            {
                let m = str_eq(self.safe[k].as_str(), p);
                assert(self.safe()[k as int] == self.safe@[k as int]@);
                if m {
                    found = true;
                }
                proof {
                    if !m && !found {
                        assert forall|j: int| 0 <= j < k + 1 implies self.safe()[j] != p@ by {
                            if j < k {
                                if self.safe()[j] == p@ {
                                    assert(exists|x: int| 0 <= x < k && self.safe()[x] == p@);
                                }
                            }
                        }
                    }
                }
                k = k + 1;
            }
            proof {
                if found {
                    let j = choose|j: int| 0 <= j < k && self.safe()[j] == p@;
                    assert(self.safe().contains(p@));
                } else {
                    if self.safe().contains(p@) {
                        let j = self.safe().index_of(p@);
                        assert(self.safe()[j] == p@);
                    }
                }
            }
            out.push(TrashResult { path: p.to_string(), success: found });
            i = i + 1;
        }
        assert(out@.map_values(|t: TrashResult| result_view(t)) =~= batch_report(self.requested(), self.safe()));
        out
    }

    /// Starts moving `paths` to the Trash (`home` is `HOME`, if set): blocked paths are
    /// left out; when none is left every path fails, else the `trash` command is run
    /// with the paths that are left.
    pub fn start(paths: Vec<String>, home: Option<&str>) -> (r: (BatchTrash, TrashAction))
        ensures
            r.0.requested() == views(paths@),
            r.0.safe() == safe_paths_spec(views(paths@), home_view(home)),
            r.0.safe().len() == 0 ==> (r.1 matches TrashAction::Report(v) && v@.map_values(
                |t: TrashResult| result_view(t),
            ) == all_failed(views(paths@))),
            r.0.safe().len() > 0 ==> (r.1 matches TrashAction::RunTrashCommand(v) && views(v@)
                == r.0.safe()),
    {
        let mut safe: Vec<String> = Vec::new();
        let mut i: usize = 0;
        let ghost ps = views(paths@);
        assert(ps.take(0) =~= Seq::<Seq<char>>::empty());
        assert(views(safe@) =~= Seq::<Seq<char>>::empty());
        while i < paths.len()
            invariant
                i <= paths@.len(),
                ps == views(paths@),
                views(safe@) == safe_paths_spec(ps.take(i as int), home_view(home)),
            decreases paths@.len() - i,
        {
            assert(ps.take(i + 1).drop_last() == ps.take(i as int));
            assert(ps.take(i + 1).last() == paths@[i as int]@);
            if is_path_safe(paths[i].as_str(), home) {
                let ghost before = views(safe@);
                safe.push(paths[i].clone());
                assert(views(safe@) == before.push(paths@[i as int]@));
            }
            i = i + 1;
        }
        assert(ps.take(paths@.len() as int) == ps);
        let batch = BatchTrash { paths, safe };
        if batch.safe.len() == 0 {
            let mut out: Vec<TrashResult> = Vec::new();
            let mut j: usize = 0;
            while j < batch.paths.len()
                invariant
                    j <= batch.paths@.len(),
                    out@.len() == j,
                    forall|x: int| 0 <= x < j ==> result_view(#[trigger] out@[x]) == (batch.requested()[x], false),
                decreases batch.paths@.len() - j,
            {
                out.push(TrashResult { path: batch.paths[j].clone(), success: false });
                j = j + 1;
            }
            assert(out@.map_values(|t: TrashResult| result_view(t)) =~= all_failed(views(batch.paths@)));
            (batch, TrashAction::Report(out))
        } else {
            let args = batch.safe.clone();
            assert(views(args@) =~= views(batch.safe@));
            (batch, TrashAction::RunTrashCommand(args))
        }
    }

    /// After the `trash` command: when it succeeded, report the batch; else ask Finder
    /// to delete the safe paths with one AppleScript.
    pub fn after_trash_command(&self, success: bool) -> (r: TrashAction)
        ensures
            success ==> (r matches TrashAction::Report(v) && v@.map_values(|t: TrashResult| result_view(t))
                == batch_report(self.requested(), self.safe())),
            !success ==> (r matches TrashAction::RunFinderScript(s) && s@
                == finder_delete_all_script_spec(self.safe())),
    {
        if success {
            TrashAction::Report(self.report())
        } else {
            TrashAction::RunFinderScript(finder_delete_all_script(&self.safe))
        }
    }

    /// After the Finder script: when it succeeded, report the batch; else move each
    /// path on its own.
    pub fn after_finder_script(&self, success: bool) -> (r: TrashAction)
        ensures
            success ==> (r matches TrashAction::Report(v) && v@.map_values(|t: TrashResult| result_view(t))
                == batch_report(self.requested(), self.safe())),
            !success ==> r is TrashEachOnItsOwn,
    {
        if success {
            TrashAction::Report(self.report())
        } else {
            TrashAction::TrashEachOnItsOwn
        }
    }
}

/// What to do next to move one path to the Trash.
pub enum SingleTrashStep {
    /// Nothing more to run: whether the path was trashed.
    Done(bool),
    /// Run the `trash` command with the path as its argument.
    RunTrashCommand,
    /// Run this AppleScript with `osascript -e`; its success is the outcome.
    RunFinderScript(String),
}

/// Starts moving one path to the Trash: a blocked path is refused, else the `trash`
/// command is run.
pub fn single_trash_start(path: &str, home: Option<&str>) -> (r: SingleTrashStep)
    ensures
        !is_path_safe_spec(path@, home_view(home)) ==> r == SingleTrashStep::Done(false),
        is_path_safe_spec(path@, home_view(home)) ==> r is RunTrashCommand,
{
    if is_path_safe(path, home) {
        SingleTrashStep::RunTrashCommand
    } else {
        SingleTrashStep::Done(false)
    }
}

/// After the `trash` command for one path: done when it succeeded, else ask Finder.
pub fn single_after_trash_command(path: &str, success: bool) -> (r: SingleTrashStep)
    ensures
        success ==> r == SingleTrashStep::Done(true),
        !success ==> (r matches SingleTrashStep::RunFinderScript(s) && s@ == finder_delete_script_spec(
            path@,
        )),
{
    if success {
        SingleTrashStep::Done(true)
    } else {
        SingleTrashStep::RunFinderScript(finder_delete_script(path))
    }
}

/// What trimming a trailing run of `c` leaves: a prefix of `s`, followed in `s` only
/// by copies of `c`, and not itself ending in `c`.
proof fn lemma_trim_end_char_shape(s: Seq<char>, c: char)
    ensures
        trim_end_char(s, c).len() <= s.len(),
        trim_end_char(s, c) == s.take(trim_end_char(s, c).len() as int),
        forall|k: int| trim_end_char(s, c).len() <= k < s.len() ==> s[k] == c,
        trim_end_char(s, c).len() > 0 ==> trim_end_char(s, c).last() != c,
    decreases s.len(),
{
    if s.len() > 0 && s.last() == c {
        lemma_trim_end_char_shape(s.drop_last(), c);
        let t = trim_end_char(s.drop_last(), c);
        assert(s.drop_last().take(t.len() as int) == s.take(t.len() as int));
        assert forall|k: int| t.len() <= k < s.len() implies s[k] == c by {
            if k < s.len() - 1 {
                assert(s.drop_last()[k] == s[k]);
            }
        }
    } else {
        assert(s.take(s.len() as int) == s);
    }
}

/// Trailing slashes do not change whether a path may be trashed.
pub proof fn lemma_trailing_slashes_irrelevant(path: Seq<char>, slashes: Seq<char>, home: Option<Seq<char>>)
    requires
        forall|k: int| 0 <= k < slashes.len() ==> slashes[k] == '/',
    ensures
        is_path_safe_spec(path + slashes, home) == is_path_safe_spec(path, home),
    decreases slashes.len(),
{
    if slashes.len() == 0 {
        assert(path + slashes == path);
    } else {
        let shorter = slashes.drop_last();
        lemma_trailing_slashes_irrelevant(path, shorter, home);
        assert((path + slashes).drop_last() == path + shorter);
        assert((path + slashes).last() == '/');
        assert(trim_end_char(path + slashes, '/') == trim_end_char(path + shorter, '/'));
    }
}

/// A path that does not end in `/` is its own normal form.
proof fn lemma_normalized_fixed(p: Seq<char>)
    requires
        p.len() > 0,
        p.last() != '/',
    ensures
        normalized_path(p) == p,
{
}

/// The blocked paths can never be trashed, whatever the home directory.
pub proof fn lemma_blocked_paths_refused(i: int, home: Option<Seq<char>>)
    requires
        0 <= i < blocked_paths().len(),
    ensures
        !is_path_safe_spec(blocked_paths()[i], home),
{
    let b = blocked_paths()[i];
    if i == 0 {
        reveal_strlit("/");
        assert(b.last() == '/');
        assert(b.drop_last().len() == 0);
        assert(trim_end_char(b.drop_last(), '/') == b.drop_last());
        assert(trim_end_char(b, '/').len() == 0);
        assert(normalized_path(b) == b);
    } else {
        lemma_blocked_paths_shape(i);
        lemma_normalized_fixed(b);
    }
    assert(blocked_paths().contains(b));
}

/// Every blocked path but `/` is non-empty and does not end in `/`.
proof fn lemma_blocked_paths_shape(i: int)
    requires
        1 <= i < blocked_paths().len(),
    ensures
        blocked_paths()[i].len() > 0,
        blocked_paths()[i].last() != '/',
{
    reveal_strlit("/System");
    reveal_strlit("/System/Library");
    reveal_strlit("/Library");
    reveal_strlit("/Users");
    reveal_strlit("/Applications");
    reveal_strlit("/bin");
    reveal_strlit("/sbin");
    reveal_strlit("/usr");
    reveal_strlit("/usr/bin");
    reveal_strlit("/usr/lib");
    reveal_strlit("/usr/local");
    reveal_strlit("/usr/sbin");
    reveal_strlit("/etc");
    reveal_strlit("/var");
    reveal_strlit("/tmp");
    reveal_strlit("/private");
    reveal_strlit("/private/etc");
    reveal_strlit("/private/var");
    reveal_strlit("/private/tmp");
    reveal_strlit("/opt");
    reveal_strlit("/opt/homebrew");
    reveal_strlit("/Volumes");
    reveal_strlit("/cores");
    reveal_strlit("/dev");
    reveal_strlit("/net");
    reveal_strlit("/home");
}

/// The home directory itself can never be trashed, with or without trailing slashes.
pub proof fn lemma_home_refused(home: Seq<char>)
    ensures
        !is_path_safe_spec(home, Some(home)),
{
    let t = trim_end_char(home, '/');
    if t.len() == 0 {
        reveal_strlit("/");
        assert(normalized_path(home) == blocked_paths()[0]);
        assert(blocked_paths().contains(normalized_path(home)));
    }
}

/// Each blocked prefix is a blocked path followed by `/`: the index of that path.
proof fn lemma_prefix_is_blocked_path(i: int) -> (j: int)
    requires
        0 <= i < blocked_prefixes().len(),
    ensures
        1 <= j < blocked_paths().len(),
        blocked_prefixes()[i] == blocked_paths()[j].push('/'),
{
    reveal_strlit("/System/");
    reveal_strlit("/usr/");
    reveal_strlit("/bin/");
    reveal_strlit("/sbin/");
    reveal_strlit("/private/etc/");
    reveal_strlit("/private/var/");
    reveal_strlit("/System");
    reveal_strlit("/usr");
    reveal_strlit("/bin");
    reveal_strlit("/sbin");
    reveal_strlit("/private/etc");
    reveal_strlit("/private/var");
    if i == 0 {
        assert(blocked_prefixes()[0] =~= blocked_paths()[1].push('/'));
        1
    } else if i == 1 {
        assert(blocked_prefixes()[1] =~= blocked_paths()[8].push('/'));
        8
    } else if i == 2 {
        assert(blocked_prefixes()[2] =~= blocked_paths()[6].push('/'));
        6
    } else if i == 3 {
        assert(blocked_prefixes()[3] =~= blocked_paths()[7].push('/'));
        7
    } else if i == 4 {
        assert(blocked_prefixes()[4] =~= blocked_paths()[17].push('/'));
        17
    } else {
        assert(blocked_prefixes()[5] =~= blocked_paths()[18].push('/'));
        18
    }
}

/// Nothing under a blocked prefix (such as `/System/`) can be trashed.
pub proof fn lemma_blocked_prefix_refused(path: Seq<char>, i: int, home: Option<Seq<char>>)
    requires
        0 <= i < blocked_prefixes().len(),
        starts_with(path, blocked_prefixes()[i]),
    ensures
        !is_path_safe_spec(path, home),
{
    let pre = blocked_prefixes()[i];
    let j = lemma_prefix_is_blocked_path(i);
    let q = blocked_paths()[j];
    lemma_blocked_paths_shape(j);
    lemma_trim_end_char_shape(path, '/');
    let n = trim_end_char(path, '/');
    let k = n.len() as int;
    assert(path[q.len() - 1] == pre[q.len() - 1]);
    assert(pre[q.len() - 1] == q.last());
    if k < q.len() {
        assert(path[q.len() - 1] == '/');
    } else if k == q.len() {
        assert(n =~= q) by {
            assert forall|x: int| 0 <= x < k implies n[x] == q[x] by {
                assert(n[x] == path[x]);
                assert(path[x] == pre[x]);
            }
        }
        assert(normalized_path(path) == q);
        assert(blocked_paths().contains(q));
    } else {
        assert(n.take(pre.len() as int) =~= pre) by {
            assert forall|x: int| 0 <= x < pre.len() implies n[x] == pre[x] by {
                assert(n[x] == path[x]);
            }
        }
        assert(normalized_path(path) == n);
        assert(starts_with(n, blocked_prefixes()[i]));
    }
}

/// The paths kept for trashing are exactly the requested paths that may be trashed.
pub proof fn lemma_safe_paths_exact(paths: Seq<Seq<char>>, home: Option<Seq<char>>, x: Seq<char>)
    ensures
        safe_paths_spec(paths, home).contains(x) <==> (paths.contains(x) && is_path_safe_spec(
            x,
            home,
        )),
    decreases paths.len(),
{
    if paths.len() > 0 {
        let rest = paths.drop_last();
        lemma_safe_paths_exact(rest, home, x);
        assert(paths == rest.push(paths.last()));
        if paths.contains(x) && x != paths.last() {
            let k = paths.index_of(x);
            assert(rest[k] == x);
        }
        if rest.contains(x) {
            let k = rest.index_of(x);
            assert(paths[k] == x);
        }
        if safe_paths_spec(paths, home).contains(x) && x == paths.last() {
            assert(paths[paths.len() - 1] == x);
        }
        if is_path_safe_spec(paths.last(), home) {
            let sp = safe_paths_spec(rest, home).push(paths.last());
            assert(sp[sp.len() - 1] == paths.last());
            if safe_paths_spec(rest, home).contains(x) {
                let k = safe_paths_spec(rest, home).index_of(x);
                assert(sp[k] == x);
            }
            if sp.contains(x) && x != paths.last() {
                let k = sp.index_of(x);
                assert(safe_paths_spec(rest, home)[k] == x);
            }
        }
    }
}

/// In the report of a batch that went through, each requested path succeeds exactly
/// when it may be trashed; the results follow the order of the request.
pub proof fn lemma_batch_success_iff_safe(paths: Seq<Seq<char>>, home: Option<Seq<char>>, i: int)
    requires
        0 <= i < paths.len(),
    ensures
        batch_report(paths, safe_paths_spec(paths, home)).len() == paths.len(),
        batch_report(paths, safe_paths_spec(paths, home))[i] == (paths[i], is_path_safe_spec(
            paths[i],
            home,
        )),
{
    lemma_safe_paths_exact(paths, home, paths[i]);
    assert(paths.contains(paths[i]));
}

} // verus!
