use vstd::prelude::*;
use crate::pattern::{
    capture_group, capture_group_exec, regex_captures, regex_captures_exec,
};
use crate::text::{
    after_last, after_last_str, chars_of, contains, contains_str, ends_with, ends_with_str,
    find_char, find_char_from, lowercase, nonempty_pieces, nonempty_pieces_str, replace_all,
    replace_str, starts_with, starts_with_str, str_eq, to_lowercase, trim, trim_end_seq,
    trim_end_str, trim_str, views,
};
use crate::lexical::{
    lemma_seq_lt_asymmetric, lemma_seq_lt_irreflexive, lemma_seq_lt_total,
    lemma_seq_lt_transitive, seq_lt, str_less,
};
use crate::keyed::KeyedVec;
use crate::utils::fs::{file_name_of, path_file_name};
use crate::types::{AppInfo, AppUninstallData};

verus! {

pub open spec fn is_ascii_letter(c: char) -> bool {
    ('a' <= c <= 'z') || ('A' <= c <= 'Z')
}

/// A character of `[a-zA-Z0-9-]`.
pub open spec fn is_label_char(c: char) -> bool {
    is_ascii_letter(c) || ('0' <= c <= '9') || c == '-'
}

/// A character of `[a-zA-Z0-9.-]`.
pub open spec fn is_tail_char(c: char) -> bool {
    is_label_char(c) || c == '.'
}

/// Whether `s` has the shape of a reverse-DNS bundle identifier, such as
/// `com.example.app`: the whole of `s` matches `^[a-zA-Z][a-zA-Z0-9-]*\.[a-zA-Z][a-zA-Z0-9.-]*$`,
/// that is, a letter, then letters, digits and `-` up to the first `.`, then a letter,
/// then letters, digits, `.` and `-`.
pub open spec fn bundle_id_shape(s: Seq<char>) -> bool {
    exists|i: int|
        {
            &&& 1 <= i
            &&& i + 1 < s.len()
            &&& #[trigger] s[i] == '.'
            &&& is_ascii_letter(s[0])
            &&& is_ascii_letter(s[i + 1])
            &&& forall|j: int| 1 <= j < i ==> is_label_char(#[trigger] s[j])
            &&& forall|j: int| i + 1 < j < s.len() ==> is_tail_char(#[trigger] s[j])
        }
}

/// Runs `regex::Regex::new` on the bundle ID pattern and `Regex::is_match` on `name`.
/// The contract states the language of that pattern (`bundle_id_shape`): `^` and `$`
/// anchor at the ends of the text, and the classes hold ASCII ranges only.
#[verifier::external_body]
fn bundle_id_shaped(name: &str) -> (r: bool)
    ensures
        r == bundle_id_shape(name@),
{
    match regex::Regex::new(r"^[a-zA-Z][a-zA-Z0-9-]*\.[a-zA-Z][a-zA-Z0-9.-]*$") {
        Ok(re) => re.is_match(name),
        Err(_) => false,
    }
}

/// Minimum app size to show in the uninstaller list (1 MB).
pub open spec fn min_app_size() -> u64 {
    0x10_0000
}

/// The text between the first double quote of `t` and the next one.
pub open spec fn quoted_value(t: Seq<char>) -> Option<Seq<char>> {
    match find_char(t, '"') {
        Some(a) => match find_char(t.skip(a + 1), '"') {
            Some(b) => Some(t.subrange(a + 1, a + 1 + b)),
            None => None,
        },
        None => None,
    }
}

/// Extract a quoted string value from `mdls` output (`kMDItemSomething = "value"`).
pub fn extract_quoted_value(text: &str) -> (r: Option<String>)
    ensures
        r.deep_view() == quoted_value(text@),
{
    let cs = chars_of(text);
    assert(cs@.skip(0) == cs@);
    let a = match find_char_from(&cs, 0, '"') {
        Some(a) => a,
        None => {
            return None;
        },
    };
    assert(a < cs.len());
    let start = a + 1;
    assert(cs@.skip(start as int) == cs@.skip(0).skip(a + 1));
    let b = match find_char_from(&cs, start, '"') {
        Some(b) => b,
        None => {
            return None;
        },
    };
    Some(text.substring_char(start, start + b).to_string())
}

/// The bundle ID for a directory name, given whether the name has the shape of a
/// reverse-DNS identifier (`matches`) and its lowercase form (`lower`): the lowercase
/// form when it has that shape.
pub fn bundle_id_if_match(matches: bool, lower: String) -> (r: Option<String>)
    ensures
        r.deep_view() == (if matches {
            Some(lower@)
        } else {
            None
        }),
{
    if matches {
        Some(lower)
    } else {
        None
    }
}

/// Extract a likely bundle ID from a directory name: its lowercase form, when the
/// name has the shape of a reverse-DNS identifier.
pub fn extract_bundle_id(dir_name: &str) -> (r: Option<String>)
    ensures
        r.deep_view() == (if bundle_id_shape(dir_name@) {
            Some(lowercase(dir_name@))
        } else {
            None
        }),
{
    let matches = bundle_id_shaped(dir_name);
    if matches {
        bundle_id_if_match(true, to_lowercase(dir_name))
    } else {
        bundle_id_if_match(false, String::new())
    }
}

/// Whether an already lowercase bundle ID starts with one of the prefixes of Apple
/// and system services.
pub open spec fn has_system_prefix(lower: Seq<char>) -> bool {
    ||| starts_with(lower, "com.apple."@)
    ||| starts_with(lower, "com.microsoft.rdc"@)
    ||| starts_with(lower, "group.com.apple."@)
    ||| starts_with(lower, "systemgroup."@)
}

/// Whether the lowercase form of `bundle_id` starts with one of the prefixes of
/// Apple and system services.
pub open spec fn is_system_bundle_id_spec(bundle_id: Seq<char>) -> bool {
    has_system_prefix(lowercase(bundle_id))
}

/// Whether a lowercase bundle ID belongs to a system/Apple service.
pub fn is_system_lowercase_id(lower: &str) -> (r: bool)
    ensures
        r == has_system_prefix(lower@),
{
    starts_with_str(lower, "com.apple.") || starts_with_str(lower, "com.microsoft.rdc")
        || starts_with_str(lower, "group.com.apple.") || starts_with_str(lower, "systemgroup.")
}

/// Check if a bundle ID belongs to a system/Apple service; those are never flagged.
pub fn is_system_bundle_id(bundle_id: &str) -> (r: bool)
    ensures
        r == is_system_bundle_id_spec(bundle_id@),
{
    let lower = to_lowercase(bundle_id);
    is_system_lowercase_id(lower.as_str())
}

/// The app paths that `mdfind` printed: the non-empty lines of its trimmed output.
pub fn app_paths_from_mdfind(stdout: &str) -> (r: Vec<String>)
    ensures
        views(r@) == nonempty_pieces(trim(stdout@), '\n'),
{
    let text = trim_str(stdout);
    nonempty_pieces_str(text.as_str(), '\n')
}

/// Whether an `mdfind` result line is an app bundle to list for uninstalling: not
/// under `/System/`, not in `/Library/Apple/`, and ending in `.app`.
pub open spec fn is_listable_app_path(p: Seq<char>) -> bool {
    &&& p.len() > 0
    &&& !starts_with(p, "/System/"@)
    &&& !contains(p, "/Library/Apple/"@)
    &&& ends_with(p, ".app"@)
}

/// The listable app paths among `ps`, in order.
pub open spec fn listable_app_paths(ps: Seq<Seq<char>>) -> Seq<Seq<char>>
    decreases ps.len(),
{
    if ps.len() == 0 {
        Seq::empty()
    } else if is_listable_app_path(ps.last()) {
        listable_app_paths(ps.drop_last()).push(ps.last())
    } else {
        listable_app_paths(ps.drop_last())
    }
}

/// The app bundles that `mdfind` printed that the uninstaller lists.
pub fn listable_apps_from_mdfind(stdout: &str) -> (r: Vec<String>)
    ensures
        views(r@) == listable_app_paths(nonempty_pieces(trim(stdout@), '\n')),
{
    let lines = app_paths_from_mdfind(stdout);
    let ghost ls = views(lines@);
    let mut out: Vec<String> = Vec::new();
    let mut i: usize = 0;
    assert(ls.take(0) == Seq::<Seq<char>>::empty());
    assert(views(out@) == Seq::<Seq<char>>::empty());
    while i < lines.len()
        invariant
            i <= lines@.len(),
            ls == views(lines@),
            views(out@) == listable_app_paths(ls.take(i as int)),
        decreases lines@.len() - i,
    {
        assert(ls.take(i + 1).drop_last() == ls.take(i as int));
        assert(ls.take(i + 1).last() == lines@[i as int]@);
        let p = lines[i].as_str();
        if !p.is_empty() && !starts_with_str(p, "/System/") && !contains_str(p, "/Library/Apple/")
            && ends_with_str(p, ".app") {
            let ghost before = out@;
            out.push(p.to_string());
            assert(views(out@) == views(before).push(p@));
        }
        i = i + 1;
    }
    assert(ls.take(lines@.len() as int) == ls);
    out
}

pub open spec fn bundle_id_line_pattern() -> Seq<char> {
    "kMDItemCFBundleIdentifier\\s*=\\s*\"([^\"]+)\""@
}

pub open spec fn display_name_line_pattern() -> Seq<char> {
    "kMDItemDisplayName\\s*=\\s*\"([^\"]+)\""@
}

/// Bundle ID and display name of an app, given the bundle ID quoted in its `mdls`
/// output (if any), whether that ID is a system one, the display name quoted there
/// (if any) and the file name of the bundle path (if any): `None` without an ID or
/// for a system ID; the display name falls back to the file name without `.app`.
pub open spec fn app_identity_from(
    bundle_id: Option<Seq<char>>,
    id_is_system: bool,
    display_name: Option<Seq<char>>,
    file_name: Option<Seq<char>>,
) -> Option<(Seq<char>, Seq<char>)> {
    match bundle_id {
        Some(id) => if id_is_system {
            None
        } else {
            let name = match display_name {
                Some(n) => n,
                None => trim_end_seq(
                    match file_name {
                        Some(f) => f,
                        None => Seq::empty(),
                    },
                    ".app"@,
                ),
            };
            Some((id, name))
        },
        None => None,
    }
}

/// Bundle ID and display name of the app at `app_path` from its `mdls` output.
pub open spec fn app_identity_spec(app_path: Seq<char>, mdls: Seq<char>) -> Option<(Seq<char>, Seq<char>)> {
    let id = capture_group(regex_captures(bundle_id_line_pattern(), mdls), 1);
    app_identity_from(
        id,
        match id {
            Some(i) => is_system_bundle_id_spec(i),
            None => false,
        },
        capture_group(regex_captures(display_name_line_pattern(), mdls), 1),
        path_file_name(app_path),
    )
}

/// Bundle ID and display name of an app from the parts read from `mdls` and its path.
pub fn app_identity_from_parts(
    bundle_id: Option<String>,
    id_is_system: bool,
    display_name: Option<String>,
    file_name: Option<String>,
) -> (r: Option<(String, String)>)
    ensures
        r matches Some(x) ==> app_identity_from(
            bundle_id.deep_view(),
            id_is_system,
            display_name.deep_view(),
            file_name.deep_view(),
        ) == Some((x.0@, x.1@)),
        r is None ==> app_identity_from(
            bundle_id.deep_view(),
            id_is_system,
            display_name.deep_view(),
            file_name.deep_view(),
        ) is None,
{
    let id = match bundle_id {
        Some(id) => id,
        None => {
            return None;
        },
    };
    if id_is_system {
        return None;
    }
    let name = match display_name {
        Some(n) => n,
        None => {
            let f = match file_name {
                Some(f) => f,
                None => String::new(),
            };
            proof {
                reveal_strlit("");
            }
            trim_end_str(f.as_str(), ".app")
        },
    };
    Some((id, name))
}

/// Bundle ID and display name of the app at `app_path` from the output of `mdls` for it.
pub fn app_identity_from_mdls(app_path: &str, mdls: &str) -> (r: Option<(String, String)>)
    ensures
        r matches Some(x) ==> app_identity_spec(app_path@, mdls@) == Some((x.0@, x.1@)),
        r is None ==> app_identity_spec(app_path@, mdls@) is None,
{
    let caps = regex_captures_exec("kMDItemCFBundleIdentifier\\s*=\\s*\"([^\"]+)\"", mdls);
    let bundle_id = capture_group_exec(&caps, 1);
    let id_is_system = match &bundle_id {
        Some(id) => is_system_bundle_id(id.as_str()),
        None => false,
    };
    let name_caps = regex_captures_exec("kMDItemDisplayName\\s*=\\s*\"([^\"]+)\"", mdls);
    let display_name = capture_group_exec(&name_caps, 1);
    let file_name = file_name_of(app_path);
    app_identity_from_parts(bundle_id, id_is_system, display_name, file_name)
}

/// The uninstaller entry for an app, unless the bundle is smaller than 1 MB.
pub fn app_info(app_path: &str, bundle_id: String, name: String, app_size: u64) -> (r: Option<AppInfo>)
    ensures
        app_size < min_app_size() ==> r is None,
        app_size >= min_app_size() ==> (r matches Some(a) && a.name == name && a.path@ == app_path@
            && a.bundle_id == bundle_id && a.app_size == app_size),
{
    if app_size < 1024 * 1024 {
        None
    } else {
        Some(AppInfo { name, path: app_path.to_string(), bundle_id, app_size })
    }
}

/// `~/Library` subdirectories holding data of apps, in scan order.
pub open spec fn library_subdirs() -> Seq<Seq<char>> {
    seq![
        "Application Support"@,
        "Caches"@,
        "Containers"@,
        "Logs"@,
        "Preferences"@,
        "Saved Application State"@,
        "WebKit"@,
        "HTTPStorages"@,
    ]
}

/// The `~/Library` subdirectories holding data of apps.
pub fn library_subdirs_exec() -> (r: Vec<String>)
    ensures
        views(r@) == library_subdirs(),
{
    let r = vec![
        "Application Support".to_string(),
        "Caches".to_string(),
        "Containers".to_string(),
        "Logs".to_string(),
        "Preferences".to_string(),
        "Saved Application State".to_string(),
        "WebKit".to_string(),
        "HTTPStorages".to_string(),
    ];
    assert(views(r@) =~= library_subdirs());
    r
}

/// Whether the entry of `~/Library/<subdir>` whose lowercase name is `lower` belongs
/// to the app with lowercase bundle ID `id_lower` and lowercase name `app_lower`: the
/// entry is named as the bundle ID, or as the app name without `.app` (with or without
/// `.app` after it), or, in `Preferences`, as the bundle ID followed by `.plist` or
/// `.savedstate`.
pub open spec fn is_app_data_lower_spec(
    subdir: Seq<char>,
    lower: Seq<char>,
    id_lower: Seq<char>,
    app_lower: Seq<char>,
) -> bool {
    let name_lower = replace_all(app_lower, ".app"@, Seq::empty());
    ||| lower == id_lower
    ||| lower == name_lower
    ||| lower == name_lower + ".app"@
    ||| subdir == "Preferences"@ && (lower == id_lower + ".plist"@ || lower == id_lower
        + ".savedstate"@)
}

/// Whether the entry `entry_name` of `~/Library/<subdir>` belongs to the app, compared
/// in lowercase.
pub open spec fn is_app_data_spec(
    subdir: Seq<char>,
    entry_name: Seq<char>,
    bundle_id: Seq<char>,
    app_name: Seq<char>,
) -> bool {
    is_app_data_lower_spec(subdir, lowercase(entry_name), lowercase(bundle_id), lowercase(app_name))
}

/// Whether an entry of `~/Library/<subdir>` belongs to the app, from the lowercase
/// forms of the entry name, the bundle ID and the app name.
pub fn is_app_data_lower(subdir: &str, lower: &str, id_lower: &str, app_lower: &str) -> (r: bool)
    ensures
        r == is_app_data_lower_spec(subdir@, lower@, id_lower@, app_lower@),
{
    let name_lower = replace_str(app_lower, ".app", "");
    proof {
        reveal_strlit("");
        assert(""@ =~= Seq::<char>::empty());
    }
    let mut name_app = name_lower.clone();
    name_app.append(".app");
    let mut id_plist = id_lower.to_string();
    id_plist.append(".plist");
    let mut id_saved = id_lower.to_string();
    id_saved.append(".savedstate");
    str_eq(lower, id_lower) || str_eq(lower, name_lower.as_str()) || str_eq(lower, name_app.as_str())
        || (str_eq(subdir, "Preferences") && (str_eq(lower, id_plist.as_str()) || str_eq(
        lower,
        id_saved.as_str(),
    )))
}

/// Whether an entry of `~/Library/<subdir>` belongs to the app.
pub fn is_app_data(subdir: &str, entry_name: &str, bundle_id: &str, app_name: &str) -> (r: bool)
    ensures
        r == is_app_data_spec(subdir@, entry_name@, bundle_id@, app_name@),
{
    let lower = to_lowercase(entry_name);
    let id_lower = to_lowercase(bundle_id);
    let app_lower = to_lowercase(app_name);
    is_app_data_lower(subdir, lower.as_str(), id_lower.as_str(), app_lower.as_str())
}

/// The uninstall entry for an item of `~/Library/<subdir>`, labelled `<subdir>/<name>`.
pub fn app_data_item(path: String, subdir: &str, entry_name: &str, size: u64) -> (r: AppUninstallData)
    ensures
        r.path == path,
        r.label@ == subdir@ + "/"@ + entry_name@,
        r.size == size,
{
    let mut label = subdir.to_string();
    label.append("/");
    label.append(entry_name);
    AppUninstallData { path, label, size }
}


/// The lowercase bundle IDs of the installed apps.
pub struct InstalledApps {
    ids: KeyedVec<()>,
}

impl View for InstalledApps {
    type V = Set<Seq<char>>;

    closed spec fn view(&self) -> Set<Seq<char>> {
        self.ids.map().dom()
    }
}

impl InstalledApps {
    /// No installed app known yet.
    pub fn new() -> (r: Self)
        ensures
            r@ == Set::<Seq<char>>::empty(),
    {
        InstalledApps { ids: KeyedVec::new() }
    }

    /// Whether `bundle_id` is held (exactly, as given).
    pub fn contains(&self, bundle_id: &str) -> (r: bool)
        ensures
            r == self@.contains(bundle_id@),
    {
        self.ids.get(bundle_id).is_some()
    }

    /// Records the app whose `mdls` output for `kMDItemCFBundleIdentifier` is
    /// `mdls`: its quoted bundle ID, in lowercase, when there is one.
    pub fn record_mdls_output(&mut self, mdls: &str)
        ensures
            final(self)@ == match quoted_value(mdls@) {
                Some(id) => old(self)@.insert(lowercase(id)),
                None => old(self)@,
            },
    {
        match extract_quoted_value(mdls) {
            Some(id) => {
                let lower = to_lowercase(id.as_str());
                self.ids.set(lower, ());
            },
            None => {},
        }
    }
}

/// Once the `mdls` output of an app with a quoted bundle ID is recorded, that ID in
/// lowercase counts as installed, and so does every ID known before.
pub proof fn lemma_recorded_app_is_installed(
    before: InstalledApps,
    after: InstalledApps,
    mdls: Seq<char>,
    other: Seq<char>,
)
    requires
        after@ == match quoted_value(mdls) {
            Some(id) => before@.insert(lowercase(id)),
            None => before@,
        },
    ensures
        quoted_value(mdls) matches Some(id) ==> after@.contains(lowercase(id)),
        before@.contains(other) ==> after@.contains(other),
{
}

/// The apps of `s` named `n`, in their order in `s`.
pub open spec fn with_name(s: Seq<AppInfo>, n: Seq<char>) -> Seq<AppInfo>
    decreases s.len(),
{
    if s.len() == 0 {
        Seq::empty()
    } else if s[0].name@ == n {
        seq![s[0]] + with_name(s.drop_first(), n)
    } else {
        with_name(s.drop_first(), n)
    }
}

/// Names never decrease along `s`.
pub open spec fn sorted_by_name(s: Seq<AppInfo>) -> bool {
    forall|i: int, j: int| 0 <= i < j < s.len() ==> !seq_lt(s[j].name@, s[i].name@)
}

/// `r` is `s` sorted by name, apps of equal name kept in their order
/// (what a stable `sort_by(|a, b| a.name.cmp(&b.name))` gives).
pub open spec fn is_stable_name_sort(s: Seq<AppInfo>, r: Seq<AppInfo>) -> bool {
    &&& sorted_by_name(r)
    &&& forall|n: Seq<char>| #[trigger] with_name(r, n) == with_name(s, n)
}

proof fn lemma_with_name_add(a: Seq<AppInfo>, b: Seq<AppInfo>, n: Seq<char>)
    ensures
        with_name(a + b, n) == with_name(a, n) + with_name(b, n),
    decreases a.len(),
{
    if a.len() == 0 {
        assert(a + b == b);
    } else {
        assert((a + b).drop_first() == a.drop_first() + b);
        lemma_with_name_add(a.drop_first(), b, n);
    }
}

proof fn lemma_with_name_none(s: Seq<AppInfo>, n: Seq<char>)
    requires
        forall|i: int| 0 <= i < s.len() ==> (#[trigger] s[i]).name@ != n,
    ensures
        with_name(s, n) == Seq::<AppInfo>::empty(),
    decreases s.len(),
{
    if s.len() > 0 {
        lemma_with_name_none(s.drop_first(), n);
    }
}

/// Inserting `x` after the apps named before it and before the others keeps the
/// order sorted, and puts `x` first among the apps of its name.
proof fn lemma_insert_by_name(before: Seq<AppInfo>, p: int, x: AppInfo, rest: Seq<AppInfo>)
    requires
        0 <= p <= before.len(),
        sorted_by_name(before),
        forall|i: int| 0 <= i < p ==> seq_lt((#[trigger] before[i]).name@, x.name@),
        forall|i: int| p <= i < before.len() ==> !seq_lt((#[trigger] before[i]).name@, x.name@),
        forall|n: Seq<char>| #[trigger] with_name(before, n) == with_name(rest, n),
    ensures
        sorted_by_name(before.take(p) + seq![x] + before.skip(p)),
        forall|n: Seq<char>| #[trigger]
            with_name(before.take(p) + seq![x] + before.skip(p), n) == with_name(seq![x] + rest, n),
{
    let pre = before.take(p);
    let post = before.skip(p);
    let out = pre + seq![x] + post;
    assert(before == pre + post);
    assert forall|n: Seq<char>| #[trigger] with_name(out, n) == with_name(seq![x] + rest, n) by {
        lemma_with_name_add(pre + seq![x], post, n);
        lemma_with_name_add(pre, seq![x], n);
        lemma_with_name_add(pre, post, n);
        lemma_with_name_add(seq![x], rest, n);
        assert(seq![x].drop_first() == Seq::<AppInfo>::empty());
        if n == x.name@ {
            assert forall|i: int| 0 <= i < pre.len() implies (#[trigger] pre[i]).name@ != n by {
                assert(pre[i] == before[i]);
                lemma_seq_lt_irreflexive(n);
            }
            lemma_with_name_none(pre, n);
            assert(Seq::<AppInfo>::empty() + with_name(seq![x], n) == with_name(seq![x], n));
            assert(Seq::<AppInfo>::empty() + with_name(post, n) == with_name(post, n));
        } else {
            assert(seq![x][0] == x);
            assert(with_name(Seq::<AppInfo>::empty(), n) == Seq::<AppInfo>::empty());
            assert(with_name(seq![x], n) == Seq::<AppInfo>::empty());
            assert(Seq::<AppInfo>::empty() + with_name(rest, n) == with_name(rest, n));
            assert(with_name(pre, n) + Seq::<AppInfo>::empty() == with_name(pre, n));
        }
    }
    assert forall|i: int, j: int| 0 <= i < j < out.len() implies !seq_lt(out[j].name@, out[i].name@) by {
        if j < p {
            assert(out[i] == before[i] && out[j] == before[j]);
        } else if j == p {
            assert(out[i] == before[i]);
            lemma_seq_lt_asymmetric(before[i].name@, x.name@);
        } else if i < p {
            assert(out[i] == before[i]);
            assert(out[j] == before[j - 1]);
        } else if i == p {
            assert(out[j] == before[j - 1]);
        } else {
            assert(out[i] == before[i - 1]);
            assert(out[j] == before[j - 1]);
        }
    }
}

/// Sorts the apps by name, keeping apps of equal name in their order.
pub fn sort_apps_by_name(v: Vec<AppInfo>) -> (r: Vec<AppInfo>)
    ensures
        is_stable_name_sort(v@, r@),
        r@.len() == v@.len(),
{
    let ghost orig = v@;
    let mut v = v;
    let mut out: Vec<AppInfo> = Vec::new();
    while v.len() > 0
        invariant
            v@ == orig.take(v@.len() as int),
            v@.len() <= orig.len(),
            sorted_by_name(out@),
            out@.len() + v@.len() == orig.len(),
            forall|n: Seq<char>| #[trigger]
                with_name(out@, n) == with_name(orig.skip(v@.len() as int), n),
        decreases v@.len(),
    {
        let ghost n = v@.len();
        let x = v.pop().unwrap();
        let mut p: usize = 0;
        while p < out.len() && str_less(out[p].name.as_str(), x.name.as_str())
            invariant
                p <= out@.len(),
                forall|i: int| 0 <= i < p ==> seq_lt((#[trigger] out@[i]).name@, x.name@),
            decreases out@.len() - p,
        {
            p = p + 1;
        }
        let ghost before = out@;
        proof {
            assert forall|i: int| p <= i < before.len() implies !seq_lt(
                (#[trigger] before[i]).name@,
                x.name@,
            ) by {
                if i > p {
                    let a = before[i].name@;
                    let b = before[p as int].name@;
                    assert(!seq_lt(a, b));
                    assert(!seq_lt(b, x.name@));
                    if seq_lt(a, x.name@) {
                        lemma_seq_lt_total(b, x.name@);
                        if b == x.name@ {
                        } else {
                            lemma_seq_lt_transitive(a, x.name@, b);
                        }
                    }
                }
            }
        }
        out.insert(p, x);
        proof {
            assert(out@ == before.take(p as int) + seq![x] + before.skip(p as int));
            assert(orig.skip(n - 1) == seq![x] + orig.skip(n as int));
            lemma_insert_by_name(before, p as int, x, orig.skip(n as int));
        }
    }
    proof {
        assert(orig.skip(0) == orig);
    }
    out
}

} // verus!
