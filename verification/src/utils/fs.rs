use vstd::prelude::*;
use crate::text::{chars_of, views};

verus! {

/// Entry from a directory listing, including type info.
#[derive(Debug, Clone)]
pub struct DirEntry {
    pub name: String,
    pub path: String,
    pub is_directory: bool,
}

/// What the metadata of a directory entry says of it.
#[derive(Debug, Clone, Copy, PartialEq, Eq, Structural)]
pub enum EntryKind {
    /// A regular file of this many bytes.
    File(u64),
    /// A directory.
    Directory,
    /// Anything else (neither a file nor a directory).
    Other,
}

/// A directory entry whose metadata could be read.
#[derive(Debug, Clone)]
pub struct SizedEntry {
    pub path: String,
    pub kind: EntryKind,
}

/// Sum of the file sizes among `entries`.
pub open spec fn file_bytes(entries: Seq<SizedEntry>) -> int
    decreases entries.len(),
{
    if entries.len() == 0 {
        0
    } else {
        file_bytes(entries.drop_last()) + match entries.last().kind {
            EntryKind::File(n) => n as int,
            _ => 0,
        }
    }
}

/// The paths of the directories among `entries`, in order.
pub open spec fn dir_paths(entries: Seq<SizedEntry>) -> Seq<Seq<char>>
    decreases entries.len(),
{
    if entries.len() == 0 {
        Seq::empty()
    } else if entries.last().kind is Directory {
        dir_paths(entries.drop_last()).push(entries.last().path@)
    } else {
        dir_paths(entries.drop_last())
    }
}

/// Size of a directory tree, computed by walking it with a stack: the caller pops a
/// directory with `next_dir`, lists it, and hands its readable entries to
/// `add_entries`; files add their size, directories are pushed to be walked.
pub struct SizeWalk {
    stack: Vec<String>,
    total: u64,
}

impl SizeWalk {
    /// Directories still to walk (the last is walked next).
    pub closed spec fn pending(&self) -> Seq<Seq<char>> {
        views(self.stack@)
    }

    /// Bytes counted so far.
    pub closed spec fn counted(&self) -> u64 {
        self.total
    }

    /// A walk that starts at `path`.
    pub fn new(path: String) -> (r: Self)
        ensures
            r.pending() == seq![path@],
            r.counted() == 0,
    {
        let r = SizeWalk { stack: vec![path], total: 0 };
        assert(views(r.stack@) =~= seq![r.stack@[0]@]);
        r
    }

    /// The next directory to list, if any is left.
    pub fn next_dir(&mut self) -> (r: Option<String>)
        ensures
            old(self).pending().len() == 0 ==> r is None && final(self).pending() == old(self).pending(),
            old(self).pending().len() > 0 ==> (r matches Some(d) && d@ == old(self).pending().last()
                && final(self).pending() == old(self).pending().drop_last()),
            final(self).counted() == old(self).counted(),
    {
        let r = self.stack.pop();
        proof {
            if old(self).stack@.len() > 0 {
                assert(views(self.stack@) =~= views(old(self).stack@).drop_last());
            }
        }
        r
    }

    /// Whether the files among `entries` can be added without passing `u64::MAX`.
    pub fn can_add(&self, entries: &Vec<SizedEntry>) -> (r: bool)
        ensures
            r == (self.counted() + file_bytes(entries@) <= u64::MAX),
    {
        let mut t: u64 = self.total;
        let mut i: usize = 0;
        assert(entries@.take(0) =~= Seq::<SizedEntry>::empty());
        while i < entries.len()
            invariant
                i <= entries@.len(),
                t == self.total + file_bytes(entries@.take(i as int)),
            decreases entries@.len() - i,
        {
            assert(entries@.take(i + 1).drop_last() == entries@.take(i as int));
            match entries[i].kind {
                EntryKind::File(n) => {
                    if n > u64::MAX - t {
                        proof {
                            lemma_file_bytes_prefix(entries@, i + 1);
                        }
                        return false;
                    }
                    t = t + n;
                },
                _ => {},
            }
            i = i + 1;
        }
        assert(entries@.take(entries@.len() as int) == entries@);
        true
    }

    /// Counts the files of a listed directory and pushes its subdirectories.
    pub fn add_entries(&mut self, entries: Vec<SizedEntry>)
        requires
            old(self).counted() + file_bytes(entries@) <= u64::MAX,
        ensures
            final(self).counted() == old(self).counted() + file_bytes(entries@),
            final(self).pending() == old(self).pending() + dir_paths(entries@),
    {
        let ghost start = views(self.stack@);
        let ghost start_total = self.total;
        let mut i: usize = 0;
        assert(entries@.take(0) =~= Seq::<SizedEntry>::empty());
        assert(start + Seq::<Seq<char>>::empty() == start);
        while i < entries.len()
            invariant
                i <= entries@.len(),
                start_total + file_bytes(entries@) <= u64::MAX,
                self.total == start_total + file_bytes(entries@.take(i as int)),
                views(self.stack@) == start + dir_paths(entries@.take(i as int)),
            decreases entries@.len() - i,
        {
            assert(entries@.take(i + 1).drop_last() == entries@.take(i as int));
            assert(entries@.take(i + 1).last() == entries@[i as int]);
            proof {
                lemma_file_bytes_prefix(entries@, i + 1);
            }
            match &entries[i].kind {
                EntryKind::File(n) => {
                    self.total = self.total + *n;
                },
                EntryKind::Directory => {
                    let ghost before = views(self.stack@);
                    self.stack.push(entries[i].path.clone());
                    assert(views(self.stack@) == before.push(entries@[i as int].path@));
                },
                EntryKind::Other => {},
            }
            i = i + 1;
        }
        assert(entries@.take(entries@.len() as int) == entries@);
    }

    /// The total size once the walk is over.
    pub fn total(&self) -> (r: u64)
        ensures
            r == self.counted(),
    {
        self.total
    }
}

/// A prefix of the entries holds no more file bytes than all of them.
pub proof fn lemma_file_bytes_prefix(entries: Seq<SizedEntry>, i: int)
    requires
        0 <= i <= entries.len(),
    ensures
        file_bytes(entries.take(i)) <= file_bytes(entries),
    decreases entries.len() - i,
{
    if i < entries.len() {
        lemma_file_bytes_prefix(entries, i + 1);
        assert(entries.take(i + 1).drop_last() == entries.take(i));
    } else {
        assert(entries.take(i) == entries);
    }
}


/// What `std::path::Path::parent` gives for the path `p`.
pub uninterp spec fn path_parent(p: Seq<char>) -> Option<Seq<char>>;

/// What `std::path::Path::file_name` gives for the path `p`: its last component,
/// if it has one.
pub uninterp spec fn path_file_name(p: Seq<char>) -> Option<Seq<char>>;

/// Whether the path `p` is the root `/`: it starts with `/`, and each later component
/// is empty (repeated separators) or `.`, both of which `Path`'s components skip.
pub open spec fn is_root_path(p: Seq<char>) -> bool {
    &&& p.len() > 0
    &&& p[0] == '/'
    &&& forall|i: int|
        1 <= i < p.len() ==> (#[trigger] p[i] == '/' || (p[i] == '.' && p[i - 1] == '/' && (i + 1
            == p.len() || p[i + 1] == '/')))
}

/// Calls `std::path::Path::parent` on `p`; the contract only names the result.
#[verifier::external_body]
pub(crate) fn parent_of(p: &str) -> (r: Option<String>)
    ensures
        r.deep_view() == path_parent(p@),
{
    std::path::Path::new(p).parent().map(|q| q.to_string_lossy().to_string())
}

/// Whether `p` is the root directory, as `std::path::Path::new(p) == Path::new("/")`
/// decides it by comparing components.
pub fn is_root(p: &str) -> (r: bool)
    ensures
        r == is_root_path(p@),
{
    let cs = chars_of(p);
    let n = cs.len();
    if n == 0 || cs[0] != '/' {
        return false;
    }
    let mut i: usize = 1;
    while i < n
        invariant
            1 <= i <= n,
            n == cs@.len(),
            cs@ == p@,
            p@[0] == '/',
            forall|j: int|
                1 <= j < i ==> (#[trigger] p@[j] == '/' || (p@[j] == '.' && p@[j - 1] == '/' && (j
                    + 1 == p@.len() || p@[j + 1] == '/'))),
        decreases n - i,
    {
        let c = cs[i];
        let ok = c == '/' || (c == '.' && cs[i - 1] == '/' && (i + 1 == n || cs[i + 1] == '/'));
        if !ok {
            return false;
        }
        i = i + 1;
    }
    true
}

/// Calls `std::path::Path::file_name` on `p`; the contract only names the result.
#[verifier::external_body]
pub(crate) fn file_name_of(p: &str) -> (r: Option<String>)
    ensures
        r.deep_view() == path_file_name(p@),
{
    std::path::Path::new(p).file_name().map(|n| n.to_string_lossy().to_string())
}

} // verus!
