use vstd::prelude::*;
use crate::text::{contains, contains_str, ends_with, ends_with_str, lowercase, starts_with, starts_with_str, to_lowercase, trim, trim_str};
use crate::keyed::KeyedVec;
use crate::types::TrashResult;

verus! {

/// The four-byte type code of the preferred icon entry at `rank`
/// (0 is best), for display at about 64 px.
pub open spec fn preferred_icon_type(rank: int) -> Seq<u8> {
    if rank == 0 {
        seq![0x69u8, 0x63, 0x31, 0x32]  // ic12: 64x64@2x
    } else if rank == 1 {
        seq![0x69u8, 0x63, 0x31, 0x31]  // ic11: 32x32@2x
    } else if rank == 2 {
        seq![0x69u8, 0x63, 0x30, 0x37]  // ic07: 128x128
    } else if rank == 3 {
        seq![0x69u8, 0x63, 0x70, 0x35]  // icp5: 32x32
    } else if rank == 4 {
        seq![0x69u8, 0x63, 0x30, 0x38]  // ic08: 256x256
    } else if rank == 5 {
        seq![0x69u8, 0x63, 0x31, 0x33]  // ic13: 128x128@2x
    } else if rank == 6 {
        seq![0x69u8, 0x63, 0x30, 0x39]  // ic09: 512x512
    } else if rank == 7 {
        seq![0x69u8, 0x63, 0x31, 0x30]  // ic10: 1024x1024
    } else {
        seq![0x69u8, 0x63, 0x31, 0x34]  // ic14: 256x256@2x
    }
}

/// Number of preferred icon types.
pub open spec fn preferred_icon_count() -> int {
    9
}

/// The rank of icon type `t` among the preferred types, if it is one.
pub open spec fn icon_rank(t: Seq<u8>) -> Option<int> {
    icon_rank_from(t, 0)
}

pub open spec fn icon_rank_from(t: Seq<u8>, rank: int) -> Option<int>
    decreases preferred_icon_count() - rank,
{
    if rank >= preferred_icon_count() || rank < 0 {
        None
    } else if t == preferred_icon_type(rank) {
        Some(rank)
    } else {
        icon_rank_from(t, rank + 1)
    }
}

/// Big-endian 32-bit value of the four bytes of `data` at `at`.
pub open spec fn be_u32(data: Seq<u8>, at: int) -> int {
    data[at] as int * 0x1000000 + data[at + 1] as int * 0x10000 + data[at + 2] as int * 0x100
        + data[at + 3] as int
}

/// The eight-byte signature of a PNG stream starts with 0x89 'P' 'N' 'G'.
pub open spec fn starts_with_png_magic(data: Seq<u8>, at: int) -> bool {
    &&& data[at] == 0x89u8
    &&& data[at + 1] == 0x50u8
    &&& data[at + 2] == 0x4Eu8
    &&& data[at + 3] == 0x47u8
}

/// Rank given to a PNG entry whose type is not a preferred one.
pub open spec fn fallback_rank() -> int {
    usize::MAX as int
}

/// A candidate icon: its rank and the range `[start, end)` of its PNG data.
pub type IconChoice = (int, int, int);

/// The choice after looking at one PNG entry of type `t` whose data spans `[start, end)`:
/// a preferred type replaces the current choice unless that one ranks at least as well;
/// any PNG entry is taken when nothing has been chosen yet.
pub open spec fn consider_png_entry(
    best: Option<IconChoice>,
    t: Seq<u8>,
    start: int,
    end: int,
) -> Option<IconChoice> {
    let ranked = match icon_rank(t) {
        Some(r) => match best {
            Some(b) => if b.0 <= r {
                best
            } else {
                Some((r, start, end))
            },
            None => Some((r, start, end)),
        },
        None => best,
    };
    match ranked {
        Some(_) => ranked,
        None => Some((fallback_rank(), start, end)),
    }
}

/// Walk of the entries of an icns container from byte `pos`, carrying the current choice.
/// Each entry is a 4-byte type, a 4-byte big-endian size (header included), then data.
/// The walk stops at the first entry whose size is below 8 or runs past the end.
pub open spec fn icns_walk(data: Seq<u8>, pos: int, best: Option<IconChoice>) -> Option<IconChoice>
    decreases data.len() - pos,
{
    if pos < 0 || pos + 8 > data.len() {
        best
    } else {
        let size = be_u32(data, pos + 4);
        if size < 8 || pos + size > data.len() {
            best
        } else {
            let start = pos + 8;
            let end = pos + size;
            let next = if end - start >= 8 && starts_with_png_magic(data, start) {
                consider_png_entry(best, data.subrange(pos, pos + 4), start, end)
            } else {
                best
            };
            icns_walk(data, pos + size, next)
        }
    }
}

/// Whether `data` starts with the icns container header ("icns" and a length).
pub open spec fn is_icns_container(data: Seq<u8>) -> bool {
    &&& data.len() >= 8
    &&& data[0] == 0x69u8
    &&& data[1] == 0x63u8
    &&& data[2] == 0x6Eu8
    &&& data[3] == 0x73u8
}

/// The embedded PNG that an icns container offers for display, if any.
pub open spec fn icns_png(data: Seq<u8>) -> Option<Seq<u8>> {
    if !is_icns_container(data) {
        None
    } else {
        match icns_walk(data, 8, None) {
            Some(c) => Some(data.subrange(c.1, c.2)),
            None => None,
        }
    }
}

/// A choice whose range lies in `data` after the container header, holds at least
/// eight bytes and starts with the PNG signature.
pub open spec fn is_png_choice(data: Seq<u8>, c: IconChoice) -> bool {
    &&& 16 <= c.1
    &&& c.1 + 8 <= c.2 <= data.len()
    &&& starts_with_png_magic(data, c.1)
}

proof fn lemma_walk_keeps_png_choice(data: Seq<u8>, pos: int, best: Option<IconChoice>)
    requires
        pos >= 8,
        best matches Some(c) ==> is_png_choice(data, c),
    ensures
        icns_walk(data, pos, best) matches Some(c) ==> is_png_choice(data, c),
    decreases data.len() - pos,
{
    if !(pos < 0 || pos + 8 > data.len()) {
        let size = be_u32(data, pos + 4);
        if !(size < 8 || pos + size > data.len()) {
            let start = pos + 8;
            let end = pos + size;
            let next = if end - start >= 8 && starts_with_png_magic(data, start) {
                consider_png_entry(best, data.subrange(pos, pos + 4), start, end)
            } else {
                best
            };
            lemma_walk_keeps_png_choice(data, pos + size, next);
        }
    }
}

/// The icon taken from an icns container is a run of at least eight bytes of the
/// file, after its header, that starts with the PNG signature.
pub proof fn lemma_icns_png_is_png(data: Seq<u8>)
    ensures
        icns_png(data) matches Some(png) ==> {
            &&& png.len() >= 8
            &&& png[0] == 0x89u8 && png[1] == 0x50u8 && png[2] == 0x4Eu8 && png[3] == 0x47u8
            &&& exists|start: int| 16 <= start && start + png.len() <= data.len()
                && #[trigger] data.subrange(start, start + png.len()) == png
        },
{
    if is_icns_container(data) {
        lemma_walk_keeps_png_choice(data, 8, None);
        if let Some(c) = icns_walk(data, 8, None) {
            let png = data.subrange(c.1, c.2);
            assert(data.subrange(c.1, c.1 + png.len()) == png);
        }
    }
}

/// The preferred icon types, best first, for display at about 64 px: `ic12`
/// (64x64@2x), `ic11` (32x32@2x), `ic07` (128x128), `icp5` (32x32), `ic08` (256x256),
/// `ic13` (128x128@2x), `ic09` (512x512), `ic10` (1024x1024), `ic14` (256x256@2x); any
/// other type has no rank.
pub proof fn lemma_icon_rank_table(t: Seq<u8>)
    ensures
        icon_rank(t) == if t == seq![0x69u8, 0x63u8, 0x31u8, 0x32u8] {
            Some(0int)
        } else if t == seq![0x69u8, 0x63u8, 0x31u8, 0x31u8] {
            Some(1int)
        } else if t == seq![0x69u8, 0x63u8, 0x30u8, 0x37u8] {
            Some(2int)
        } else if t == seq![0x69u8, 0x63u8, 0x70u8, 0x35u8] {
            Some(3int)
        } else if t == seq![0x69u8, 0x63u8, 0x30u8, 0x38u8] {
            Some(4int)
        } else if t == seq![0x69u8, 0x63u8, 0x31u8, 0x33u8] {
            Some(5int)
        } else if t == seq![0x69u8, 0x63u8, 0x30u8, 0x39u8] {
            Some(6int)
        } else if t == seq![0x69u8, 0x63u8, 0x31u8, 0x30u8] {
            Some(7int)
        } else if t == seq![0x69u8, 0x63u8, 0x31u8, 0x34u8] {
            Some(8int)
        } else {
            None
        },
{
    reveal_with_fuel(icon_rank_from, 10);
}

/// A PNG entry of type `ic12` (64x64@2x) takes the place of any choice but an earlier
/// `ic12` entry, and once an `ic12` entry is chosen no later entry of any type takes
/// its place: the icon taken is the first `ic12` PNG whenever there is one.
pub proof fn lemma_ic12_wins(best: Option<IconChoice>, t: Seq<u8>, start: int, end: int)
    requires
        best matches Some(b) ==> b.0 >= 0,
    ensures
        consider_png_entry(best, seq![0x69u8, 0x63u8, 0x31u8, 0x32u8], start, end) == match best {
            Some(b) => if b.0 == 0 {
                best
            } else {
                Some((0int, start, end))
            },
            None => Some((0int, start, end)),
        },
        best matches Some(b) && b.0 == 0 ==> consider_png_entry(best, t, start, end) == best,
{
    lemma_icon_rank_table(seq![0x69u8, 0x63u8, 0x31u8, 0x32u8]);
    lemma_icon_rank_table(t);
}

fn icon_rank_exec(t0: u8, t1: u8, t2: u8, t3: u8) -> (r: Option<usize>)
    ensures
        r matches Some(k) ==> icon_rank(seq![t0, t1, t2, t3]) == Some(k as int),
        r is None ==> icon_rank(seq![t0, t1, t2, t3]) is None,
{
    let ghost t = seq![t0, t1, t2, t3];
    let mut rank: usize = 0;
    while rank < 9
        invariant
            rank <= 9,
            t == seq![t0, t1, t2, t3],
            icon_rank(t) == icon_rank_from(t, rank as int),
        decreases 9 - rank,
    {
        let (p0, p1, p2, p3): (u8, u8, u8, u8) = if rank == 0 {
            (0x69, 0x63, 0x31, 0x32)
        } else if rank == 1 {
            (0x69, 0x63, 0x31, 0x31)
        } else if rank == 2 {
            (0x69, 0x63, 0x30, 0x37)
        } else if rank == 3 {
            (0x69, 0x63, 0x70, 0x35)
        } else if rank == 4 {
            (0x69, 0x63, 0x30, 0x38)
        } else if rank == 5 {
            (0x69, 0x63, 0x31, 0x33)
        } else if rank == 6 {
            (0x69, 0x63, 0x30, 0x39)
        } else if rank == 7 {
            (0x69, 0x63, 0x31, 0x30)
        } else {
            (0x69, 0x63, 0x31, 0x34)
        };
        assert(preferred_icon_type(rank as int) == seq![p0, p1, p2, p3]);
        if t0 == p0 && t1 == p1 && t2 == p2 && t3 == p3 {
            assert(t == preferred_icon_type(rank as int));
            return Some(rank);
        }
        assert(t != preferred_icon_type(rank as int)) by {
            if t == preferred_icon_type(rank as int) {
                assert(t[0] == p0 && t[1] == p1 && t[2] == p2 && t[3] == p3);
            }
        }
        rank = rank + 1;
    }
    None
}

/// Extract the embedded PNG from the bytes of an .icns file.
/// Among entries holding PNG data, the one whose type ranks best for ~64 px display
/// is chosen (the first of equal rank); without a preferred one, the first PNG entry.
pub fn extract_png_from_icns(data: &[u8]) -> (r: Option<Vec<u8>>)
    ensures
        r matches Some(v) ==> icns_png(data@) == Some(v@),
        r is None ==> icns_png(data@) is None,
{
    let n = data.len();
    if n < 8 || !(data[0] == 0x69 && data[1] == 0x63 && data[2] == 0x6E && data[3] == 0x73) {
        return None;
    }
    let mut best: Option<(usize, usize, usize)> = None;
    let mut pos: usize = 8;
    while pos <= n && 8 <= n - pos
        invariant
            n == data@.len(),
            8 <= pos <= n,
            is_icns_container(data@),
            icns_walk(data@, 8, None) == icns_walk(data@, pos as int, choice_view(best)),
            best matches Some(b) ==> 8 <= b.1 <= b.2 <= n,
        ensures
            icns_walk(data@, 8, None) == choice_view(best),
            best matches Some(b) ==> 8 <= b.1 <= b.2 <= n,
        decreases n - pos,
    {
        let size: u64 = (data[pos + 4] as u64) * 0x1000000 + (data[pos + 5] as u64) * 0x10000
            + (data[pos + 6] as u64) * 0x100 + (data[pos + 7] as u64);
        assert(size as int == be_u32(data@, pos + 4));
        if size < 8 || size > (n - pos) as u64 {
            assert(icns_walk(data@, pos as int, choice_view(best)) == choice_view(best));
            break;
        }
        let end: usize = pos + size as usize;
        let start: usize = pos + 8;
        if end - start >= 8 && data[start] == 0x89 && data[start + 1] == 0x50 && data[start + 2]
            == 0x4E && data[start + 3] == 0x47 {
            let rank = icon_rank_exec(data[pos], data[pos + 1], data[pos + 2], data[pos + 3]);
            assert(data@.subrange(pos as int, pos + 4) == seq![
                data@[pos as int],
                data@[pos + 1],
                data@[pos + 2],
                data@[pos + 3],
            ]);
            match rank {
                Some(r) => {
                    let keep = match best {
                        Some(b) => b.0 <= r,
                        None => false,
                    };
                    if !keep {
                        best = Some((r, start, end));
                    }
                },
                None => {},
            }
            if best.is_none() {
                best = Some((usize::MAX, start, end));
            }
        }
        pos = end;
    }
    match best {
        Some(b) => {
            let mut out: Vec<u8> = Vec::new();
            let mut i = b.1;
            while i < b.2
                invariant
                    b.1 <= i <= b.2 <= data@.len(),
                    out@ == data@.subrange(b.1 as int, i as int),
                decreases b.2 - i,
            {
                out.push(data[i]);
                i = i + 1;
            }
            Some(out)
        },
        None => None,
    }
}

/// The spec view of an executable choice.
pub open spec fn choice_view(best: Option<(usize, usize, usize)>) -> Option<IconChoice> {
    match best {
        Some(b) => Some((b.0 as int, b.1 as int, b.2 as int)),
        None => None,
    }
}


/// A copy of the bytes of `v`.
fn copy_bytes(v: &Vec<u8>) -> (r: Vec<u8>)
    ensures
        r@ == v@,
{
    let mut r: Vec<u8> = Vec::new();
    let mut i: usize = 0;
    while i < v.len()
        invariant
            i <= v@.len(),
            r@ == v@.take(i as int),
        decreases v@.len() - i,
    {
        r.push(v[i]);
        i = i + 1;
        assert(r@ == v@.take(i as int));
    }
    assert(v@.take(v@.len() as int) == v@);
    r
}

/// The view of a cached icon: the PNG bytes, or `None` when the app has none.
pub open spec fn icon_view(v: Option<Vec<u8>>) -> Option<Seq<u8>> {
    match v {
        Some(b) => Some(b@),
        None => None,
    }
}

/// In-memory cache of app icon PNGs, by app path; an app without an icon is cached
/// as `None` too.
pub struct IconCache {
    icons: KeyedVec<Option<Vec<u8>>>,
}

impl IconCache {
    /// The icons held, by app path.
    pub closed spec fn icons(&self) -> Map<Seq<char>, Option<Seq<u8>>> {
        Map::new(
            |k: Seq<char>| self.icons.map().dom().contains(k),
            |k: Seq<char>| icon_view(self.icons.map()[k]),
        )
    }

    /// An empty cache.
    pub fn new() -> (r: Self)
        ensures
            r.icons() == Map::<Seq<char>, Option<Seq<u8>>>::empty(),
    {
        let r = IconCache { icons: KeyedVec::new() };
        assert(r.icons() =~= Map::<Seq<char>, Option<Seq<u8>>>::empty());
        r
    }

    /// The cached icon of the app at `app_path`: `None` when nothing is cached,
    /// `Some(None)` when the app is known to have no icon.
    pub fn get(&self, app_path: &str) -> (r: Option<Option<Vec<u8>>>)
        ensures
            r is None <==> !self.icons().dom().contains(app_path@),
            r matches Some(v) ==> icon_view(v) == self.icons()[app_path@],
    {
        match self.icons.get(app_path) {
            Some(Some(b)) => Some(Some(copy_bytes(b))),
            Some(None) => Some(None),
            None => None,
        }
    }

    /// Caches `icon` for the app at `app_path`, replacing what was cached.
    pub fn insert(&mut self, app_path: String, icon: Option<Vec<u8>>)
        ensures
            final(self).icons() == old(self).icons().insert(app_path@, icon_view(icon)),
    {
        let ghost k = app_path@;
        let ghost v = icon_view(icon);
        self.icons.set(app_path, icon);
        assert(self.icons() =~= old(self).icons().insert(k, v));
    }
}

/// Reading the cache after caching an icon for an app (`insert`) gives that icon
/// (`get`); what is cached for other apps is unchanged.
pub proof fn lemma_icon_cache_read_after_write(
    before: IconCache,
    after: IconCache,
    app_path: Seq<char>,
    icon: Option<Seq<u8>>,
    other: Seq<char>,
)
    requires
        after.icons() == before.icons().insert(app_path, icon),
    ensures
        after.icons().dom().contains(app_path),
        after.icons()[app_path] == icon,
        other != app_path ==> (after.icons().dom().contains(other) == before.icons().dom().contains(
            other,
        )),
        other != app_path && before.icons().dom().contains(other) ==> after.icons()[other]
            == before.icons()[other],
{
}

/// Shared state of the app.
pub struct AppState {
    /// In-memory cache for app icon PNGs.
    pub icon_cache: IconCache,
    /// Time of the last Spotlight reindex request (ms since the epoch; 0 for none).
    pub last_reindex_time: u64,
}

impl Default for AppState {
    fn default() -> (r: Self)
        ensures
            r.icon_cache.icons() == Map::<Seq<char>, Option<Seq<u8>>>::empty(),
            r.last_reindex_time == 0,
    {
        AppState { icon_cache: IconCache::new(), last_reindex_time: 0 }
    }
}

/// Version info response.
pub struct VersionInfo {
    pub version: String,
    pub built: String,
}

/// Version info: the package version and the build time, `dev` when none was recorded.
pub fn get_version(version: &str, built: Option<&str>) -> (r: VersionInfo)
    ensures
        r.version@ == version@,
        r.built@ == match built {
            Some(b) => b@,
            None => "dev"@,
        },
{
    let built = match built {
        Some(b) => b.to_string(),
        None => "dev".to_string(),
    };
    VersionInfo { version: version.to_string(), built }
}

/// Spotlight status response.
pub struct SpotlightStatus {
    pub indexing: bool,
    pub enabled: bool,
    pub raw: String,
}

/// After a reindex request, Spotlight is reported as indexing for this long (5 minutes).
pub open spec fn grace_ms() -> int {
    300_000
}

/// Whether the lowercase `mdutil -s /` output says indexing is in progress.
pub open spec fn reports_indexing_lower(lower: Seq<char>) -> bool {
    contains(lower, "indexing"@) && contains(lower, "progress"@)
}

/// Whether `mdutil -s /` output says indexing is in progress.
pub open spec fn reports_indexing(text: Seq<char>) -> bool {
    reports_indexing_lower(lowercase(text))
}

/// Whether less than five minutes went by at `now` since a reindex request at
/// `last_reindex` (0 for none).
pub open spec fn in_grace_period(last_reindex: u64, now: u64) -> bool {
    last_reindex > 0 && (if now >= last_reindex {
        now - last_reindex
    } else {
        0
    }) < grace_ms()
}

/// Whether Spotlight is reported as indexing at time `now`, given the `mdutil -s /`
/// output and the time of the last reindex request (0 for none): the output says so,
/// or less than five minutes went by since the request.
pub open spec fn spotlight_indexing(text: Seq<char>, last_reindex: u64, now: u64) -> bool {
    reports_indexing(text) || in_grace_period(last_reindex, now)
}

/// For five minutes after a successful reindex request, Spotlight is reported as
/// indexing whatever `mdutil` says (a request at time 0 is not recorded).
pub proof fn lemma_reindex_grace_period(requested_at: u64, now: u64, text: Seq<char>)
    requires
        requested_at > 0,
        now < requested_at + grace_ms(),
    ensures
        spotlight_indexing(text, requested_at, now),
{
}

/// Once neither `mdutil` nor the grace period reports indexing, no request time is
/// kept, so later status checks go by `mdutil` alone.
pub proof fn lemma_status_after_clear(text: Seq<char>, now: u64)
    ensures
        spotlight_indexing(text, 0, now) == reports_indexing(text),
{
}

/// Spotlight status from the output `text` of `mdutil -s /` and its lowercase form
/// `lower`, at time `now`: indexing when the output says so or a reindex was
/// requested less than five minutes ago; once neither holds, the request time is
/// cleared.
pub fn spotlight_status_from(state: &mut AppState, text: &str, lower: &str, now: u64) -> (r:
    SpotlightStatus)
    ensures
        final(state).icon_cache == old(state).icon_cache,
        r.indexing == (reports_indexing_lower(lower@) || in_grace_period(
            old(state).last_reindex_time,
            now,
        )),
        r.enabled == contains(lower@, "enabled"@),
        r.raw@ == trim(text@),
        final(state).last_reindex_time == if !r.indexing {
            0
        } else {
            old(state).last_reindex_time
        },
{
    let mut indexing = contains_str(lower, "indexing") && contains_str(lower, "progress");
    let enabled = contains_str(lower, "enabled");
    let last = state.last_reindex_time;
    if !indexing && last > 0 && now.saturating_sub(last) < 300_000 {
        indexing = true;
    }
    if !indexing && last > 0 {
        state.last_reindex_time = 0;
    }
    SpotlightStatus { indexing, enabled, raw: trim_str(text) }
}

/// Spotlight status from the output of `mdutil -s /` at time `now`: indexing when
/// the output says so or a reindex was requested less than five minutes ago; once
/// neither holds, the request time is cleared.
pub fn spotlight_status(state: &mut AppState, text: &str, now: u64) -> (r: SpotlightStatus)
    ensures
        final(state).icon_cache == old(state).icon_cache,
        r.indexing == spotlight_indexing(text@, old(state).last_reindex_time, now),
        r.enabled == contains(lowercase(text@), "enabled"@),
        r.raw@ == trim(text@),
        final(state).last_reindex_time == if !r.indexing {
            0
        } else {
            old(state).last_reindex_time
        },
{
    let lower = to_lowercase(text);
    spotlight_status_from(state, text, lower.as_str(), now)
}

/// Outcome of a Spotlight reindex request, from whether `osascript` succeeded and its
/// standard error: success records the request time; a cancelled dialog (error
/// `-128`) gives `cancelled`; any other failure gives the error text.
pub fn reindex_spotlight(state: &mut AppState, success: bool, stderr: &str, now: u64) -> (r: Result<(), String>)
    ensures
        final(state).icon_cache == old(state).icon_cache,
        success ==> r is Ok && final(state).last_reindex_time == now,
        !success ==> final(state).last_reindex_time == old(state).last_reindex_time,
        !success && contains(stderr@, "-128"@) ==> (r matches Err(e) && e@ == "cancelled"@),
        !success && !contains(stderr@, "-128"@) ==> (r matches Err(e) && e@ == stderr@),
{
    if success {
        state.last_reindex_time = now;
        Ok(())
    } else if contains_str(stderr, "-128") {
        Err("cancelled".to_string())
    } else {
        Err(stderr.to_string())
    }
}

/// Permission check result.
pub struct Permission {
    pub id: String,
    pub name: String,
    pub description: String,
    pub granted: bool,
    pub deep_link: String,
}

pub open spec fn permission_view(p: Permission) -> (Seq<char>, Seq<char>, Seq<char>, bool, Seq<char>) {
    (p.id@, p.name@, p.description@, p.granted, p.deep_link@)
}

/// The permissions the app asks for, with whether each is granted.
pub open spec fn permissions_spec(full_disk_access: bool, automation: bool, app_management: bool) -> Seq<
    (Seq<char>, Seq<char>, Seq<char>, bool, Seq<char>),
> {
    seq![
        (
            "full-disk-access"@,
            "Full Disk Access"@,
            "Required for scanning Safari caches, iCloud data, and protected ~/Library directories"@,
            full_disk_access,
            "x-apple.systempreferences:com.apple.preference.security?Privacy_AllFiles"@,
        ),
        (
            "automation"@,
            "Automation (Finder)"@,
            "Required for moving files to Trash via Finder \u{2014} the safe deletion method"@,
            automation,
            "x-apple.systempreferences:com.apple.preference.security?Privacy_Automation"@,
        ),
        (
            "app-management"@,
            "App Management"@,
            "Allows uninstalling apps from /Applications"@,
            app_management,
            "x-apple.systempreferences:com.apple.preference.security?Privacy_AppManagement"@,
        ),
    ]
}

/// The macOS privacy permissions, given the outcome of each probe.
pub fn check_permissions(full_disk_access: bool, automation: bool, app_management: bool) -> (r: Vec<
    Permission,
>)
    ensures
        r@.map_values(|p: Permission| permission_view(p)) == permissions_spec(
            full_disk_access,
            automation,
            app_management,
        ),
{
    let r = vec![
        Permission {
            id: "full-disk-access".to_string(),
            name: "Full Disk Access".to_string(),
            description: "Required for scanning Safari caches, iCloud data, and protected ~/Library directories".to_string(),
            granted: full_disk_access,
            deep_link: "x-apple.systempreferences:com.apple.preference.security?Privacy_AllFiles".to_string(),
        },
        Permission {
            id: "automation".to_string(),
            name: "Automation (Finder)".to_string(),
            description: "Required for moving files to Trash via Finder \u{2014} the safe deletion method".to_string(),
            granted: automation,
            deep_link: "x-apple.systempreferences:com.apple.preference.security?Privacy_Automation".to_string(),
        },
        Permission {
            id: "app-management".to_string(),
            name: "App Management".to_string(),
            description: "Allows uninstalling apps from /Applications".to_string(),
            granted: app_management,
            deep_link: "x-apple.systempreferences:com.apple.preference.security?Privacy_AppManagement".to_string(),
        },
    ];
    assert(r@.map_values(|p: Permission| permission_view(p)) =~= permissions_spec(
        full_disk_access,
        automation,
        app_management,
    ));
    r
}

/// Whether a Unix permission mode lets someone write (any write bit set).
pub fn mode_allows_write(mode: u32) -> (r: bool)
    ensures
        r == (mode & 0o222u32 != 0),
{
    mode & 0o222 != 0
}

/// The home directory: `HOME` when set, else `/Users/<USER>` (`USER` empty when unset).
pub fn home_directory(home: Option<&str>, user: Option<&str>) -> (r: String)
    ensures
        r@ == match home {
            Some(h) => h@,
            None => "/Users/"@ + match user {
                Some(u) => u@,
                None => Seq::empty(),
            },
        },
{
    match home {
        Some(h) => h.to_string(),
        None => {
            let mut s = "/Users/".to_string();
            match user {
                Some(u) => {
                    s.append(u);
                },
                None => {},
            }
            s
        },
    }
}

/// Checks a System Settings deep link before opening it: it must start with
/// `x-apple.systempreferences:`.
pub fn open_settings(deep_link: &str) -> (r: Result<(), String>)
    ensures
        starts_with(deep_link@, "x-apple.systempreferences:"@) ==> r is Ok,
        !starts_with(deep_link@, "x-apple.systempreferences:"@) ==> (r matches Err(e) && e@
            == "Invalid deep link"@),
{
    if !starts_with_str(deep_link, "x-apple.systempreferences:") {
        return Err("Invalid deep link".to_string());
    }
    Ok(())
}

/// Trash operation response.
pub struct TrashResponse {
    pub results: Vec<TrashResult>,
}

/// Path of the `Info.plist` of an app bundle.
pub fn icon_plist_path(app_path: &str) -> (r: String)
    ensures
        r@ == app_path@ + "/Contents/Info.plist"@,
{
    let mut s = app_path.to_string();
    s.append("/Contents/Info.plist");
    s
}

/// The icon file named by `plutil -extract CFBundleIconFile raw` output: the trimmed
/// output with `.icns` added when missing; `None` when the output is blank.
pub open spec fn icns_file_name_spec(output: Seq<char>) -> Option<Seq<char>> {
    let name = trim(output);
    if name.len() == 0 {
        None
    } else if ends_with(name, ".icns"@) {
        Some(name)
    } else {
        Some(name + ".icns"@)
    }
}

/// The icon file named by `plutil` output.
pub fn icns_file_name(output: &str) -> (r: Option<String>)
    ensures
        r.deep_view() == icns_file_name_spec(output@),
{
    let mut name = trim_str(output);
    if name.as_str().is_empty() {
        return None;
    }
    if !ends_with_str(name.as_str(), ".icns") {
        name.append(".icns");
    }
    Some(name)
}

/// Path of an icon file inside an app bundle.
pub fn icns_path(app_path: &str, icon_name: &str) -> (r: String)
    ensures
        r@ == app_path@ + "/Contents/Resources/"@ + icon_name@,
{
    let mut s = app_path.to_string();
    s.append("/Contents/Resources/");
    s.append(icon_name);
    s
}

} // verus!
