use vstd::prelude::*;
use crate::findings::{build_scan_result, lemma_scan_total_fits, is_scan_of, sum_keys};
use crate::text::{replace_first_char, replace_first_char_str, str_eq};
use crate::types::{Effort, Finding, ScanResult};

verus! {

/// A known cache location: path (with `~` for the home directory), label, and why
/// it is safe to remove.
#[derive(Debug, Clone)]
pub struct CacheTarget {
    pub path: String,
    pub label: String,
    pub reason: String,
}

pub open spec fn target_view(t: CacheTarget) -> (Seq<char>, Seq<char>, Seq<char>) {
    (t.path@, t.label@, t.reason@)
}

/// Known cache locations on macOS, in scan order.
pub open spec fn cache_targets_spec() -> Seq<(Seq<char>, Seq<char>, Seq<char>)> {
    seq![
        ("~/Library/Caches/Google/Chrome"@, "Chrome cache"@, "Browser cache \u{2014} Chrome will rebuild it"@),
        ("~/Library/Caches/com.google.Chrome"@, "Chrome app cache"@, "Browser cache \u{2014} Chrome will rebuild it"@),
        ("~/Library/Caches/Firefox"@, "Firefox cache"@, "Browser cache \u{2014} Firefox will rebuild it"@),
        ("~/Library/Caches/com.apple.Safari"@, "Safari cache"@, "Browser cache \u{2014} Safari will rebuild it"@),
        ("~/Library/Caches/com.brave.Browser"@, "Brave cache"@, "Browser cache \u{2014} Brave will rebuild it"@),
        ("~/Library/Caches/com.microsoft.edgemac"@, "Edge cache"@, "Browser cache \u{2014} Edge will rebuild it"@),
        ("~/Library/Caches/com.operasoftware.Opera"@, "Opera cache"@, "Browser cache \u{2014} Opera will rebuild it"@),
        ("~/Library/Caches/arc.browser"@, "Arc cache"@, "Browser cache \u{2014} Arc will rebuild it"@),
        ("~/Library/Logs"@, "User logs"@, "Application logs \u{2014} usually safe to clear"@),
        ("~/Library/Caches/com.apple.dt.Xcode"@, "Xcode cache"@, "Xcode derived data cache \u{2014} will be rebuilt"@),
        ("~/Library/Developer/Xcode/DerivedData"@, "Xcode DerivedData"@, "Xcode build artifacts \u{2014} will be rebuilt on next build"@),
        ("~/Library/Developer/Xcode/Archives"@, "Xcode Archives"@, "Old Xcode build archives \u{2014} usually safe to remove"@),
        ("~/Library/Developer/CoreSimulator/Caches"@, "iOS Simulator caches"@, "Simulator caches \u{2014} will be rebuilt"@),
        ("~/Library/Caches/CocoaPods"@, "CocoaPods cache"@, "Pod cache \u{2014} will be re-downloaded when needed"@),
        ("~/Library/Caches/org.carthage.CarthageKit"@, "Carthage cache"@, "Carthage dependency cache \u{2014} will be re-downloaded"@),
        ("~/Library/Caches/Homebrew"@, "Homebrew cache"@, "Downloaded package archives \u{2014} safe to remove"@),
        ("~/Library/Caches/pip"@, "pip cache"@, "Python package cache \u{2014} will be re-downloaded"@),
        ("~/Library/Caches/yarn"@, "Yarn cache"@, "Yarn package cache \u{2014} will be re-downloaded"@),
        ("~/.npm/_cacache"@, "npm cache"@, "npm package cache \u{2014} will be re-downloaded"@),
        ("~/.bun/install/cache"@, "Bun install cache"@, "Bun package cache \u{2014} will be re-downloaded"@),
        ("~/Library/Caches/com.apple.bird"@, "iCloud temp cache"@, "iCloud sync temp data \u{2014} will be regenerated"@),
        ("~/Library/Caches/CloudKit"@, "CloudKit cache"@, "CloudKit sync cache \u{2014} will be regenerated"@),
    ]
}

/// Each known cache location comes with its own label and reason: the location
/// `~/Library/Developer/Xcode/DerivedData` is the "Xcode DerivedData" build artifacts,
/// `~/Library/Developer/Xcode/Archives` the "Xcode Archives", and so on for all 22
/// locations, each listed once.
pub proof fn lemma_cache_target_labels()
    ensures
        cache_targets_spec().len() == 22,
        forall|i: int|
            0 <= i < cache_targets_spec().len() && #[trigger] cache_targets_spec()[i].0 == "~/Library/Caches/Google/Chrome"@
                ==> cache_targets_spec()[i].1 == "Chrome cache"@ && cache_targets_spec()[i].2 == "Browser cache \u{2014} Chrome will rebuild it"@,
        exists|i: int| 0 <= i < cache_targets_spec().len() && #[trigger] cache_targets_spec()[i].0 == "~/Library/Caches/Google/Chrome"@,
        forall|i: int|
            0 <= i < cache_targets_spec().len() && #[trigger] cache_targets_spec()[i].0 == "~/Library/Caches/com.google.Chrome"@
                ==> cache_targets_spec()[i].1 == "Chrome app cache"@ && cache_targets_spec()[i].2 == "Browser cache \u{2014} Chrome will rebuild it"@,
        exists|i: int| 0 <= i < cache_targets_spec().len() && #[trigger] cache_targets_spec()[i].0 == "~/Library/Caches/com.google.Chrome"@,
        forall|i: int|
            0 <= i < cache_targets_spec().len() && #[trigger] cache_targets_spec()[i].0 == "~/Library/Caches/Firefox"@
                ==> cache_targets_spec()[i].1 == "Firefox cache"@ && cache_targets_spec()[i].2 == "Browser cache \u{2014} Firefox will rebuild it"@,
        exists|i: int| 0 <= i < cache_targets_spec().len() && #[trigger] cache_targets_spec()[i].0 == "~/Library/Caches/Firefox"@,
        forall|i: int|
            0 <= i < cache_targets_spec().len() && #[trigger] cache_targets_spec()[i].0 == "~/Library/Caches/com.apple.Safari"@
                ==> cache_targets_spec()[i].1 == "Safari cache"@ && cache_targets_spec()[i].2 == "Browser cache \u{2014} Safari will rebuild it"@,
        exists|i: int| 0 <= i < cache_targets_spec().len() && #[trigger] cache_targets_spec()[i].0 == "~/Library/Caches/com.apple.Safari"@,
        forall|i: int|
            0 <= i < cache_targets_spec().len() && #[trigger] cache_targets_spec()[i].0 == "~/Library/Caches/com.brave.Browser"@
                ==> cache_targets_spec()[i].1 == "Brave cache"@ && cache_targets_spec()[i].2 == "Browser cache \u{2014} Brave will rebuild it"@,
        exists|i: int| 0 <= i < cache_targets_spec().len() && #[trigger] cache_targets_spec()[i].0 == "~/Library/Caches/com.brave.Browser"@,
        forall|i: int|
            0 <= i < cache_targets_spec().len() && #[trigger] cache_targets_spec()[i].0 == "~/Library/Caches/com.microsoft.edgemac"@
                ==> cache_targets_spec()[i].1 == "Edge cache"@ && cache_targets_spec()[i].2 == "Browser cache \u{2014} Edge will rebuild it"@,
        exists|i: int| 0 <= i < cache_targets_spec().len() && #[trigger] cache_targets_spec()[i].0 == "~/Library/Caches/com.microsoft.edgemac"@,
        forall|i: int|
            0 <= i < cache_targets_spec().len() && #[trigger] cache_targets_spec()[i].0 == "~/Library/Caches/com.operasoftware.Opera"@
                ==> cache_targets_spec()[i].1 == "Opera cache"@ && cache_targets_spec()[i].2 == "Browser cache \u{2014} Opera will rebuild it"@,
        exists|i: int| 0 <= i < cache_targets_spec().len() && #[trigger] cache_targets_spec()[i].0 == "~/Library/Caches/com.operasoftware.Opera"@,
        forall|i: int|
            0 <= i < cache_targets_spec().len() && #[trigger] cache_targets_spec()[i].0 == "~/Library/Caches/arc.browser"@
                ==> cache_targets_spec()[i].1 == "Arc cache"@ && cache_targets_spec()[i].2 == "Browser cache \u{2014} Arc will rebuild it"@,
        exists|i: int| 0 <= i < cache_targets_spec().len() && #[trigger] cache_targets_spec()[i].0 == "~/Library/Caches/arc.browser"@,
        forall|i: int|
            0 <= i < cache_targets_spec().len() && #[trigger] cache_targets_spec()[i].0 == "~/Library/Logs"@
                ==> cache_targets_spec()[i].1 == "User logs"@ && cache_targets_spec()[i].2 == "Application logs \u{2014} usually safe to clear"@,
        exists|i: int| 0 <= i < cache_targets_spec().len() && #[trigger] cache_targets_spec()[i].0 == "~/Library/Logs"@,
        forall|i: int|
            0 <= i < cache_targets_spec().len() && #[trigger] cache_targets_spec()[i].0 == "~/Library/Caches/com.apple.dt.Xcode"@
                ==> cache_targets_spec()[i].1 == "Xcode cache"@ && cache_targets_spec()[i].2 == "Xcode derived data cache \u{2014} will be rebuilt"@,
        exists|i: int| 0 <= i < cache_targets_spec().len() && #[trigger] cache_targets_spec()[i].0 == "~/Library/Caches/com.apple.dt.Xcode"@,
        forall|i: int|
            0 <= i < cache_targets_spec().len() && #[trigger] cache_targets_spec()[i].0 == "~/Library/Developer/Xcode/DerivedData"@
                ==> cache_targets_spec()[i].1 == "Xcode DerivedData"@ && cache_targets_spec()[i].2 == "Xcode build artifacts \u{2014} will be rebuilt on next build"@,
        exists|i: int| 0 <= i < cache_targets_spec().len() && #[trigger] cache_targets_spec()[i].0 == "~/Library/Developer/Xcode/DerivedData"@,
        forall|i: int|
            0 <= i < cache_targets_spec().len() && #[trigger] cache_targets_spec()[i].0 == "~/Library/Developer/Xcode/Archives"@
                ==> cache_targets_spec()[i].1 == "Xcode Archives"@ && cache_targets_spec()[i].2 == "Old Xcode build archives \u{2014} usually safe to remove"@,
        exists|i: int| 0 <= i < cache_targets_spec().len() && #[trigger] cache_targets_spec()[i].0 == "~/Library/Developer/Xcode/Archives"@,
        forall|i: int|
            0 <= i < cache_targets_spec().len() && #[trigger] cache_targets_spec()[i].0 == "~/Library/Developer/CoreSimulator/Caches"@
                ==> cache_targets_spec()[i].1 == "iOS Simulator caches"@ && cache_targets_spec()[i].2 == "Simulator caches \u{2014} will be rebuilt"@,
        exists|i: int| 0 <= i < cache_targets_spec().len() && #[trigger] cache_targets_spec()[i].0 == "~/Library/Developer/CoreSimulator/Caches"@,
        forall|i: int|
            0 <= i < cache_targets_spec().len() && #[trigger] cache_targets_spec()[i].0 == "~/Library/Caches/CocoaPods"@
                ==> cache_targets_spec()[i].1 == "CocoaPods cache"@ && cache_targets_spec()[i].2 == "Pod cache \u{2014} will be re-downloaded when needed"@,
        exists|i: int| 0 <= i < cache_targets_spec().len() && #[trigger] cache_targets_spec()[i].0 == "~/Library/Caches/CocoaPods"@,
        forall|i: int|
            0 <= i < cache_targets_spec().len() && #[trigger] cache_targets_spec()[i].0 == "~/Library/Caches/org.carthage.CarthageKit"@
                ==> cache_targets_spec()[i].1 == "Carthage cache"@ && cache_targets_spec()[i].2 == "Carthage dependency cache \u{2014} will be re-downloaded"@,
        exists|i: int| 0 <= i < cache_targets_spec().len() && #[trigger] cache_targets_spec()[i].0 == "~/Library/Caches/org.carthage.CarthageKit"@,
        forall|i: int|
            0 <= i < cache_targets_spec().len() && #[trigger] cache_targets_spec()[i].0 == "~/Library/Caches/Homebrew"@
                ==> cache_targets_spec()[i].1 == "Homebrew cache"@ && cache_targets_spec()[i].2 == "Downloaded package archives \u{2014} safe to remove"@,
        exists|i: int| 0 <= i < cache_targets_spec().len() && #[trigger] cache_targets_spec()[i].0 == "~/Library/Caches/Homebrew"@,
        forall|i: int|
            0 <= i < cache_targets_spec().len() && #[trigger] cache_targets_spec()[i].0 == "~/Library/Caches/pip"@
                ==> cache_targets_spec()[i].1 == "pip cache"@ && cache_targets_spec()[i].2 == "Python package cache \u{2014} will be re-downloaded"@,
        exists|i: int| 0 <= i < cache_targets_spec().len() && #[trigger] cache_targets_spec()[i].0 == "~/Library/Caches/pip"@,
        forall|i: int|
            0 <= i < cache_targets_spec().len() && #[trigger] cache_targets_spec()[i].0 == "~/Library/Caches/yarn"@
                ==> cache_targets_spec()[i].1 == "Yarn cache"@ && cache_targets_spec()[i].2 == "Yarn package cache \u{2014} will be re-downloaded"@,
        exists|i: int| 0 <= i < cache_targets_spec().len() && #[trigger] cache_targets_spec()[i].0 == "~/Library/Caches/yarn"@,
        forall|i: int|
            0 <= i < cache_targets_spec().len() && #[trigger] cache_targets_spec()[i].0 == "~/.npm/_cacache"@
                ==> cache_targets_spec()[i].1 == "npm cache"@ && cache_targets_spec()[i].2 == "npm package cache \u{2014} will be re-downloaded"@,
        exists|i: int| 0 <= i < cache_targets_spec().len() && #[trigger] cache_targets_spec()[i].0 == "~/.npm/_cacache"@,
        forall|i: int|
            0 <= i < cache_targets_spec().len() && #[trigger] cache_targets_spec()[i].0 == "~/.bun/install/cache"@
                ==> cache_targets_spec()[i].1 == "Bun install cache"@ && cache_targets_spec()[i].2 == "Bun package cache \u{2014} will be re-downloaded"@,
        exists|i: int| 0 <= i < cache_targets_spec().len() && #[trigger] cache_targets_spec()[i].0 == "~/.bun/install/cache"@,
        forall|i: int|
            0 <= i < cache_targets_spec().len() && #[trigger] cache_targets_spec()[i].0 == "~/Library/Caches/com.apple.bird"@
                ==> cache_targets_spec()[i].1 == "iCloud temp cache"@ && cache_targets_spec()[i].2 == "iCloud sync temp data \u{2014} will be regenerated"@,
        exists|i: int| 0 <= i < cache_targets_spec().len() && #[trigger] cache_targets_spec()[i].0 == "~/Library/Caches/com.apple.bird"@,
        forall|i: int|
            0 <= i < cache_targets_spec().len() && #[trigger] cache_targets_spec()[i].0 == "~/Library/Caches/CloudKit"@
                ==> cache_targets_spec()[i].1 == "CloudKit cache"@ && cache_targets_spec()[i].2 == "CloudKit sync cache \u{2014} will be regenerated"@,
        exists|i: int| 0 <= i < cache_targets_spec().len() && #[trigger] cache_targets_spec()[i].0 == "~/Library/Caches/CloudKit"@,
{
    reveal_strlit("~/Library/Caches/Google/Chrome");
    reveal_strlit("~/Library/Caches/com.google.Chrome");
    reveal_strlit("~/Library/Caches/Firefox");
    reveal_strlit("~/Library/Caches/com.apple.Safari");
    reveal_strlit("~/Library/Caches/com.brave.Browser");
    reveal_strlit("~/Library/Caches/com.microsoft.edgemac");
    reveal_strlit("~/Library/Caches/com.operasoftware.Opera");
    reveal_strlit("~/Library/Caches/arc.browser");
    reveal_strlit("~/Library/Logs");
    reveal_strlit("~/Library/Caches/com.apple.dt.Xcode");
    reveal_strlit("~/Library/Developer/Xcode/DerivedData");
    reveal_strlit("~/Library/Developer/Xcode/Archives");
    reveal_strlit("~/Library/Developer/CoreSimulator/Caches");
    reveal_strlit("~/Library/Caches/CocoaPods");
    reveal_strlit("~/Library/Caches/org.carthage.CarthageKit");
    reveal_strlit("~/Library/Caches/Homebrew");
    reveal_strlit("~/Library/Caches/pip");
    reveal_strlit("~/Library/Caches/yarn");
    reveal_strlit("~/.npm/_cacache");
    reveal_strlit("~/.bun/install/cache");
    reveal_strlit("~/Library/Caches/com.apple.bird");
    reveal_strlit("~/Library/Caches/CloudKit");
    assert(cache_targets_spec()[0].0 == "~/Library/Caches/Google/Chrome"@);
    assert(cache_targets_spec()[1].0 == "~/Library/Caches/com.google.Chrome"@);
    assert(cache_targets_spec()[2].0 == "~/Library/Caches/Firefox"@);
    assert(cache_targets_spec()[3].0 == "~/Library/Caches/com.apple.Safari"@);
    assert(cache_targets_spec()[4].0 == "~/Library/Caches/com.brave.Browser"@);
    assert(cache_targets_spec()[5].0 == "~/Library/Caches/com.microsoft.edgemac"@);
    assert(cache_targets_spec()[6].0 == "~/Library/Caches/com.operasoftware.Opera"@);
    assert(cache_targets_spec()[7].0 == "~/Library/Caches/arc.browser"@);
    assert(cache_targets_spec()[8].0 == "~/Library/Logs"@);
    assert(cache_targets_spec()[9].0 == "~/Library/Caches/com.apple.dt.Xcode"@);
    assert(cache_targets_spec()[10].0 == "~/Library/Developer/Xcode/DerivedData"@);
    assert(cache_targets_spec()[11].0 == "~/Library/Developer/Xcode/Archives"@);
    assert(cache_targets_spec()[12].0 == "~/Library/Developer/CoreSimulator/Caches"@);
    assert(cache_targets_spec()[13].0 == "~/Library/Caches/CocoaPods"@);
    assert(cache_targets_spec()[14].0 == "~/Library/Caches/org.carthage.CarthageKit"@);
    assert(cache_targets_spec()[15].0 == "~/Library/Caches/Homebrew"@);
    assert(cache_targets_spec()[16].0 == "~/Library/Caches/pip"@);
    assert(cache_targets_spec()[17].0 == "~/Library/Caches/yarn"@);
    assert(cache_targets_spec()[18].0 == "~/.npm/_cacache"@);
    assert(cache_targets_spec()[19].0 == "~/.bun/install/cache"@);
    assert(cache_targets_spec()[20].0 == "~/Library/Caches/com.apple.bird"@);
    assert(cache_targets_spec()[21].0 == "~/Library/Caches/CloudKit"@);
    assert(cache_targets_spec()[1].0[21] != cache_targets_spec()[4].0[21]);
    assert(cache_targets_spec()[1].0[10] != cache_targets_spec()[11].0[10]);
    assert(cache_targets_spec()[4].0[10] != cache_targets_spec()[11].0[10]);
    assert(cache_targets_spec()[6].0[10] != cache_targets_spec()[12].0[10]);
    assert(cache_targets_spec()[15].0[17] != cache_targets_spec()[21].0[17]);
    assert(cache_targets_spec()[16].0[2] != cache_targets_spec()[19].0[2]);
    assert forall|i: int|
        0 <= i < cache_targets_spec().len() && #[trigger] cache_targets_spec()[i].0 == "~/Library/Caches/Google/Chrome"@ implies cache_targets_spec()[i].1
            == "Chrome cache"@ && cache_targets_spec()[i].2 == "Browser cache \u{2014} Chrome will rebuild it"@ by {
        if i == 0 {
        } else if i == 1 {
        } else if i == 2 {
        } else if i == 3 {
        } else if i == 4 {
        } else if i == 5 {
        } else if i == 6 {
        } else if i == 7 {
        } else if i == 8 {
        } else if i == 9 {
        } else if i == 10 {
        } else if i == 11 {
        } else if i == 12 {
        } else if i == 13 {
        } else if i == 14 {
        } else if i == 15 {
        } else if i == 16 {
        } else if i == 17 {
        } else if i == 18 {
        } else if i == 19 {
        } else if i == 20 {
        } else if i == 21 {
        }
    }
    assert forall|i: int|
        0 <= i < cache_targets_spec().len() && #[trigger] cache_targets_spec()[i].0 == "~/Library/Caches/com.google.Chrome"@ implies cache_targets_spec()[i].1
            == "Chrome app cache"@ && cache_targets_spec()[i].2 == "Browser cache \u{2014} Chrome will rebuild it"@ by {
        if i == 0 {
        } else if i == 1 {
        } else if i == 2 {
        } else if i == 3 {
        } else if i == 4 {
        } else if i == 5 {
        } else if i == 6 {
        } else if i == 7 {
        } else if i == 8 {
        } else if i == 9 {
        } else if i == 10 {
        } else if i == 11 {
        } else if i == 12 {
        } else if i == 13 {
        } else if i == 14 {
        } else if i == 15 {
        } else if i == 16 {
        } else if i == 17 {
        } else if i == 18 {
        } else if i == 19 {
        } else if i == 20 {
        } else if i == 21 {
        }
    }
    assert forall|i: int|
        0 <= i < cache_targets_spec().len() && #[trigger] cache_targets_spec()[i].0 == "~/Library/Caches/Firefox"@ implies cache_targets_spec()[i].1
            == "Firefox cache"@ && cache_targets_spec()[i].2 == "Browser cache \u{2014} Firefox will rebuild it"@ by {
        if i == 0 {
        } else if i == 1 {
        } else if i == 2 {
        } else if i == 3 {
        } else if i == 4 {
        } else if i == 5 {
        } else if i == 6 {
        } else if i == 7 {
        } else if i == 8 {
        } else if i == 9 {
        } else if i == 10 {
        } else if i == 11 {
        } else if i == 12 {
        } else if i == 13 {
        } else if i == 14 {
        } else if i == 15 {
        } else if i == 16 {
        } else if i == 17 {
        } else if i == 18 {
        } else if i == 19 {
        } else if i == 20 {
        } else if i == 21 {
        }
    }
    assert forall|i: int|
        0 <= i < cache_targets_spec().len() && #[trigger] cache_targets_spec()[i].0 == "~/Library/Caches/com.apple.Safari"@ implies cache_targets_spec()[i].1
            == "Safari cache"@ && cache_targets_spec()[i].2 == "Browser cache \u{2014} Safari will rebuild it"@ by {
        if i == 0 {
        } else if i == 1 {
        } else if i == 2 {
        } else if i == 3 {
        } else if i == 4 {
        } else if i == 5 {
        } else if i == 6 {
        } else if i == 7 {
        } else if i == 8 {
        } else if i == 9 {
        } else if i == 10 {
        } else if i == 11 {
        } else if i == 12 {
        } else if i == 13 {
        } else if i == 14 {
        } else if i == 15 {
        } else if i == 16 {
        } else if i == 17 {
        } else if i == 18 {
        } else if i == 19 {
        } else if i == 20 {
        } else if i == 21 {
        }
    }
    assert forall|i: int|
        0 <= i < cache_targets_spec().len() && #[trigger] cache_targets_spec()[i].0 == "~/Library/Caches/com.brave.Browser"@ implies cache_targets_spec()[i].1
            == "Brave cache"@ && cache_targets_spec()[i].2 == "Browser cache \u{2014} Brave will rebuild it"@ by {
        if i == 0 {
        } else if i == 1 {
        } else if i == 2 {
        } else if i == 3 {
        } else if i == 4 {
        } else if i == 5 {
        } else if i == 6 {
        } else if i == 7 {
        } else if i == 8 {
        } else if i == 9 {
        } else if i == 10 {
        } else if i == 11 {
        } else if i == 12 {
        } else if i == 13 {
        } else if i == 14 {
        } else if i == 15 {
        } else if i == 16 {
        } else if i == 17 {
        } else if i == 18 {
        } else if i == 19 {
        } else if i == 20 {
        } else if i == 21 {
        }
    }
    assert forall|i: int|
        0 <= i < cache_targets_spec().len() && #[trigger] cache_targets_spec()[i].0 == "~/Library/Caches/com.microsoft.edgemac"@ implies cache_targets_spec()[i].1
            == "Edge cache"@ && cache_targets_spec()[i].2 == "Browser cache \u{2014} Edge will rebuild it"@ by {
        if i == 0 {
        } else if i == 1 {
        } else if i == 2 {
        } else if i == 3 {
        } else if i == 4 {
        } else if i == 5 {
        } else if i == 6 {
        } else if i == 7 {
        } else if i == 8 {
        } else if i == 9 {
        } else if i == 10 {
        } else if i == 11 {
        } else if i == 12 {
        } else if i == 13 {
        } else if i == 14 {
        } else if i == 15 {
        } else if i == 16 {
        } else if i == 17 {
        } else if i == 18 {
        } else if i == 19 {
        } else if i == 20 {
        } else if i == 21 {
        }
    }
    assert forall|i: int|
        0 <= i < cache_targets_spec().len() && #[trigger] cache_targets_spec()[i].0 == "~/Library/Caches/com.operasoftware.Opera"@ implies cache_targets_spec()[i].1
            == "Opera cache"@ && cache_targets_spec()[i].2 == "Browser cache \u{2014} Opera will rebuild it"@ by {
        if i == 0 {
        } else if i == 1 {
        } else if i == 2 {
        } else if i == 3 {
        } else if i == 4 {
        } else if i == 5 {
        } else if i == 6 {
        } else if i == 7 {
        } else if i == 8 {
        } else if i == 9 {
        } else if i == 10 {
        } else if i == 11 {
        } else if i == 12 {
        } else if i == 13 {
        } else if i == 14 {
        } else if i == 15 {
        } else if i == 16 {
        } else if i == 17 {
        } else if i == 18 {
        } else if i == 19 {
        } else if i == 20 {
        } else if i == 21 {
        }
    }
    assert forall|i: int|
        0 <= i < cache_targets_spec().len() && #[trigger] cache_targets_spec()[i].0 == "~/Library/Caches/arc.browser"@ implies cache_targets_spec()[i].1
            == "Arc cache"@ && cache_targets_spec()[i].2 == "Browser cache \u{2014} Arc will rebuild it"@ by {
        if i == 0 {
        } else if i == 1 {
        } else if i == 2 {
        } else if i == 3 {
        } else if i == 4 {
        } else if i == 5 {
        } else if i == 6 {
        } else if i == 7 {
        } else if i == 8 {
        } else if i == 9 {
        } else if i == 10 {
        } else if i == 11 {
        } else if i == 12 {
        } else if i == 13 {
        } else if i == 14 {
        } else if i == 15 {
        } else if i == 16 {
        } else if i == 17 {
        } else if i == 18 {
        } else if i == 19 {
        } else if i == 20 {
        } else if i == 21 {
        }
    }
    assert forall|i: int|
        0 <= i < cache_targets_spec().len() && #[trigger] cache_targets_spec()[i].0 == "~/Library/Logs"@ implies cache_targets_spec()[i].1
            == "User logs"@ && cache_targets_spec()[i].2 == "Application logs \u{2014} usually safe to clear"@ by {
        if i == 0 {
        } else if i == 1 {
        } else if i == 2 {
        } else if i == 3 {
        } else if i == 4 {
        } else if i == 5 {
        } else if i == 6 {
        } else if i == 7 {
        } else if i == 8 {
        } else if i == 9 {
        } else if i == 10 {
        } else if i == 11 {
        } else if i == 12 {
        } else if i == 13 {
        } else if i == 14 {
        } else if i == 15 {
        } else if i == 16 {
        } else if i == 17 {
        } else if i == 18 {
        } else if i == 19 {
        } else if i == 20 {
        } else if i == 21 {
        }
    }
    assert forall|i: int|
        0 <= i < cache_targets_spec().len() && #[trigger] cache_targets_spec()[i].0 == "~/Library/Caches/com.apple.dt.Xcode"@ implies cache_targets_spec()[i].1
            == "Xcode cache"@ && cache_targets_spec()[i].2 == "Xcode derived data cache \u{2014} will be rebuilt"@ by {
        if i == 0 {
        } else if i == 1 {
        } else if i == 2 {
        } else if i == 3 {
        } else if i == 4 {
        } else if i == 5 {
        } else if i == 6 {
        } else if i == 7 {
        } else if i == 8 {
        } else if i == 9 {
        } else if i == 10 {
        } else if i == 11 {
        } else if i == 12 {
        } else if i == 13 {
        } else if i == 14 {
        } else if i == 15 {
        } else if i == 16 {
        } else if i == 17 {
        } else if i == 18 {
        } else if i == 19 {
        } else if i == 20 {
        } else if i == 21 {
        }
    }
    assert forall|i: int|
        0 <= i < cache_targets_spec().len() && #[trigger] cache_targets_spec()[i].0 == "~/Library/Developer/Xcode/DerivedData"@ implies cache_targets_spec()[i].1
            == "Xcode DerivedData"@ && cache_targets_spec()[i].2 == "Xcode build artifacts \u{2014} will be rebuilt on next build"@ by {
        if i == 0 {
        } else if i == 1 {
        } else if i == 2 {
        } else if i == 3 {
        } else if i == 4 {
        } else if i == 5 {
        } else if i == 6 {
        } else if i == 7 {
        } else if i == 8 {
        } else if i == 9 {
        } else if i == 10 {
        } else if i == 11 {
        } else if i == 12 {
        } else if i == 13 {
        } else if i == 14 {
        } else if i == 15 {
        } else if i == 16 {
        } else if i == 17 {
        } else if i == 18 {
        } else if i == 19 {
        } else if i == 20 {
        } else if i == 21 {
        }
    }
    assert forall|i: int|
        0 <= i < cache_targets_spec().len() && #[trigger] cache_targets_spec()[i].0 == "~/Library/Developer/Xcode/Archives"@ implies cache_targets_spec()[i].1
            == "Xcode Archives"@ && cache_targets_spec()[i].2 == "Old Xcode build archives \u{2014} usually safe to remove"@ by {
        if i == 0 {
        } else if i == 1 {
        } else if i == 2 {
        } else if i == 3 {
        } else if i == 4 {
        } else if i == 5 {
        } else if i == 6 {
        } else if i == 7 {
        } else if i == 8 {
        } else if i == 9 {
        } else if i == 10 {
        } else if i == 11 {
        } else if i == 12 {
        } else if i == 13 {
        } else if i == 14 {
        } else if i == 15 {
        } else if i == 16 {
        } else if i == 17 {
        } else if i == 18 {
        } else if i == 19 {
        } else if i == 20 {
        } else if i == 21 {
        }
    }
    assert forall|i: int|
        0 <= i < cache_targets_spec().len() && #[trigger] cache_targets_spec()[i].0 == "~/Library/Developer/CoreSimulator/Caches"@ implies cache_targets_spec()[i].1
            == "iOS Simulator caches"@ && cache_targets_spec()[i].2 == "Simulator caches \u{2014} will be rebuilt"@ by {
        if i == 0 {
        } else if i == 1 {
        } else if i == 2 {
        } else if i == 3 {
        } else if i == 4 {
        } else if i == 5 {
        } else if i == 6 {
        } else if i == 7 {
        } else if i == 8 {
        } else if i == 9 {
        } else if i == 10 {
        } else if i == 11 {
        } else if i == 12 {
        } else if i == 13 {
        } else if i == 14 {
        } else if i == 15 {
        } else if i == 16 {
        } else if i == 17 {
        } else if i == 18 {
        } else if i == 19 {
        } else if i == 20 {
        } else if i == 21 {
        }
    }
    assert forall|i: int|
        0 <= i < cache_targets_spec().len() && #[trigger] cache_targets_spec()[i].0 == "~/Library/Caches/CocoaPods"@ implies cache_targets_spec()[i].1
            == "CocoaPods cache"@ && cache_targets_spec()[i].2 == "Pod cache \u{2014} will be re-downloaded when needed"@ by {
        if i == 0 {
        } else if i == 1 {
        } else if i == 2 {
        } else if i == 3 {
        } else if i == 4 {
        } else if i == 5 {
        } else if i == 6 {
        } else if i == 7 {
        } else if i == 8 {
        } else if i == 9 {
        } else if i == 10 {
        } else if i == 11 {
        } else if i == 12 {
        } else if i == 13 {
        } else if i == 14 {
        } else if i == 15 {
        } else if i == 16 {
        } else if i == 17 {
        } else if i == 18 {
        } else if i == 19 {
        } else if i == 20 {
        } else if i == 21 {
        }
    }
    assert forall|i: int|
        0 <= i < cache_targets_spec().len() && #[trigger] cache_targets_spec()[i].0 == "~/Library/Caches/org.carthage.CarthageKit"@ implies cache_targets_spec()[i].1
            == "Carthage cache"@ && cache_targets_spec()[i].2 == "Carthage dependency cache \u{2014} will be re-downloaded"@ by {
        if i == 0 {
        } else if i == 1 {
        } else if i == 2 {
        } else if i == 3 {
        } else if i == 4 {
        } else if i == 5 {
        } else if i == 6 {
        } else if i == 7 {
        } else if i == 8 {
        } else if i == 9 {
        } else if i == 10 {
        } else if i == 11 {
        } else if i == 12 {
        } else if i == 13 {
        } else if i == 14 {
        } else if i == 15 {
        } else if i == 16 {
        } else if i == 17 {
        } else if i == 18 {
        } else if i == 19 {
        } else if i == 20 {
        } else if i == 21 {
        }
    }
    assert forall|i: int|
        0 <= i < cache_targets_spec().len() && #[trigger] cache_targets_spec()[i].0 == "~/Library/Caches/Homebrew"@ implies cache_targets_spec()[i].1
            == "Homebrew cache"@ && cache_targets_spec()[i].2 == "Downloaded package archives \u{2014} safe to remove"@ by {
        if i == 0 {
        } else if i == 1 {
        } else if i == 2 {
        } else if i == 3 {
        } else if i == 4 {
        } else if i == 5 {
        } else if i == 6 {
        } else if i == 7 {
        } else if i == 8 {
        } else if i == 9 {
        } else if i == 10 {
        } else if i == 11 {
        } else if i == 12 {
        } else if i == 13 {
        } else if i == 14 {
        } else if i == 15 {
        } else if i == 16 {
        } else if i == 17 {
        } else if i == 18 {
        } else if i == 19 {
        } else if i == 20 {
        } else if i == 21 {
        }
    }
    assert forall|i: int|
        0 <= i < cache_targets_spec().len() && #[trigger] cache_targets_spec()[i].0 == "~/Library/Caches/pip"@ implies cache_targets_spec()[i].1
            == "pip cache"@ && cache_targets_spec()[i].2 == "Python package cache \u{2014} will be re-downloaded"@ by {
        if i == 0 {
        } else if i == 1 {
        } else if i == 2 {
        } else if i == 3 {
        } else if i == 4 {
        } else if i == 5 {
        } else if i == 6 {
        } else if i == 7 {
        } else if i == 8 {
        } else if i == 9 {
        } else if i == 10 {
        } else if i == 11 {
        } else if i == 12 {
        } else if i == 13 {
        } else if i == 14 {
        } else if i == 15 {
        } else if i == 16 {
        } else if i == 17 {
        } else if i == 18 {
        } else if i == 19 {
        } else if i == 20 {
        } else if i == 21 {
        }
    }
    assert forall|i: int|
        0 <= i < cache_targets_spec().len() && #[trigger] cache_targets_spec()[i].0 == "~/Library/Caches/yarn"@ implies cache_targets_spec()[i].1
            == "Yarn cache"@ && cache_targets_spec()[i].2 == "Yarn package cache \u{2014} will be re-downloaded"@ by {
        if i == 0 {
        } else if i == 1 {
        } else if i == 2 {
        } else if i == 3 {
        } else if i == 4 {
        } else if i == 5 {
        } else if i == 6 {
        } else if i == 7 {
        } else if i == 8 {
        } else if i == 9 {
        } else if i == 10 {
        } else if i == 11 {
        } else if i == 12 {
        } else if i == 13 {
        } else if i == 14 {
        } else if i == 15 {
        } else if i == 16 {
        } else if i == 17 {
        } else if i == 18 {
        } else if i == 19 {
        } else if i == 20 {
        } else if i == 21 {
        }
    }
    assert forall|i: int|
        0 <= i < cache_targets_spec().len() && #[trigger] cache_targets_spec()[i].0 == "~/.npm/_cacache"@ implies cache_targets_spec()[i].1
            == "npm cache"@ && cache_targets_spec()[i].2 == "npm package cache \u{2014} will be re-downloaded"@ by {
        if i == 0 {
        } else if i == 1 {
        } else if i == 2 {
        } else if i == 3 {
        } else if i == 4 {
        } else if i == 5 {
        } else if i == 6 {
        } else if i == 7 {
        } else if i == 8 {
        } else if i == 9 {
        } else if i == 10 {
        } else if i == 11 {
        } else if i == 12 {
        } else if i == 13 {
        } else if i == 14 {
        } else if i == 15 {
        } else if i == 16 {
        } else if i == 17 {
        } else if i == 18 {
        } else if i == 19 {
        } else if i == 20 {
        } else if i == 21 {
        }
    }
    assert forall|i: int|
        0 <= i < cache_targets_spec().len() && #[trigger] cache_targets_spec()[i].0 == "~/.bun/install/cache"@ implies cache_targets_spec()[i].1
            == "Bun install cache"@ && cache_targets_spec()[i].2 == "Bun package cache \u{2014} will be re-downloaded"@ by {
        if i == 0 {
        } else if i == 1 {
        } else if i == 2 {
        } else if i == 3 {
        } else if i == 4 {
        } else if i == 5 {
        } else if i == 6 {
        } else if i == 7 {
        } else if i == 8 {
        } else if i == 9 {
        } else if i == 10 {
        } else if i == 11 {
        } else if i == 12 {
        } else if i == 13 {
        } else if i == 14 {
        } else if i == 15 {
        } else if i == 16 {
        } else if i == 17 {
        } else if i == 18 {
        } else if i == 19 {
        } else if i == 20 {
        } else if i == 21 {
        }
    }
    assert forall|i: int|
        0 <= i < cache_targets_spec().len() && #[trigger] cache_targets_spec()[i].0 == "~/Library/Caches/com.apple.bird"@ implies cache_targets_spec()[i].1
            == "iCloud temp cache"@ && cache_targets_spec()[i].2 == "iCloud sync temp data \u{2014} will be regenerated"@ by {
        if i == 0 {
        } else if i == 1 {
        } else if i == 2 {
        } else if i == 3 {
        } else if i == 4 {
        } else if i == 5 {
        } else if i == 6 {
        } else if i == 7 {
        } else if i == 8 {
        } else if i == 9 {
        } else if i == 10 {
        } else if i == 11 {
        } else if i == 12 {
        } else if i == 13 {
        } else if i == 14 {
        } else if i == 15 {
        } else if i == 16 {
        } else if i == 17 {
        } else if i == 18 {
        } else if i == 19 {
        } else if i == 20 {
        } else if i == 21 {
        }
    }
    assert forall|i: int|
        0 <= i < cache_targets_spec().len() && #[trigger] cache_targets_spec()[i].0 == "~/Library/Caches/CloudKit"@ implies cache_targets_spec()[i].1
            == "CloudKit cache"@ && cache_targets_spec()[i].2 == "CloudKit sync cache \u{2014} will be regenerated"@ by {
        if i == 0 {
        } else if i == 1 {
        } else if i == 2 {
        } else if i == 3 {
        } else if i == 4 {
        } else if i == 5 {
        } else if i == 6 {
        } else if i == 7 {
        } else if i == 8 {
        } else if i == 9 {
        } else if i == 10 {
        } else if i == 11 {
        } else if i == 12 {
        } else if i == 13 {
        } else if i == 14 {
        } else if i == 15 {
        } else if i == 16 {
        } else if i == 17 {
        } else if i == 18 {
        } else if i == 19 {
        } else if i == 20 {
        } else if i == 21 {
        }
    }
}

fn cache_target(path: &str, label: &str, reason: &str) -> (r: CacheTarget)
    ensures
        target_view(r) == (path@, label@, reason@),
{
    CacheTarget { path: path.to_string(), label: label.to_string(), reason: reason.to_string() }
}

/// Known cache locations on macOS.
pub fn cache_targets() -> (r: Vec<CacheTarget>)
    ensures
        r@.map_values(|t: CacheTarget| target_view(t)) == cache_targets_spec(),
{
    let r = vec![
        cache_target("~/Library/Caches/Google/Chrome", "Chrome cache", "Browser cache \u{2014} Chrome will rebuild it"),
        cache_target("~/Library/Caches/com.google.Chrome", "Chrome app cache", "Browser cache \u{2014} Chrome will rebuild it"),
        cache_target("~/Library/Caches/Firefox", "Firefox cache", "Browser cache \u{2014} Firefox will rebuild it"),
        cache_target("~/Library/Caches/com.apple.Safari", "Safari cache", "Browser cache \u{2014} Safari will rebuild it"),
        cache_target("~/Library/Caches/com.brave.Browser", "Brave cache", "Browser cache \u{2014} Brave will rebuild it"),
        cache_target("~/Library/Caches/com.microsoft.edgemac", "Edge cache", "Browser cache \u{2014} Edge will rebuild it"),
        cache_target("~/Library/Caches/com.operasoftware.Opera", "Opera cache", "Browser cache \u{2014} Opera will rebuild it"),
        cache_target("~/Library/Caches/arc.browser", "Arc cache", "Browser cache \u{2014} Arc will rebuild it"),
        cache_target("~/Library/Logs", "User logs", "Application logs \u{2014} usually safe to clear"),
        cache_target("~/Library/Caches/com.apple.dt.Xcode", "Xcode cache", "Xcode derived data cache \u{2014} will be rebuilt"),
        cache_target("~/Library/Developer/Xcode/DerivedData", "Xcode DerivedData", "Xcode build artifacts \u{2014} will be rebuilt on next build"),
        cache_target("~/Library/Developer/Xcode/Archives", "Xcode Archives", "Old Xcode build archives \u{2014} usually safe to remove"),
        cache_target("~/Library/Developer/CoreSimulator/Caches", "iOS Simulator caches", "Simulator caches \u{2014} will be rebuilt"),
        cache_target("~/Library/Caches/CocoaPods", "CocoaPods cache", "Pod cache \u{2014} will be re-downloaded when needed"),
        cache_target("~/Library/Caches/org.carthage.CarthageKit", "Carthage cache", "Carthage dependency cache \u{2014} will be re-downloaded"),
        cache_target("~/Library/Caches/Homebrew", "Homebrew cache", "Downloaded package archives \u{2014} safe to remove"),
        cache_target("~/Library/Caches/pip", "pip cache", "Python package cache \u{2014} will be re-downloaded"),
        cache_target("~/Library/Caches/yarn", "Yarn cache", "Yarn package cache \u{2014} will be re-downloaded"),
        cache_target("~/.npm/_cacache", "npm cache", "npm package cache \u{2014} will be re-downloaded"),
        cache_target("~/.bun/install/cache", "Bun install cache", "Bun package cache \u{2014} will be re-downloaded"),
        cache_target("~/Library/Caches/com.apple.bird", "iCloud temp cache", "iCloud sync temp data \u{2014} will be regenerated"),
        cache_target("~/Library/Caches/CloudKit", "CloudKit cache", "CloudKit sync cache \u{2014} will be regenerated"),
    ];
    assert(r@.map_values(|t: CacheTarget| target_view(t)) =~= cache_targets_spec());
    r
}

/// Paths that need macOS Full Disk Access (TCC-protected).
pub open spec fn is_tcc_protected_spec(path: Seq<char>) -> bool {
    ||| path == "~/Library/Caches/com.apple.Safari"@
    ||| path == "~/Library/Caches/com.apple.bird"@
    ||| path == "~/Library/Caches/CloudKit"@
}

/// Whether a target path needs Full Disk Access.
pub fn is_tcc_protected(path: &str) -> (r: bool)
    ensures
        r == is_tcc_protected_spec(path@),
{
    str_eq(path, "~/Library/Caches/com.apple.Safari") || str_eq(path, "~/Library/Caches/com.apple.bird")
        || str_eq(path, "~/Library/Caches/CloudKit")
}

/// Expand the first `~` of `path` to the home directory.
pub fn expand_home(path: &str, home: &str) -> (r: String)
    ensures
        r@ == replace_first_char(path@, '~', home@),
{
    replace_first_char_str(path, '~', home)
}

/// Minimum size to report (5 MB).
pub open spec fn min_size() -> u64 {
    0x50_0000
}

/// The reason reported for a target: its reason, with a note when it may need Full
/// Disk Access.
pub open spec fn target_reason(t: (Seq<char>, Seq<char>, Seq<char>)) -> Seq<char> {
    if is_tcc_protected_spec(t.0) {
        t.2 + " (may need Full Disk Access)"@
    } else {
        t.2
    }
}

/// The finding for a cache target that exists at `full_path`, unless it is smaller than 5 MB.
pub fn cache_finding(target: &CacheTarget, full_path: String, size: u64, age: u64) -> (r: Option<
    Finding,
>)
    ensures
        size < min_size() ==> r is None,
        size >= min_size() ==> (r matches Some(f) && f.path == full_path && f.label == target.label
            && f.size == size && f.age == age && f.reason@ == target_reason(target_view(*target))
            && f.effort == Some(Effort::NoEffort)),
{
    if size < 0x50_0000 {
        return None;
    }
    let reason = if is_tcc_protected(target.path.as_str()) {
        let mut r = target.reason.clone();
        r.append(" (may need Full Disk Access)");
        r
    } else {
        target.reason.clone()
    };
    Some(
        Finding {
            path: full_path,
            label: target.label.clone(),
            size,
            age,
            reason,
            effort: Some(Effort::NoEffort),
        },
    )
}

/// Name of this scanner.
pub open spec fn scanner_name() -> Seq<char> {
    "System Caches"@
}

/// The scan result of the system caches scanner for its findings.
pub fn caches_scan_result(findings: Vec<Finding>, duration: u64) -> (r: ScanResult)
    requires
        sum_keys(findings@) <= u64::MAX,
    ensures
        r.scanner_name@ == scanner_name(),
        r.duration == duration,
        is_scan_of(findings@, None, r),
{
    proof {
        lemma_scan_total_fits(findings@, None);
    }
    build_scan_result("System Caches".to_string(), findings, None, duration)
}

} // verus!
