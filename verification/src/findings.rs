use vstd::prelude::*;
use crate::types::{AppUninstallData, Finding, ScanResult};

verus! {

/// Items ordered by a size key.
pub trait SizeKeyed: Sized {
    spec fn size_key(&self) -> u64;

    fn key(&self) -> (r: u64)
        ensures
            r == self.size_key(),
    ;
}

impl SizeKeyed for Finding {
    open spec fn size_key(&self) -> u64 {
        self.size
    }

    fn key(&self) -> (r: u64) {
        self.size
    }
}

impl SizeKeyed for AppUninstallData {
    open spec fn size_key(&self) -> u64 {
        self.size
    }

    fn key(&self) -> (r: u64) {
        self.size
    }
}

/// The items of `s` whose key is `k`, in their order in `s`.
pub open spec fn with_key<T: SizeKeyed>(s: Seq<T>, k: u64) -> Seq<T>
    decreases s.len(),
{
    if s.len() == 0 {
        Seq::empty()
    } else if s[0].size_key() == k {
        seq![s[0]] + with_key(s.drop_first(), k)
    } else {
        with_key(s.drop_first(), k)
    }
}

/// Keys never increase along `s`.
pub open spec fn sorted_by_size_desc<T: SizeKeyed>(s: Seq<T>) -> bool {
    forall|i: int, j: int| 0 <= i < j < s.len() ==> s[i].size_key() >= s[j].size_key()
}

/// `r` is `s` sorted by descending key, items of equal key kept in their order
/// (what a stable `sort_by(|a, b| b.size.cmp(&a.size))` gives).
pub open spec fn is_stable_desc_sort<T: SizeKeyed>(s: Seq<T>, r: Seq<T>) -> bool {
    &&& sorted_by_size_desc(r)
    &&& forall|k: u64| #[trigger] with_key(r, k) == with_key(s, k)
}

pub proof fn lemma_with_key_add<T: SizeKeyed>(a: Seq<T>, b: Seq<T>, k: u64)
    ensures
        with_key(a + b, k) == with_key(a, k) + with_key(b, k),
    decreases a.len(),
{
    if a.len() == 0 {
        assert(a + b == b);
    } else {
        assert((a + b).drop_first() == a.drop_first() + b);
        lemma_with_key_add(a.drop_first(), b, k);
    }
}

proof fn lemma_with_key_none<T: SizeKeyed>(s: Seq<T>, k: u64)
    requires
        forall|i: int| 0 <= i < s.len() ==> (#[trigger] s[i]).size_key() != k,
    ensures
        with_key(s, k) == Seq::<T>::empty(),
    decreases s.len(),
{
    if s.len() > 0 {
        lemma_with_key_none(s.drop_first(), k);
    }
}

/// Inserting `x` after the items of greater key and before those of key at most its own
/// keeps the order sorted, and puts `x` first among the items of its key.
proof fn lemma_insert_keeps_order<T: SizeKeyed>(before: Seq<T>, p: int, x: T, rest: Seq<T>)
    requires
        0 <= p <= before.len(),
        sorted_by_size_desc(before),
        forall|i: int| 0 <= i < p ==> (#[trigger] before[i]).size_key() > x.size_key(),
        forall|i: int| p <= i < before.len() ==> (#[trigger] before[i]).size_key() <= x.size_key(),
        forall|k: u64| #[trigger] with_key(before, k) == with_key(rest, k),
    ensures
        sorted_by_size_desc(before.take(p) + seq![x] + before.skip(p)),
        forall|k: u64| #[trigger]
            with_key(before.take(p) + seq![x] + before.skip(p), k) == with_key(seq![x] + rest, k),
{
    let pre = before.take(p);
    let post = before.skip(p);
    let out = pre + seq![x] + post;
    assert(before == pre + post);
    assert forall|k: u64| #[trigger] with_key(out, k) == with_key(seq![x] + rest, k) by {
        lemma_with_key_add(pre + seq![x], post, k);
        lemma_with_key_add(pre, seq![x], k);
        lemma_with_key_add(pre, post, k);
        lemma_with_key_add(seq![x], rest, k);
        assert(seq![x].drop_first() == Seq::<T>::empty());
        if k == x.size_key() {
            assert forall|i: int| 0 <= i < pre.len() implies (#[trigger] pre[i]).size_key() != k by {
                assert(pre[i] == before[i]);
            }
            lemma_with_key_none(pre, k);
            assert(Seq::<T>::empty() + with_key(seq![x], k) == with_key(seq![x], k));
            assert(Seq::<T>::empty() + with_key(post, k) == with_key(post, k));
        } else {
            assert(seq![x][0] == x);
            assert(with_key(Seq::<T>::empty(), k) == Seq::<T>::empty());
            assert(with_key(seq![x], k) == Seq::<T>::empty());
            assert(Seq::<T>::empty() + with_key(rest, k) == with_key(rest, k));
            assert(with_key(pre, k) + Seq::<T>::empty() == with_key(pre, k));
        }
    }
    assert forall|i: int, j: int| 0 <= i < j < out.len() implies out[i].size_key()
        >= out[j].size_key() by {
        if j < p {
            assert(out[i] == before[i] && out[j] == before[j]);
        } else if j == p {
            assert(out[i] == before[i]);
        } else if i < p {
            assert(out[i] == before[i]);
            assert(out[j] == before[j - 1]);
        } else if i == p {
            assert(out[j] == before[j - 1]);
        } else {
            assert(out[i] == before[i - 1]);
            assert(out[j] == before[j - 1]);
        }
    }
}

/// Sorts by descending size, keeping items of equal size in their order.
pub fn sort_by_size_desc<T: SizeKeyed>(v: Vec<T>) -> (r: Vec<T>)
    ensures
        is_stable_desc_sort(v@, r@),
        r@.len() == v@.len(),
        sum_keys(r@) == sum_keys(v@),
{
    let ghost orig = v@;
    let mut v = v;
    let mut out: Vec<T> = Vec::new();
    while v.len() > 0
        invariant
            v@ == orig.take(v@.len() as int),
            v@.len() <= orig.len(),
            sorted_by_size_desc(out@),
            out@.len() + v@.len() == orig.len(),
            sum_keys(out@) == sum_keys(orig.skip(v@.len() as int)),
            forall|k: u64| #[trigger]
                with_key(out@, k) == with_key(orig.skip(v@.len() as int), k),
        decreases v@.len(),
    {
        let ghost n = v@.len();
        let x = v.pop().unwrap();
        let xk = x.key();
        let mut p: usize = 0;
        while p < out.len() && out[p].key() > xk
            invariant
                p <= out@.len(),
                forall|i: int| 0 <= i < p ==> (#[trigger] out@[i]).size_key() > xk,
            decreases out@.len() - p,
        {
            p = p + 1;
        }
        let ghost before = out@;
        proof {
            assert forall|i: int| p <= i < before.len() implies (#[trigger] before[i]).size_key()
                <= xk by {
                if p < before.len() {
                    assert(before[p as int].size_key() <= xk);
                    assert(sorted_by_size_desc(before));
                    if i > p {
                        assert(before[p as int].size_key() >= before[i].size_key());
                    }
                }
            }
        }
        out.insert(p, x);
        proof {
            assert(out@ == before.take(p as int) + seq![x] + before.skip(p as int));
            assert(orig.skip(n - 1) == seq![x] + orig.skip(n as int));
            lemma_insert_keeps_order(before, p as int, x, orig.skip(n as int));
            lemma_sum_keys_add(before.take(p as int), before.skip(p as int));
            lemma_sum_keys_add(before.take(p as int) + seq![x], before.skip(p as int));
            lemma_sum_keys_add(before.take(p as int), seq![x]);
            lemma_sum_keys_add(seq![x], orig.skip(n as int));
            assert(seq![x].drop_last() == Seq::<T>::empty());
            assert(seq![x].last() == x);
            assert(sum_keys(Seq::<T>::empty()) == 0);
            assert(sum_keys(seq![x]) == sum_keys(seq![x].drop_last()) + seq![x].last().size_key());
            assert(sum_keys(seq![x]) == x.size_key());
            assert(before == before.take(p as int) + before.skip(p as int));
        }
    }
    proof {
        assert(orig.skip(0) == orig);
    }
    out
}

/// Sum of the keys (sizes) of `s`.
pub open spec fn sum_keys<T: SizeKeyed>(s: Seq<T>) -> int
    decreases s.len(),
{
    if s.len() == 0 {
        0
    } else {
        sum_keys(s.drop_last()) + s.last().size_key()
    }
}

pub proof fn lemma_sum_keys_add<T: SizeKeyed>(a: Seq<T>, b: Seq<T>)
    ensures
        sum_keys(a + b) == sum_keys(a) + sum_keys(b),
    decreases b.len(),
{
    if b.len() == 0 {
        assert(a + b == a);
    } else {
        assert((a + b).drop_last() == a + b.drop_last());
        lemma_sum_keys_add(a, b.drop_last());
    }
}

/// The first index of an item of key `k` in `s`, when `with_key(s, k)` is not empty;
/// that item heads `with_key(s, k)`.
proof fn lemma_first_with_key<T: SizeKeyed>(s: Seq<T>, k: u64) -> (j: int)
    requires
        with_key(s, k).len() > 0,
    ensures
        0 <= j < s.len(),
        s[j].size_key() == k,
        forall|i: int| 0 <= i < j ==> (#[trigger] s[i]).size_key() != k,
        with_key(s, k)[0] == s[j],
    decreases s.len(),
{
    if s[0].size_key() == k {
        0
    } else {
        let j = lemma_first_with_key(s.drop_first(), k);
        assert forall|i: int| 0 <= i < j + 1 implies (#[trigger] s[i]).size_key() != k by {
            if i > 0 {
                assert(s[i] == s.drop_first()[i - 1]);
            }
        }
        j + 1
    }
}

/// Two sequences with the same items of each key have the same sum of keys.
pub proof fn lemma_with_key_sum<T: SizeKeyed>(a: Seq<T>, b: Seq<T>)
    requires
        forall|k: u64| #[trigger] with_key(a, k) == with_key(b, k),
    ensures
        sum_keys(a) == sum_keys(b),
    decreases a.len(),
{
    if a.len() == 0 {
        if b.len() > 0 {
            assert(with_key(b, b[0].size_key()).len() > 0);
            assert(with_key(a, b[0].size_key()).len() == 0);
        }
    } else {
        let x = a[0];
        let k = x.size_key();
        assert(with_key(a, k).len() > 0);
        let j = lemma_first_with_key(b, k);
        assert(with_key(a, k)[0] == x);
        assert(b[j] == x);
        let pre = b.take(j);
        let post = b.skip(j + 1);
        let rest = pre + post;
        assert(b == pre + seq![x] + post);
        assert forall|k2: u64| #[trigger] with_key(a.drop_first(), k2) == with_key(rest, k2) by {
            lemma_with_key_add(pre + seq![x], post, k2);
            lemma_with_key_add(pre, seq![x], k2);
            lemma_with_key_add(pre, post, k2);
            assert(seq![x].drop_first() == Seq::<T>::empty());
            assert(with_key(Seq::<T>::empty(), k2) == Seq::<T>::empty());
            assert(seq![x][0] == x);
            if k2 == k {
                assert forall|i: int| 0 <= i < pre.len() implies (#[trigger] pre[i]).size_key() != k2 by {
                    assert(pre[i] == b[i]);
                }
                lemma_with_key_none(pre, k2);
                assert(with_key(a, k2) == seq![x] + with_key(a.drop_first(), k2));
                assert(with_key(b, k2) == seq![x] + with_key(post, k2));
                assert(with_key(a.drop_first(), k2) == (seq![x] + with_key(a.drop_first(), k2)).drop_first());
                assert(with_key(post, k2) == (seq![x] + with_key(post, k2)).drop_first());
            } else {
                assert(with_key(seq![x], k2) == Seq::<T>::empty());
                assert(with_key(a, k2) == with_key(a.drop_first(), k2));
            }
        }
        lemma_with_key_sum(a.drop_first(), rest);
        lemma_sum_keys_add(seq![x], a.drop_first());
        assert(a == seq![x] + a.drop_first());
        lemma_sum_keys_add(pre + seq![x], post);
        lemma_sum_keys_add(pre, seq![x]);
        lemma_sum_keys_add(pre, post);
        assert(seq![x].drop_last() == Seq::<T>::empty());
        assert(sum_keys(seq![x]) == sum_keys(Seq::<T>::empty()) + x.size_key());
    }
}

/// Total size of the findings.
pub fn total_size(findings: &Vec<Finding>) -> (r: u64)
    requires
        sum_keys(findings@) <= u64::MAX,
    ensures
        r as int == sum_keys(findings@),
{
    let mut t: u64 = 0;
    let mut i: usize = 0;
    while i < findings.len()
        invariant
            i <= findings@.len(),
            t as int == sum_keys(findings@.take(i as int)),
            sum_keys(findings@) <= u64::MAX,
        decreases findings@.len() - i,
    {
        proof {
            assert(findings@.take(i + 1).drop_last() == findings@.take(i as int));
            lemma_sum_keys_prefix(findings@, i + 1);
        }
        t = t + findings[i].size;
        i = i + 1;
    }
    assert(findings@.take(i as int) == findings@);
    t
}

/// A prefix never sums to more than the whole.
pub proof fn lemma_sum_keys_prefix(s: Seq<Finding>, i: int)
    requires
        0 <= i <= s.len(),
    ensures
        sum_keys(s.take(i)) <= sum_keys(s),
    decreases s.len() - i,
{
    if i < s.len() {
        lemma_sum_keys_prefix(s, i + 1);
        assert(s.take(i + 1).drop_last() == s.take(i));
    } else {
        assert(s.take(i) == s);
    }
}


/// The first `limit` items of `s` (all of them when there is no limit).
pub open spec fn limited<T>(s: Seq<T>, limit: Option<usize>) -> Seq<T> {
    match limit {
        Some(n) => if n < s.len() {
            s.take(n as int)
        } else {
            s
        },
        None => s,
    }
}

/// `r` reports `findings`: sorted by size, largest first (equal sizes in the order
/// found), cut to `limit` items when there is one, and totalled.
pub open spec fn is_scan_of(findings: Seq<Finding>, limit: Option<usize>, r: ScanResult) -> bool {
    &&& exists|sorted: Seq<Finding>|
        is_stable_desc_sort(findings, sorted) && r.findings@ == limited(sorted, limit)
    &&& r.total_size == sum_keys(r.findings@)
}

/// The total size of the findings kept in a scan result fits in a `u64`.
pub open spec fn scan_total_fits(findings: Seq<Finding>, limit: Option<usize>) -> bool {
    forall|sorted: Seq<Finding>| #[trigger] is_stable_desc_sort(findings, sorted) ==> sum_keys(
        limited(sorted, limit),
    ) <= u64::MAX
}

/// Sorting keeps the total size.
pub proof fn lemma_stable_sort_keeps_total(s: Seq<Finding>, r: Seq<Finding>)
    requires
        is_stable_desc_sort(s, r),
    ensures
        sum_keys(r) == sum_keys(s),
{
    lemma_with_key_sum(r, s);
}

/// When all findings together fit, so do those kept.
pub proof fn lemma_scan_total_fits(findings: Seq<Finding>, limit: Option<usize>)
    requires
        sum_keys(findings) <= u64::MAX,
    ensures
        scan_total_fits(findings, limit),
{
    assert forall|sorted: Seq<Finding>| #[trigger] is_stable_desc_sort(findings, sorted) implies sum_keys(
        limited(sorted, limit),
    ) <= u64::MAX by {
        lemma_stable_sort_keeps_total(findings, sorted);
        if let Some(n) = limit {
            if n < sorted.len() {
                lemma_sum_keys_prefix(sorted, n as int);
            }
        }
    }
}

/// The scan result of a scanner: its findings sorted by size (largest first, equal
/// sizes in the order found), cut to `limit` items if given, and their total size.
pub fn build_scan_result(
    scanner_name: String,
    findings: Vec<Finding>,
    limit: Option<usize>,
    duration: u64,
) -> (r: ScanResult)
    requires
        scan_total_fits(findings@, limit),
    ensures
        r.scanner_name == scanner_name,
        r.duration == duration,
        is_scan_of(findings@, limit, r),
{
    let ghost found = findings@;
    let mut sorted = sort_by_size_desc(findings);
    let ghost full = sorted@;
    assert(is_stable_desc_sort(found, full));
    match limit {
        Some(n) => {
            if n < sorted.len() {
                sorted.truncate(n);
            }
        },
        None => {},
    }
    assert(sorted@ == limited(full, limit));
    let total = total_size(&sorted);
    ScanResult { scanner_name, findings: sorted, total_size: total, duration }
}

} // verus!
