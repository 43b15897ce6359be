use vstd::prelude::*;
use vstd::string::*;

verus! {

/// The characters of `s`, in order.
pub fn chars_of(s: &str) -> (r: Vec<char>)
    ensures
        r@ == s@,
{
    let mut r: Vec<char> = Vec::new();
    for c in it: s.chars()
        invariant
            r@ == it.seq().take(it.index() as int),
            it.seq() == s@,
    {
        r.push(c);
    }
    r
}

/// Unicode `White_Space` characters, as `char::is_whitespace` reports them.
pub open spec fn is_white_space(c: char) -> bool {
    let v = c as u32;
    ||| 0x09 <= v <= 0x0D
    ||| v == 0x20
    ||| v == 0x85
    ||| v == 0xA0
    ||| v == 0x1680
    ||| 0x2000 <= v <= 0x200A
    ||| v == 0x2028
    ||| v == 0x2029
    ||| v == 0x202F
    ||| v == 0x205F
    ||| v == 0x3000
}

pub fn is_white_space_exec(c: char) -> (r: bool)
    ensures
        r == is_white_space(c),
{
    let v = c as u32;
    (0x09 <= v && v <= 0x0D) || v == 0x20 || v == 0x85 || v == 0xA0 || v == 0x1680 || (0x2000
        <= v && v <= 0x200A) || v == 0x2028 || v == 0x2029 || v == 0x202F || v == 0x205F || v
        == 0x3000
}

/// `s` without its leading white space.
pub open spec fn trim_start(s: Seq<char>) -> Seq<char>
    decreases s.len(),
{
    if s.len() > 0 && is_white_space(s[0]) {
        trim_start(s.drop_first())
    } else {
        s
    }
}

/// `s` without its trailing white space.
pub open spec fn trim_end(s: Seq<char>) -> Seq<char>
    decreases s.len(),
{
    if s.len() > 0 && is_white_space(s.last()) {
        trim_end(s.drop_last())
    } else {
        s
    }
}

/// `s` without leading and trailing white space, as `str::trim` gives it.
pub open spec fn trim(s: Seq<char>) -> Seq<char> {
    trim_end(trim_start(s))
}

proof fn lemma_trim_start_skip(s: Seq<char>, i: int)
    requires
        0 <= i <= s.len(),
        forall|k: int| 0 <= k < i ==> is_white_space(#[trigger] s[k]),
    ensures
        trim_start(s) == trim_start(s.subrange(i, s.len() as int)),
    decreases i,
{
    if i > 0 {
        lemma_trim_start_skip(s.drop_first(), i - 1);
        assert(s.drop_first().subrange(i - 1, s.drop_first().len() as int) == s.subrange(
            i,
            s.len() as int,
        ));
    } else {
        assert(s.subrange(0, s.len() as int) == s);
    }
}

proof fn lemma_trim_end_cut(s: Seq<char>, j: int)
    requires
        0 <= j <= s.len(),
        forall|k: int| j <= k < s.len() ==> is_white_space(#[trigger] s[k]),
    ensures
        trim_end(s) == trim_end(s.subrange(0, j)),
    decreases s.len() - j,
{
    if j < s.len() {
        lemma_trim_end_cut(s.drop_last(), j);
        assert(s.drop_last().subrange(0, j) == s.subrange(0, j));
    } else {
        assert(s.subrange(0, j) == s);
    }
}

/// The bounds `[lo, hi)` of the trimmed part of `cs`.
pub fn trim_bounds(cs: &Vec<char>) -> (r: (usize, usize))
    ensures
        r.0 <= r.1 <= cs@.len(),
        cs@.subrange(r.0 as int, r.1 as int) == trim(cs@),
{
    let n = cs.len();
    let mut lo: usize = 0;
    while lo < n && is_white_space_exec(cs[lo])
        invariant
            lo <= n == cs@.len(),
            forall|k: int| 0 <= k < lo ==> is_white_space(#[trigger] cs@[k]),
        decreases n - lo,
    {
        lo = lo + 1;
    }
    proof {
        lemma_trim_start_skip(cs@, lo as int);
    }
    let ghost rest = cs@.subrange(lo as int, n as int);
    assert(trim_start(rest) == rest);
    let mut hi: usize = n;
    while hi > lo && is_white_space_exec(cs[hi - 1])
        invariant
            lo <= hi <= n == cs@.len(),
            rest == cs@.subrange(lo as int, n as int),
            forall|k: int| hi <= k < n ==> is_white_space(#[trigger] cs@[k]),
        decreases hi,
    {
        hi = hi - 1;
    }
    proof {
        assert forall|k: int| hi - lo <= k < rest.len() implies is_white_space(#[trigger] rest[k]) by {
            assert(rest[k] == cs@[lo + k]);
        }
        lemma_trim_end_cut(rest, hi - lo);
        assert(rest.subrange(0, hi - lo) == cs@.subrange(lo as int, hi as int));
        let t = rest.subrange(0, hi - lo);
        if t.len() > 0 {
            assert(t.last() == cs@[hi - 1]);
        }
    }
    (lo, hi)
}

/// `s` with leading and trailing white space removed.
pub fn trim_str(s: &str) -> (r: String)
    ensures
        r@ == trim(s@),
{
    let cs = chars_of(s);
    let (lo, hi) = trim_bounds(&cs);
    s.substring_char(lo, hi).to_string()
}


/// Number of bytes of `c` in UTF-8.
pub open spec fn utf8_width(c: char) -> int {
    let v = c as u32;
    if v < 0x80 {
        1
    } else if v < 0x800 {
        2
    } else if v < 0x10000 {
        3
    } else {
        4
    }
}

/// Number of bytes of `cs` in UTF-8 (`str::len`).
pub open spec fn utf8_len(cs: Seq<char>) -> int
    decreases cs.len(),
{
    if cs.len() == 0 {
        0
    } else {
        utf8_len(cs.drop_last()) + utf8_width(cs.last())
    }
}

pub fn utf8_width_exec(c: char) -> (r: usize)
    ensures
        r as int == utf8_width(c),
        1 <= r <= 4,
{
    let v = c as u32;
    if v < 0x80 {
        1
    } else if v < 0x800 {
        2
    } else if v < 0x10000 {
        3
    } else {
        4
    }
}

/// The index of the character of `cs` at which byte offset `b` falls, when
/// `b` is a character boundary (the end counts as one).
pub open spec fn char_index_at_byte(cs: Seq<char>, b: int) -> Option<int> {
    char_index_at_byte_from(cs, b, 0)
}

pub open spec fn char_index_at_byte_from(cs: Seq<char>, b: int, k: int) -> Option<int>
    decreases cs.len() + 1 - k,
{
    if k < 0 || k > cs.len() {
        None
    } else if utf8_len(cs.take(k)) == b {
        Some(k)
    } else if utf8_len(cs.take(k)) > b {
        None
    } else {
        char_index_at_byte_from(cs, b, k + 1)
    }
}

/// The characters of `cs` whose bytes span `[a, b)`; `None` when `a` or `b`
/// is not a character boundary, where slicing a `str` panics.
pub open spec fn byte_slice(cs: Seq<char>, a: int, b: int) -> Option<Seq<char>> {
    match (char_index_at_byte(cs, a), char_index_at_byte(cs, b)) {
        (Some(i), Some(j)) => if i <= j {
            Some(cs.subrange(i, j))
        } else {
            None
        },
        _ => None,
    }
}

proof fn lemma_utf8_len_take_step(cs: Seq<char>, k: int)
    requires
        0 <= k < cs.len(),
    ensures
        utf8_len(cs.take(k + 1)) == utf8_len(cs.take(k)) + utf8_width(cs[k]),
{
    assert(cs.take(k + 1).drop_last() == cs.take(k));
}

/// The character index at byte offset `b` of `cs`, as `char_index_at_byte`.
pub fn char_index_at_byte_exec(cs: &Vec<char>, b: usize) -> (r: Option<usize>)
    ensures
        r matches Some(k) ==> char_index_at_byte(cs@, b as int) == Some(k as int),
        r is None ==> char_index_at_byte(cs@, b as int) is None,
{
    let n = cs.len();
    let mut k: usize = 0;
    let mut acc: usize = 0;
    assert(cs@.take(0) == Seq::<char>::empty());
    while k < n && acc < b
        invariant
            k <= n == cs@.len(),
            acc as int == utf8_len(cs@.take(k as int)),
            acc <= b,
            char_index_at_byte(cs@, b as int) == char_index_at_byte_from(cs@, b as int, k as int),
        decreases n - k,
    {
        proof {
            lemma_utf8_len_take_step(cs@, k as int);
        }
        let w = utf8_width_exec(cs[k]);
        if w > b - acc {
            proof {
                assert(char_index_at_byte_from(cs@, b as int, k + 1) is None);
            }
            return None;
        }
        acc = acc + w;
        k = k + 1;
    }
    if acc == b {
        Some(k)
    } else {
        assert(char_index_at_byte_from(cs@, b as int, k + 1) is None);
        None
    }
}


/// The part of `s` after the last `sep` (all of `s` when there is none):
/// the first item that `str::rsplit(sep)` yields.
pub open spec fn after_last(s: Seq<char>, sep: char) -> Seq<char>
    decreases s.len(),
{
    if s.len() == 0 {
        s
    } else if s.last() == sep {
        Seq::empty()
    } else {
        after_last(s.drop_last(), sep).push(s.last())
    }
}

/// The part of `s` after the last `sep`.
pub fn after_last_str(s: &str, sep: char) -> (r: String)
    ensures
        r@ == after_last(s@, sep),
{
    let cs = chars_of(s);
    let n = cs.len();
    let mut i: usize = n;
    assert(cs@.take(n as int) == cs@);
    assert(cs@.subrange(n as int, n as int) == Seq::<char>::empty());
    assert(after_last(cs@, sep) + Seq::<char>::empty() == after_last(cs@, sep));
    while i > 0 && cs[i - 1] != sep
        invariant
            i <= n == cs@.len(),
            after_last(cs@, sep) == after_last(cs@.take(i as int), sep) + cs@.subrange(
                i as int,
                n as int,
            ),
        decreases i,
    {
        proof {
            let t = cs@.take(i as int);
            assert(t.drop_last() == cs@.take(i - 1));
            assert(cs@.subrange(i - 1, n as int) == seq![cs@[i - 1]] + cs@.subrange(
                i as int,
                n as int,
            ));
            assert(after_last(t, sep) == after_last(t.drop_last(), sep).push(t.last()));
            assert(after_last(cs@.take(i - 1), sep).push(cs@[i - 1]) + cs@.subrange(
                i as int,
                n as int,
            ) == after_last(cs@.take(i - 1), sep) + cs@.subrange(i - 1, n as int));
        }
        i = i - 1;
    }
    proof {
        if i > 0 {
            assert(after_last(cs@.take(i as int), sep) == Seq::<char>::empty());
        } else {
            assert(cs@.take(0) == Seq::<char>::empty());
        }
        assert(Seq::<char>::empty() + cs@.subrange(i as int, n as int) == cs@.subrange(
            i as int,
            n as int,
        ));
    }
    s.substring_char(i, n).to_string()
}

/// Decimal digits of `n`, as `Display` writes an unsigned integer.
pub open spec fn decimal(n: nat) -> Seq<char>
    decreases n,
{
    if n < 10 {
        seq![digit_char(n)]
    } else {
        decimal(n / 10).push(digit_char(n % 10))
    }
}

pub open spec fn digit_char(d: nat) -> char {
    if d == 0 {
        '0'
    } else if d == 1 {
        '1'
    } else if d == 2 {
        '2'
    } else if d == 3 {
        '3'
    } else if d == 4 {
        '4'
    } else if d == 5 {
        '5'
    } else if d == 6 {
        '6'
    } else if d == 7 {
        '7'
    } else if d == 8 {
        '8'
    } else {
        '9'
    }
}

fn digit_str(d: u64) -> (r: &'static str)
    requires
        d < 10,
    ensures
        r@ == seq![digit_char(d as nat)],
{
    proof {
        reveal_strlit("0");
        reveal_strlit("1");
        reveal_strlit("2");
        reveal_strlit("3");
        reveal_strlit("4");
        reveal_strlit("5");
        reveal_strlit("6");
        reveal_strlit("7");
        reveal_strlit("8");
        reveal_strlit("9");
    }
    if d == 0 {
        "0"
    } else if d == 1 {
        "1"
    } else if d == 2 {
        "2"
    } else if d == 3 {
        "3"
    } else if d == 4 {
        "4"
    } else if d == 5 {
        "5"
    } else if d == 6 {
        "6"
    } else if d == 7 {
        "7"
    } else if d == 8 {
        "8"
    } else {
        "9"
    }
}

/// Appends the decimal digits of `n` to `out`.
pub fn push_decimal(out: &mut String, n: u64)
    ensures
        final(out)@ == old(out)@ + decimal(n as nat),
    decreases n,
{
    if n < 10 {
        out.append(digit_str(n));
    } else {
        push_decimal(out, n / 10);
        out.append(digit_str(n % 10));
        proof {
            assert(decimal(n as nat) == decimal((n / 10) as nat).push(digit_char((n % 10) as nat)));
        }
    }
}


/// Bytes of `t` from character `i` to character `j` count at least `j - i`.
pub proof fn lemma_utf8_len_take_grows(cs: Seq<char>, i: int, j: int)
    requires
        0 <= i <= j <= cs.len(),
    ensures
        utf8_len(cs.take(j)) - utf8_len(cs.take(i)) >= j - i,
        utf8_len(cs.take(j)) - utf8_len(cs.take(i)) <= 4 * (j - i),
    decreases j - i,
{
    if i < j {
        lemma_utf8_len_take_grows(cs, i, j - 1);
        lemma_utf8_len_take_step(cs, j - 1);
    }
}

/// What `char_index_at_byte` finds is a character index whose prefix spans `b` bytes.
pub proof fn lemma_char_index_at_byte(cs: Seq<char>, b: int, k: int)
    requires
        char_index_at_byte(cs, b) == Some(k),
    ensures
        0 <= k <= cs.len(),
        utf8_len(cs.take(k)) == b,
{
    lemma_char_index_at_byte_from(cs, b, 0, k);
}

proof fn lemma_char_index_at_byte_from(cs: Seq<char>, b: int, from: int, k: int)
    requires
        char_index_at_byte_from(cs, b, from) == Some(k),
    ensures
        0 <= k <= cs.len(),
        utf8_len(cs.take(k)) == b,
    decreases cs.len() + 1 - from,
{
    if from < 0 || from > cs.len() {
    } else if utf8_len(cs.take(from)) == b {
    } else if utf8_len(cs.take(from)) > b {
    } else {
        lemma_char_index_at_byte_from(cs, b, from + 1, k);
    }
}

/// A copy of `cs[lo..hi]`.
pub fn copy_range(cs: &Vec<char>, lo: usize, hi: usize) -> (r: Vec<char>)
    requires
        lo <= hi <= cs@.len(),
    ensures
        r@ == cs@.subrange(lo as int, hi as int),
{
    let mut r: Vec<char> = Vec::new();
    let mut i = lo;
    while i < hi
        invariant
            lo <= i <= hi <= cs@.len(),
            r@ == cs@.subrange(lo as int, i as int),
        decreases hi - i,
    {
        r.push(cs[i]);
        i = i + 1;
    }
    r
}

/// Whether `cs` spans at least `min` bytes in UTF-8.
pub fn utf8_len_at_least(cs: &Vec<char>, min: usize) -> (r: bool)
    requires
        min <= 0x10000,
    ensures
        r == (utf8_len(cs@) >= min),
{
    let n = cs.len();
    let mut i: usize = 0;
    let mut acc: usize = 0;
    assert(cs@.take(0) == Seq::<char>::empty());
    while i < n && acc < min
        invariant
            i <= n == cs@.len(),
            acc as int == utf8_len(cs@.take(i as int)),
            acc <= min + 4,
            min <= 0x10000,
        decreases n - i,
    {
        proof {
            lemma_utf8_len_take_step(cs@, i as int);
        }
        acc = acc + utf8_width_exec(cs[i]);
        i = i + 1;
    }
    proof {
        lemma_utf8_len_take_grows(cs@, i as int, n as int);
        assert(cs@.take(n as int) == cs@);
    }
    acc >= min
}


/// `s` begins with `p`.
pub open spec fn starts_with(s: Seq<char>, p: Seq<char>) -> bool {
    p.len() <= s.len() && s.take(p.len() as int) == p
}

/// `s` ends with `p`.
pub open spec fn ends_with(s: Seq<char>, p: Seq<char>) -> bool {
    p.len() <= s.len() && s.skip(s.len() - p.len()) == p
}

/// `p` occurs in `s` at index `i`.
pub open spec fn occurs_at(s: Seq<char>, p: Seq<char>, i: int) -> bool {
    0 <= i && i + p.len() <= s.len() && s.subrange(i, i + p.len()) == p
}

/// `p` occurs somewhere in `s` (`str::contains`).
pub open spec fn contains(s: Seq<char>, p: Seq<char>) -> bool {
    exists|i: int| occurs_at(s, p, i)
}

/// Whether `ps` occurs in `cs` at `i`.
pub fn occurs_at_exec(cs: &Vec<char>, ps: &Vec<char>, i: usize) -> (r: bool)
    ensures
        r == occurs_at(cs@, ps@, i as int),
{
    let n = cs.len();
    let m = ps.len();
    if i > n || m > n - i {
        return false;
    }
    let mut k: usize = 0;
    while k < m
        invariant
            k <= m == ps@.len(),
            i + m <= n == cs@.len(),
            forall|x: int| 0 <= x < k ==> cs@[i + x] == ps@[x],
        decreases m - k,
    {
        if cs[i + k] != ps[k] {
            assert(cs@.subrange(i as int, i + m)[k as int] != ps@[k as int]);
            return false;
        }
        k = k + 1;
    }
    assert(cs@.subrange(i as int, i + m) == ps@);
    true
}

/// Whether `s` begins with `p`.
pub fn starts_with_str(s: &str, p: &str) -> (r: bool)
    ensures
        r == starts_with(s@, p@),
{
    let cs = chars_of(s);
    let ps = chars_of(p);
    let r = occurs_at_exec(&cs, &ps, 0);
    assert(cs@.subrange(0, ps@.len() as int) == cs@.take(ps@.len() as int));
    r
}

/// Whether `s` ends with `p`.
pub fn ends_with_str(s: &str, p: &str) -> (r: bool)
    ensures
        r == ends_with(s@, p@),
{
    let cs = chars_of(s);
    let ps = chars_of(p);
    if ps.len() > cs.len() {
        return false;
    }
    let r = occurs_at_exec(&cs, &ps, cs.len() - ps.len());
    assert(cs@.subrange(cs@.len() - ps@.len(), cs@.len() as int) == cs@.skip(
        cs@.len() - ps@.len(),
    ));
    r
}

/// Whether `ps` occurs anywhere in `cs`.
pub fn contains_chars(cs: &Vec<char>, ps: &Vec<char>) -> (r: bool)
    ensures
        r == contains(cs@, ps@),
{
    let n = cs.len();
    let m = ps.len();
    if m > n {
        assert forall|i: int| !occurs_at(cs@, ps@, i) by {}
        return false;
    }
    let mut i: usize = 0;
    loop
        invariant
            m <= n,
            i <= n - m,
            n == cs@.len(),
            m == ps@.len(),
            forall|j: int| 0 <= j < i ==> !occurs_at(cs@, ps@, j),
        ensures
            forall|j: int| 0 <= j <= n - m ==> !occurs_at(cs@, ps@, j),
        decreases n - m - i,
    {
        if occurs_at_exec(cs, ps, i) {
            return true;
        }
        if i == n - m {
            break;
        }
        i = i + 1;
    }
    assert forall|j: int| !occurs_at(cs@, ps@, j) by {
        if 0 <= j <= n - m {
        }
    }
    false
}

/// Whether `p` occurs anywhere in `s` (`str::contains`).
pub fn contains_str(s: &str, p: &str) -> (r: bool)
    ensures
        r == contains(s@, p@),
{
    let cs = chars_of(s);
    let ps = chars_of(p);
    contains_chars(&cs, &ps)
}

/// Whether two strings hold the same characters.
pub fn str_eq(a: &str, b: &str) -> (r: bool)
    ensures
        r == (a@ == b@),
{
    let x = chars_of(a);
    let y = chars_of(b);
    if x.len() != y.len() {
        return false;
    }
    let r = occurs_at_exec(&x, &y, 0);
    assert(x@.subrange(0, y@.len() as int) == x@);
    r
}

/// Index of the first `c` in `s`.
pub open spec fn find_char(s: Seq<char>, c: char) -> Option<int>
    decreases s.len(),
{
    if s.len() == 0 {
        None
    } else if s[0] == c {
        Some(0)
    } else {
        match find_char(s.drop_first(), c) {
            Some(i) => Some(i + 1),
            None => None,
        }
    }
}

/// Index of the first `c` in `cs` at or after `from`, relative to `from`.
pub fn find_char_from(cs: &Vec<char>, from: usize, c: char) -> (r: Option<usize>)
    requires
        from <= cs@.len(),
    ensures
        r matches Some(i) ==> find_char(cs@.skip(from as int), c) == Some(i as int) && from + i
            < cs@.len(),
        r is None ==> find_char(cs@.skip(from as int), c) is None,
{
    let n = cs.len();
    let mut i = from;
    while i < n && cs[i] != c
        invariant
            from <= i <= n == cs@.len(),
            find_char(cs@.skip(from as int), c) == match find_char(cs@.skip(i as int), c) {
                Some(k) => Some(k + (i - from)),
                None => None,
            },
        decreases n - i,
    {
        assert(cs@.skip(i as int).drop_first() == cs@.skip(i + 1));
        i = i + 1;
    }
    if i < n {
        Some(i - from)
    } else {
        None
    }
}

/// `s` without the trailing run of `c` (`str::trim_end_matches(c)`).
pub open spec fn trim_end_char(s: Seq<char>, c: char) -> Seq<char>
    decreases s.len(),
{
    if s.len() > 0 && s.last() == c {
        trim_end_char(s.drop_last(), c)
    } else {
        s
    }
}

/// `s` without any number of trailing copies of `p` (`str::trim_end_matches(p)`).
pub open spec fn trim_end_seq(s: Seq<char>, p: Seq<char>) -> Seq<char>
    decreases s.len(),
{
    if p.len() > 0 && ends_with(s, p) {
        trim_end_seq(s.take(s.len() - p.len()), p)
    } else {
        s
    }
}

/// `s` without its trailing run of `c`.
pub fn trim_end_char_str(s: &str, c: char) -> (r: String)
    ensures
        r@ == trim_end_char(s@, c),
{
    let cs = chars_of(s);
    let mut j = cs.len();
    assert(cs@.take(cs@.len() as int) == cs@);
    while j > 0 && cs[j - 1] == c
        invariant
            j <= cs@.len(),
            trim_end_char(cs@, c) == trim_end_char(cs@.take(j as int), c),
        decreases j,
    {
        assert(cs@.take(j as int).drop_last() == cs@.take(j - 1));
        j = j - 1;
    }
    assert(cs@.take(cs@.len() as int) == cs@);
    s.substring_char(0, j).to_string()
}

/// `s` without its trailing copies of `p`.
pub fn trim_end_str(s: &str, p: &str) -> (r: String)
    ensures
        r@ == trim_end_seq(s@, p@),
{
    let cs = chars_of(s);
    let ps = chars_of(p);
    let m = ps.len();
    let mut j = cs.len();
    assert(cs@.take(cs@.len() as int) == cs@);
    if m > 0 {
        while j >= m && occurs_at_exec(&cs, &ps, j - m)
            invariant
                j <= cs@.len(),
                m == ps@.len(),
                m > 0,
                trim_end_seq(cs@, ps@) == trim_end_seq(cs@.take(j as int), ps@),
            decreases j,
        {
            proof {
                let t = cs@.take(j as int);
                assert(t.skip(t.len() - m) == cs@.subrange(j - m, j as int));
                assert(t.take(t.len() - m) == cs@.take(j - m));
            }
            j = j - m;
        }
        proof {
            let t = cs@.take(j as int);
            if m <= j {
                assert(t.skip(t.len() - m) == cs@.subrange(j - m, j as int));
            }
        }
    }
    s.substring_char(0, j).to_string()
}

/// `s` with every occurrence of `from` replaced by `to`, left to right
/// (`str::replace`; an empty `from` matches before every character and at the end).
pub open spec fn replace_all(s: Seq<char>, from: Seq<char>, to: Seq<char>) -> Seq<char>
    decreases s.len(),
{
    if from.len() == 0 {
        if s.len() == 0 {
            to
        } else {
            to + seq![s[0]] + replace_all(s.drop_first(), from, to)
        }
    } else if s.len() == 0 {
        s
    } else if starts_with(s, from) {
        to + replace_all(s.skip(from.len() as int), from, to)
    } else {
        seq![s[0]] + replace_all(s.drop_first(), from, to)
    }
}

/// `s` with every occurrence of `from` replaced by `to`.
pub fn replace_str(s: &str, from: &str, to: &str) -> (r: String)
    ensures
        r@ == replace_all(s@, from@, to@),
{
    let cs = chars_of(s);
    let fs = chars_of(from);
    let n = cs.len();
    let m = fs.len();
    let mut out = String::new();
    let mut i: usize = 0;
    assert(cs@.skip(0) == cs@);
    if m == 0 {
        while i < n
            invariant
                i <= n == cs@.len(),
                cs@ == s@,
                m == fs@.len() == 0,
                out@ + replace_all(cs@.skip(i as int), fs@, to@) == replace_all(cs@, fs@, to@),
            decreases n - i,
        {
            proof {
                let t = cs@.skip(i as int);
                assert(t.drop_first() == cs@.skip(i + 1));
                assert(t[0] == cs@[i as int]);
            }
            out.append(to);
            out.append(s.substring_char(i, i + 1));
            i = i + 1;
        }
        out.append(to);
        return out;
    }
    let mut run: usize = 0;
    while i < n
        invariant
            run <= i <= n == cs@.len(),
            cs@ == s@,
            m == fs@.len() > 0,
            out@ + cs@.subrange(run as int, i as int) + replace_all(cs@.skip(i as int), fs@, to@)
                == replace_all(cs@, fs@, to@),
        decreases n - i,
    {
        let ghost t = cs@.skip(i as int);
        if occurs_at_exec(&cs, &fs, i) {
            proof {
                assert(t.take(m as int) == cs@.subrange(i as int, i + m));
                assert(t.skip(m as int) == cs@.skip(i + m));
                assert(replace_all(t, fs@, to@) == to@ + replace_all(cs@.skip(i + m), fs@, to@));
            }
            out.append(s.substring_char(run, i));
            out.append(to);
            proof {
                assert(cs@.subrange((i + m) as int, (i + m) as int) == Seq::<char>::empty());
            }
            i = i + m;
            run = i;
        } else {
            proof {
                if m <= t.len() {
                    assert(t.take(m as int) == cs@.subrange(i as int, i + m));
                }
                assert(t.drop_first() == cs@.skip(i + 1));
                assert(t[0] == cs@[i as int]);
                assert(cs@.subrange(run as int, i + 1) == cs@.subrange(run as int, i as int) + seq![
                    cs@[i as int],
                ]);
            }
            i = i + 1;
        }
    }
    out.append(s.substring_char(run, n));
    out
}

/// `s` with its first `c` replaced by `to` (`str::replacen(c, to, 1)`).
pub open spec fn replace_first_char(s: Seq<char>, c: char, to: Seq<char>) -> Seq<char> {
    match find_char(s, c) {
        Some(i) => s.take(i) + to + s.skip(i + 1),
        None => s,
    }
}

proof fn lemma_find_char_in_range(s: Seq<char>, c: char)
    ensures
        find_char(s, c) matches Some(i) ==> 0 <= i < s.len() && s[i] == c,
    decreases s.len(),
{
    if s.len() > 0 && s[0] != c {
        lemma_find_char_in_range(s.drop_first(), c);
    }
}

/// `s` with its first `c` replaced by `to`.
pub fn replace_first_char_str(s: &str, c: char, to: &str) -> (r: String)
    ensures
        r@ == replace_first_char(s@, c, to@),
{
    let cs = chars_of(s);
    assert(cs@.skip(0) == cs@);
    proof {
        lemma_find_char_in_range(cs@, c);
    }
    match find_char_from(&cs, 0, c) {
        Some(i) => {
            let mut out = s.substring_char(0, i).to_string();
            out.append(to);
            out.append(s.substring_char(i + 1, cs.len()));
            out
        },
        None => s.to_string(),
    }
}

/// The non-empty pieces of `s` between occurrences of `sep`, in order
/// (`s.split(sep).filter(|p| !p.is_empty())`).
pub open spec fn nonempty_pieces(s: Seq<char>, sep: char) -> Seq<Seq<char>> {
    pieces_from(s, sep, Seq::empty())
}

/// The non-empty pieces of `cur + s`, where `cur` holds no `sep`.
pub open spec fn pieces_from(s: Seq<char>, sep: char, cur: Seq<char>) -> Seq<Seq<char>>
    decreases s.len(),
{
    if s.len() == 0 {
        if cur.len() > 0 {
            seq![cur]
        } else {
            Seq::empty()
        }
    } else if s[0] == sep {
        let head = if cur.len() > 0 {
            seq![cur]
        } else {
            Seq::empty()
        };
        head + pieces_from(s.drop_first(), sep, Seq::empty())
    } else {
        pieces_from(s.drop_first(), sep, cur.push(s[0]))
    }
}

/// The views of a vector of strings.
pub open spec fn views(v: Seq<String>) -> Seq<Seq<char>> {
    v.map_values(|x: String| x@)
}

/// The non-empty pieces of `s` between occurrences of `sep`.
pub fn nonempty_pieces_str(s: &str, sep: char) -> (r: Vec<String>)
    ensures
        views(r@) == nonempty_pieces(s@, sep),
{
    let cs = chars_of(s);
    let n = cs.len();
    let mut out: Vec<String> = Vec::new();
    let mut i: usize = 0;
    let mut start: usize = 0;
    assert(cs@.skip(0) == cs@);
    assert(views(out@) == Seq::<Seq<char>>::empty());
    assert(cs@.subrange(0, 0) == Seq::<char>::empty());
    assert(Seq::<Seq<char>>::empty() + nonempty_pieces(cs@, sep) == nonempty_pieces(cs@, sep));
    while i < n
        invariant
            start <= i <= n == cs@.len(),
            cs@ == s@,
            views(out@) + pieces_from(cs@.skip(i as int), sep, cs@.subrange(start as int, i as int))
                == nonempty_pieces(cs@, sep),
        decreases n - i,
    {
        let ghost t = cs@.skip(i as int);
        let ghost cur = cs@.subrange(start as int, i as int);
        assert(t.drop_first() == cs@.skip(i + 1));
        assert(t[0] == cs@[i as int]);
        if cs[i] == sep {
            if i > start {
                let piece = s.substring_char(start, i).to_string();
                let ghost old_out = out@;
                out.push(piece);
                proof {
                    assert(views(out@) == views(old_out) + seq![piece@]);
                    assert(views(old_out) + (seq![cur] + pieces_from(cs@.skip(i + 1), sep, Seq::empty()))
                        == views(out@) + pieces_from(cs@.skip(i + 1), sep, Seq::empty()));
                }
            } else {
                assert(Seq::<Seq<char>>::empty() + pieces_from(cs@.skip(i + 1), sep, Seq::empty())
                    == pieces_from(cs@.skip(i + 1), sep, Seq::empty()));
            }
            assert(cs@.subrange(i + 1, i + 1) == Seq::<char>::empty());
            i = i + 1;
            start = i;
        } else {
            assert(cs@.subrange(start as int, i + 1) == cur.push(cs@[i as int]));
            i = i + 1;
        }
    }
    assert(cs@.skip(n as int) == Seq::<char>::empty());
    if start < n {
        let piece = s.substring_char(start, n).to_string();
        let ghost old_out = out@;
        out.push(piece);
        assert(views(out@) == views(old_out) + seq![piece@]);
    } else {
        assert(views(out@) + Seq::<Seq<char>>::empty() == views(out@));
    }
    out
}

/// Unicode lowercase of `s`, as `str::to_lowercase` gives it.
pub uninterp spec fn lowercase(s: Seq<char>) -> Seq<char>;

/// Calls `str::to_lowercase`; the result is taken to be `lowercase` of the input.
#[verifier::external_body]
pub(crate) fn to_lowercase(s: &str) -> (r: String)
    ensures
        r@ == lowercase(s@),
{
    s.to_lowercase()
}

} // verus!
