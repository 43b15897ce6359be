use vstd::prelude::*;
use crate::findings::{build_scan_result, lemma_scan_total_fits, is_scan_of, sum_keys};
use crate::pattern::{capture_group, capture_group_exec, regex_captures, regex_captures_exec};
use crate::types::{Finding, ScanResult};
use crate::text::{
    after_last, after_last_str, decimal, push_decimal, str_eq, trim_end_seq, trim_end_str,
    byte_slice, char_index_at_byte, char_index_at_byte_exec, chars_of, copy_range,
    lemma_char_index_at_byte, lemma_utf8_len_take_grows, trim, trim_bounds, utf8_len,
    utf8_len_at_least,
};

verus! {

pub open spec fn is_ascii_digit(c: char) -> bool {
    '0' <= c <= '9'
}

/// Value of a run of decimal digits.
pub open spec fn digits_value(d: Seq<char>) -> int
    decreases d.len(),
{
    if d.len() == 0 {
        0
    } else {
        digits_value(d.drop_last()) * 10 + (d.last() as u32 - '0' as u32)
    }
}

/// Whether `f` starts with a sign character.
pub open spec fn has_sign(f: Seq<char>) -> bool {
    f.len() > 0 && (f[0] == '+' || f[0] == '-')
}

/// `f` without its sign character.
pub open spec fn unsigned_part(f: Seq<char>) -> Seq<char> {
    if has_sign(f) {
        f.drop_first()
    } else {
        f
    }
}

pub open spec fn all_ascii_digits(d: Seq<char>) -> bool {
    forall|i: int| 0 <= i < d.len() ==> is_ascii_digit(#[trigger] d[i])
}

/// `str::parse::<i64>`: an optional `+` or `-`, then at least one ASCII digit,
/// the value within the range of `i64`.
pub open spec fn parse_i64(f: Seq<char>) -> Option<int> {
    let digits = unsigned_part(f);
    let magnitude = digits_value(digits);
    let v = if has_sign(f) && f[0] == '-' {
        -magnitude
    } else {
        magnitude
    };
    if digits.len() == 0 || !all_ascii_digits(digits) || v < i64::MIN || v > i64::MAX {
        None
    } else {
        Some(v)
    }
}

/// The integer in bytes `[a, b)` of `t`: `None` when the slice is out of
/// bounds, cuts a character, or does not parse.
pub open spec fn datetime_field(t: Seq<char>, a: int, b: int) -> Option<int> {
    match byte_slice(t, a, b) {
        Some(f) => parse_i64(f),
        None => None,
    }
}

/// Gregorian leap year.
pub open spec fn leap_year(y: int) -> bool {
    (y % 4 == 0 && y % 100 != 0) || y % 400 == 0
}

pub open spec fn year_days(y: int) -> int {
    if leap_year(y) {
        366
    } else {
        365
    }
}

/// Days from 1970-01-01 to the first day of year `y` (0 for years up to 1970).
pub open spec fn days_before_year(y: int) -> int
    decreases y - 1970,
{
    if y <= 1970 {
        0
    } else {
        days_before_year(y - 1) + year_days(y - 1)
    }
}

/// Length of month `m` (1 to 12) of year `y`.
pub open spec fn month_length(m: int, y: int) -> int {
    if m == 2 {
        if leap_year(y) {
            29
        } else {
            28
        }
    } else if m == 4 || m == 6 || m == 9 || m == 11 {
        30
    } else {
        31
    }
}

/// Days of year `y` before month `m` (0 for months up to 1).
pub open spec fn days_before_month(m: int, y: int) -> int
    decreases m,
{
    if m <= 1 {
        0
    } else {
        days_before_month(m - 1, y) + month_length(m - 1, y)
    }
}

/// Milliseconds since the epoch of the given calendar fields, as a signed number.
pub open spec fn datetime_ms(year: int, month: int, day: int, hour: int, min: int, sec: int) -> int {
    let days = days_before_year(year) + days_before_month(month, year) + day - 1;
    (days * 86400 + hour * 3600 + min * 60 + sec) * 1000
}

/// A signed 64-bit value read as unsigned (`as u64`).
pub open spec fn wrap_u64(v: int) -> int {
    if v >= 0 {
        v
    } else {
        v + 0x1_0000_0000_0000_0000
    }
}

/// What `parse_datetime_to_ms` gives for `s` of the form `YYYY-MM-DDTHH:MM:SS`
/// (after trimming, read by byte positions, separators not checked): `None` when a
/// field cuts a character or does not parse, or the month is 14 or more (past the
/// table of month lengths; months up to 0 add no days, month 13 adds the whole year).
pub open spec fn parse_datetime_spec(s: Seq<char>) -> Option<int> {
    let t = trim(s);
    if utf8_len(t) < 19 {
        None
    } else {
        match (
            datetime_field(t, 0, 4),
            datetime_field(t, 5, 7),
            datetime_field(t, 8, 10),
            datetime_field(t, 11, 13),
            datetime_field(t, 14, 16),
            datetime_field(t, 17, 19),
        ) {
            (Some(y), Some(mo), Some(d), Some(h), Some(mi), Some(se)) => if mo < 14 {
                Some(wrap_u64(datetime_ms(y, mo, d, h, mi, se)))
            } else {
                None
            },
            _ => None,
        }
    }
}

/// Leap year test on a year number.
pub fn is_leap_year(y: i64) -> (r: bool)
    ensures
        r == leap_year(y as int),
{
    (y % 4 == 0 && y % 100 != 0) || y % 400 == 0
}

/// Parses at most four characters as `str::parse::<i64>` does.
fn parse_short_i64(f: &Vec<char>, i: usize, j: usize) -> (r: Option<i64>)
    requires
        i <= j <= f@.len(),
        j - i <= 4,
    ensures
        r matches Some(v) ==> parse_i64(f@.subrange(i as int, j as int)) == Some(v as int),
        r is None ==> parse_i64(f@.subrange(i as int, j as int)) is None,
        r matches Some(v) ==> -10000 < v < 10000,
{
    let ghost fs = f@.subrange(i as int, j as int);
    let mut k = i;
    let mut neg = false;
    if k < j && (f[k] == '+' || f[k] == '-') {
        neg = f[k] == '-';
        k = k + 1;
    }
    let ghost signed = has_sign(fs);
    let ghost digits = unsigned_part(fs);
    assert(digits == f@.subrange(k as int, j as int));
    if k == j {
        return None;
    }
    let start = k;
    let mut v: i64 = 0;
    while k < j
        invariant
            start <= k <= j <= f@.len(),
            j - start <= 4,
            digits == f@.subrange(start as int, j as int),
            fs == f@.subrange(i as int, j as int),
            signed == has_sign(fs),
            neg == (signed && fs[0] == '-'),
            digits == unsigned_part(fs),
            forall|x: int| start <= x < k ==> is_ascii_digit(#[trigger] f@[x]),
            v as int == digits_value(f@.subrange(start as int, k as int)),
            0 <= v,
            k - start == 0 ==> v < 1,
            k - start == 1 ==> v < 10,
            k - start == 2 ==> v < 100,
            k - start == 3 ==> v < 1000,
            k - start == 4 ==> v < 10000,
        decreases j - k,
    {
        if !('0' <= f[k] && f[k] <= '9') {
            assert(digits[k - start] == f@[k as int]);
            assert(!is_ascii_digit(digits[k - start]));
            return None;
        }
        proof {
            assert(f@.subrange(start as int, k + 1).drop_last() == f@.subrange(start as int, k as int));
        }
        v = v * 10 + ((f[k] as u32) - ('0' as u32)) as i64;
        k = k + 1;
    }
    assert forall|x: int| 0 <= x < digits.len() implies is_ascii_digit(#[trigger] digits[x]) by {
        assert(digits[x] == f@[start + x]);
    }
    if neg {
        Some(-v)
    } else {
        Some(v)
    }
}


/// The field in bytes `[a, b)` of `t`: `None` when the slice would cut a
/// character, else what parsing it gives.
fn datetime_field_exec(t: &Vec<char>, a: usize, b: usize) -> (r: Option<Option<i64>>)
    requires
        a < b,
        b - a <= 4,
    ensures
        r is None <==> byte_slice(t@, a as int, b as int) is None,
        r matches Some(x) ==> (x matches Some(v) ==> datetime_field(t@, a as int, b as int) == Some(
            v as int,
        )),
        r matches Some(x) ==> (x is None ==> datetime_field(t@, a as int, b as int) is None),
        r matches Some(x) ==> (x matches Some(v) ==> -10000 < v < 10000),
{
    let i = match char_index_at_byte_exec(t, a) {
        Some(i) => i,
        None => {
            return None;
        },
    };
    let j = match char_index_at_byte_exec(t, b) {
        Some(j) => j,
        None => {
            return None;
        },
    };
    proof {
        lemma_char_index_at_byte(t@, a as int, i as int);
        lemma_char_index_at_byte(t@, b as int, j as int);
        if j < i {
            lemma_utf8_len_take_grows(t@, j as int, i as int);
        } else {
            lemma_utf8_len_take_grows(t@, i as int, j as int);
        }
    }
    Some(parse_short_i64(t, i, j))
}

fn month_length_exec(m: i64, y: i64) -> (r: i64)
    ensures
        r as int == month_length(m as int, y as int),
        28 <= r <= 31,
{
    if m == 2 {
        if is_leap_year(y) {
            29
        } else {
            28
        }
    } else if m == 4 || m == 6 || m == 9 || m == 11 {
        30
    } else {
        31
    }
}

/// Parse a datetime string like "2024-01-15T10:30:00Z" to milliseconds since the epoch.
/// The text is trimmed; the six fields are read at fixed byte positions
/// (`YYYY-MM-DDTHH:MM:SS`, separators not checked), each as `str::parse::<i64>` does;
/// a field that would cut a character, or a month of 14 or more, gives `None`.
/// Years before 1970 count no days; a negative total wraps as `as u64` does.
pub fn parse_datetime_to_ms(s: &str) -> (r: Option<u64>)
    ensures
        r matches Some(v) ==> parse_datetime_spec(s@) == Some(v as int),
        r is None ==> parse_datetime_spec(s@) is None,
{
    let cs = chars_of(s);
    let (lo, hi) = trim_bounds(&cs);
    let t = copy_range(&cs, lo, hi);
    assert(t@ == trim(s@));
    if !utf8_len_at_least(&t, 19) {
        return None;
    }
    let year = match datetime_field_exec(&t, 0, 4) {
        Some(Some(v)) => v,
        Some(None) => {
            return None;
        },
        None => {
            return None;
        },
    };
    let month = match datetime_field_exec(&t, 5, 7) {
        Some(Some(v)) => v,
        Some(None) => {
            return None;
        },
        None => {
            return None;
        },
    };
    let day = match datetime_field_exec(&t, 8, 10) {
        Some(Some(v)) => v,
        Some(None) => {
            return None;
        },
        None => {
            return None;
        },
    };
    let hour = match datetime_field_exec(&t, 11, 13) {
        Some(Some(v)) => v,
        Some(None) => {
            return None;
        },
        None => {
            return None;
        },
    };
    let min = match datetime_field_exec(&t, 14, 16) {
        Some(Some(v)) => v,
        Some(None) => {
            return None;
        },
        None => {
            return None;
        },
    };
    let sec = match datetime_field_exec(&t, 17, 19) {
        Some(Some(v)) => v,
        Some(None) => {
            return None;
        },
        None => {
            return None;
        },
    };
    if month >= 14 {
        return None;
    }
    let mut days: i64 = 0;
    let mut y: i64 = 1970;
    while y < year
        invariant
            1970 <= y,
            year < 10000,
            y <= year || y == 1970,
            days as int == days_before_year(y as int),
            0 <= days <= 366 * (y - 1970),
        decreases year - y,
    {
        days = days + if is_leap_year(y) {
            366
        } else {
            365
        };
        y = y + 1;
    }
    assert(days as int == days_before_year(year as int));
    let mut mdays: i64 = 0;
    let mut m: i64 = 1;
    while m < month
        invariant
            1 <= m,
            month < 14,
            m <= month || m == 1,
            mdays as int == days_before_month(m as int, year as int),
            0 <= mdays <= 31 * (m - 1),
        decreases month - m,
    {
        mdays = mdays + month_length_exec(m, year);
        m = m + 1;
    }
    assert(mdays as int == days_before_month(month as int, year as int));
    let total_days: i64 = days + mdays + day - 1;
    let total_ms: i64 = (total_days * 86400 + hour * 3600 + min * 60 + sec) * 1000;
    assert(total_ms as int == datetime_ms(
        year as int,
        month as int,
        day as int,
        hour as int,
        min as int,
        sec as int,
    ));
    if total_ms >= 0 {
        Some(total_ms as u64)
    } else {
        Some(u64::MAX - ((-(total_ms + 1)) as u64))
    }
}


/// Apple apps (and this app) that are never flagged as unused.
pub open spec fn skip_apps() -> Seq<Seq<char>> {
    seq![
        "Safari.app"@,
        "Mail.app"@,
        "Terminal.app"@,
        "Activity Monitor.app"@,
        "System Preferences.app"@,
        "System Settings.app"@,
        "App Store.app"@,
        "Calculator.app"@,
        "Calendar.app"@,
        "Contacts.app"@,
        "Dictionary.app"@,
        "Disk Utility.app"@,
        "FaceTime.app"@,
        "Finder.app"@,
        "Font Book.app"@,
        "Home.app"@,
        "Keychain Access.app"@,
        "Maps.app"@,
        "Messages.app"@,
        "Migration Assistant.app"@,
        "Music.app"@,
        "News.app"@,
        "Notes.app"@,
        "Photo Booth.app"@,
        "Photos.app"@,
        "Podcasts.app"@,
        "Preview.app"@,
        "QuickTime Player.app"@,
        "Reminders.app"@,
        "Screenshot.app"@,
        "Shortcuts.app"@,
        "Siri.app"@,
        "Stocks.app"@,
        "TextEdit.app"@,
        "Time Machine.app"@,
        "TV.app"@,
        "Voice Memos.app"@,
        "Weather.app"@,
        "Console.app"@,
        "Automator.app"@,
        "Books.app"@,
        "Chess.app"@,
        "Clock.app"@,
        "Freeform.app"@,
        "Grapher.app"@,
        "Image Capture.app"@,
        "Launchpad.app"@,
        "Mission Control.app"@,
        "Stickies.app"@,
        "clean-up.app"@,
        "Clean Up.app"@,
    ]
}

/// Whether the app bundle `name` is one that is never flagged.
pub fn is_skipped_app(name: &str) -> (r: bool)
    ensures
        r == skip_apps().contains(name@),
{
    let names: Vec<&'static str> = vec![
        "Safari.app",
        "Mail.app",
        "Terminal.app",
        "Activity Monitor.app",
        "System Preferences.app",
        "System Settings.app",
        "App Store.app",
        "Calculator.app",
        "Calendar.app",
        "Contacts.app",
        "Dictionary.app",
        "Disk Utility.app",
        "FaceTime.app",
        "Finder.app",
        "Font Book.app",
        "Home.app",
        "Keychain Access.app",
        "Maps.app",
        "Messages.app",
        "Migration Assistant.app",
        "Music.app",
        "News.app",
        "Notes.app",
        "Photo Booth.app",
        "Photos.app",
        "Podcasts.app",
        "Preview.app",
        "QuickTime Player.app",
        "Reminders.app",
        "Screenshot.app",
        "Shortcuts.app",
        "Siri.app",
        "Stocks.app",
        "TextEdit.app",
        "Time Machine.app",
        "TV.app",
        "Voice Memos.app",
        "Weather.app",
        "Console.app",
        "Automator.app",
        "Books.app",
        "Chess.app",
        "Clock.app",
        "Freeform.app",
        "Grapher.app",
        "Image Capture.app",
        "Launchpad.app",
        "Mission Control.app",
        "Stickies.app",
        "clean-up.app",
        "Clean Up.app",
    ];
    assert(names@.map_values(|x: &str| x@) =~= skip_apps());
    let mut i: usize = 0;
    while i < names.len()
        invariant
            i <= names@.len(),
            names@.map_values(|x: &str| x@) == skip_apps(),
            forall|j: int| 0 <= j < i ==> skip_apps()[j] != name@,
        decreases names@.len() - i,
    {
        assert(skip_apps()[i as int] == names@[i as int]@);
        if str_eq(names[i], name) {
            assert(skip_apps()[i as int] == name@);
            return true;
        }
        i = i + 1;
    }
    false
}

/// Extract the `.app` name from a full path: the text after the last `/`.
pub fn app_name(app_path: &str) -> (r: String)
    ensures
        r@ == after_last(app_path@, '/'),
{
    after_last_str(app_path, '/')
}

/// Thirty days in milliseconds.
pub open spec fn month_ms() -> int {
    2_592_000_000
}

/// `ms` in months of thirty days, rounded to the nearest (halves up).
pub open spec fn months_rounded(ms: int) -> int {
    (ms + month_ms() / 2) / month_ms()
}

/// How `format_months` words a duration.
pub open spec fn format_months_spec(ms: int) -> Seq<char> {
    let n = months_rounded(ms);
    if n == 0 {
        "less than a month"@
    } else if n == 1 {
        "1 month"@
    } else {
        decimal(n as nat) + " months"@
    }
}

/// Format a duration in months (rounded).
pub fn format_months(ms: u64) -> (r: String)
    ensures
        r@ == format_months_spec(ms as int),
{
    let months: u64 = ms / 2_592_000_000 + if ms % 2_592_000_000 >= 1_296_000_000 {
        1
    } else {
        0
    };
    assert(months as int == months_rounded(ms as int)) by (nonlinear_arith)
        requires
            months as int == ms / 2_592_000_000 + if ms % 2_592_000_000 >= 1_296_000_000 {
                1int
            } else {
                0int
            },
    {
    }
    if months == 0 {
        "less than a month".to_string()
    } else if months == 1 {
        "1 month".to_string()
    } else {
        let mut out = String::new();
        push_decimal(&mut out, months);
        out.append(" months");
        assert(Seq::<char>::empty() + decimal(months as nat) == decimal(months as nat));
        out
    }
}

/// Months of inactivity before an app is flagged, in milliseconds (six months of thirty days).
pub open spec fn stale_ms() -> int {
    15_552_000_000
}

/// The last-use time before which an app counts as unused, for the current time
/// `current_ms` (saturating at 0).
pub fn cutoff_time(current_ms: u64) -> (r: u64)
    ensures
        r as int == if current_ms >= stale_ms() {
            current_ms - stale_ms()
        } else {
            0
        },
{
    current_ms.saturating_sub(15_552_000_000)
}

/// Minimum app size to bother reporting (1 MB).
pub open spec fn min_app_size() -> u64 {
    0x10_0000
}

/// Whether an app bundle of `size` bytes is large enough to report.
pub fn is_reportable_size(size: u64) -> (r: bool)
    ensures
        r == (size >= min_app_size()),
{
    size >= 0x10_0000
}

pub open spec fn last_used_pattern() -> Seq<char> {
    "kMDItemLastUsedDate\\s*=\\s*(\\d{4}-\\d{2}-\\d{2}) (\\d{2}:\\d{2}:\\d{2})"@
}

/// The timestamp text for the last use of an app, given what the last-used pattern
/// captured on the `mdls` output: the date and time groups joined as `<date>T<time>Z`.
pub open spec fn last_used_text_from(caps: Option<Seq<Option<Seq<char>>>>) -> Option<Seq<char>> {
    match (capture_group(caps, 1), capture_group(caps, 2)) {
        (Some(date), Some(time)) => Some(date + "T"@ + time + "Z"@),
        _ => None,
    }
}

/// The timestamp text that `mdls` output gives for the last use of an app.
pub open spec fn last_used_text(mdls: Seq<char>) -> Option<Seq<char>> {
    last_used_text_from(regex_captures(last_used_pattern(), mdls))
}

/// The last use (ms since the epoch) that a timestamp text gives, if any.
pub open spec fn last_used_ms(text: Option<Seq<char>>) -> Option<int> {
    match text {
        Some(t) => parse_datetime_spec(t),
        None => None,
    }
}

/// The last-used date of an app (ms since the epoch), given what the last-used pattern
/// captured on its `mdls` output.
pub fn last_used_from_captures(caps: &Option<Vec<Option<String>>>) -> (r: Option<u64>)
    ensures
        r matches Some(v) ==> last_used_ms(last_used_text_from(caps.deep_view())) == Some(v as int),
        r is None ==> last_used_ms(last_used_text_from(caps.deep_view())) is None,
{
    let date = capture_group_exec(caps, 1);
    let time = capture_group_exec(caps, 2);
    match (date, time) {
        (Some(date), Some(time)) => {
            let mut text = date;
            text.append("T");
            text.append(time.as_str());
            text.append("Z");
            parse_datetime_to_ms(text.as_str())
        },
        _ => None,
    }
}

/// The last-used date of an app (ms since the epoch) from the `mdls` output for
/// `kMDItemLastUsedDate`.
pub fn last_used_from_mdls(mdls: &str) -> (r: Option<u64>)
    ensures
        r matches Some(v) ==> last_used_ms(last_used_text(mdls@)) == Some(v as int),
        r is None ==> last_used_ms(last_used_text(mdls@)) is None,
{
    let caps = regex_captures_exec(
        "kMDItemLastUsedDate\\s*=\\s*(\\d{4}-\\d{2}-\\d{2}) (\\d{2}:\\d{2}:\\d{2})",
        mdls,
    );
    last_used_from_captures(&caps)
}

pub open spec fn no_usage_reason() -> Seq<char> {
    "No usage data \u{2014} may be unused"@
}

/// What an app that passed the earlier checks reports, given its last use: an app used
/// at or after the cutoff is not reported; else its age is the time since last use (or,
/// without usage data, the span of the cutoff), labelled by its name without `.app`.
pub open spec fn unused_app_spec(
    name: Seq<char>,
    last_used: Option<u64>,
    current_ms: u64,
    cutoff: u64,
) -> Option<(Seq<char>, int, Seq<char>)> {
    let label = trim_end_seq(name, ".app"@);
    match last_used {
        Some(t) => if t >= cutoff {
            None
        } else {
            let age = if current_ms >= t {
                current_ms - t
            } else {
                0
            };
            Some((label, age, "Not opened in "@ + format_months_spec(age)))
        },
        None => {
            let age = if current_ms >= cutoff {
                current_ms - cutoff
            } else {
                0
            };
            Some((label, age, no_usage_reason()))
        },
    }
}

/// The finding for the app at `app_path` (bundle `name`, `size` bytes) last used at
/// `last_used`, or `None` when it was used recently.
pub fn unused_app_finding(
    app_path: String,
    name: &str,
    size: u64,
    last_used: Option<u64>,
    current_ms: u64,
    cutoff: u64,
) -> (r: Option<Finding>)
    ensures
        unused_app_spec(name@, last_used, current_ms, cutoff) is None ==> r is None,
        unused_app_spec(name@, last_used, current_ms, cutoff) matches Some(x) ==> (r matches Some(f)
            && f.path == app_path && f.label@ == x.0 && f.size == size && f.age as int == x.1
            && f.reason@ == x.2 && f.effort is None),
        (match (last_used, r) {
            (Some(t), Some(f)) => f.age as int == (if current_ms >= t {
                current_ms - t
            } else {
                0
            }) && f.reason@ == "Not opened in "@ + format_months_spec(f.age as int),
            _ => true,
        }),
        (match last_used {
            Some(t) => (r is Some <==> t < cutoff),
            None => r is Some,
        }),
{
    let label = trim_end_str(name, ".app");
    match last_used {
        Some(t) => {
            if t >= cutoff {
                return None;
            }
            let age = current_ms.saturating_sub(t);
            assert(age as int == if current_ms >= t {
                current_ms - t
            } else {
                0
            });
            let mut reason = "Not opened in ".to_string();
            let months = format_months(age);
            reason.append(months.as_str());
            assert(reason@ == "Not opened in "@ + format_months_spec(age as int));
            Some(Finding { path: app_path, label, size, age, reason, effort: None })
        },
        None => {
            let age = current_ms.saturating_sub(cutoff);
            Some(
                Finding {
                    path: app_path,
                    label,
                    size,
                    age,
                    reason: "No usage data \u{2014} may be unused".to_string(),
                    effort: None,
                },
            )
        },
    }
}

/// Name of this scanner.
pub open spec fn scanner_name() -> Seq<char> {
    "Unused Apps"@
}

/// The scan result of the unused apps scanner for its findings.
pub fn unused_apps_scan_result(findings: Vec<Finding>, duration: u64) -> (r: ScanResult)
    requires
        sum_keys(findings@) <= u64::MAX,
    ensures
        r.scanner_name@ == scanner_name(),
        r.duration == duration,
        is_scan_of(findings@, None, r),
{
    proof {
        lemma_scan_total_fits(findings@, None);
    }
    build_scan_result("Unused Apps".to_string(), findings, None, duration)
}

/// An app is reported only when it was not used since the cutoff (or there is no
/// usage data); an app used at or after the cutoff never is.
pub proof fn lemma_unused_only_when_stale(
    name: Seq<char>,
    last_used: Option<u64>,
    current_ms: u64,
    cutoff: u64,
)
    ensures
        unused_app_spec(name, last_used, current_ms, cutoff) is Some <==> match last_used {
            Some(t) => t < cutoff,
            None => true,
        },
{
}

/// An app reported with a known last use is as old as the time since that use, and its
/// reason words that very age in months: `Not opened in <months of its age>`.
pub proof fn lemma_unused_reason_words_age(
    name: Seq<char>,
    last_used: u64,
    current_ms: u64,
    cutoff: u64,
)
    ensures
        unused_app_spec(name, Some(last_used), current_ms, cutoff) matches Some(x) ==> {
            &&& x.1 == if current_ms >= last_used {
                current_ms - last_used
            } else {
                0
            }
            &&& x.2 == "Not opened in "@ + format_months_spec(x.1)
        },
{
}

} // verus!
