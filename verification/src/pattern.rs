use vstd::prelude::*;

verus! {

/// What `regex::Regex::new(pattern)` followed by `Regex::captures(haystack)` gives:
/// `None` when the pattern does not compile or nothing matches, else the text of
/// each capture group of the leftmost-first match (group 0 is the whole match, and a
/// group that took no part in the match is `None`).
pub uninterp spec fn regex_captures(pattern: Seq<char>, haystack: Seq<char>) -> Option<
    Seq<Option<Seq<char>>>,
>;

/// Compiles `pattern` with `regex::Regex::new` and runs `Regex::captures` on
/// `haystack`; the groups are copied out as strings. The contract only names the
/// result: the regex crate's matching is not restated here.
#[verifier::external_body]
pub(crate) fn regex_captures_exec(pattern: &str, haystack: &str) -> (r: Option<Vec<Option<String>>>)
    ensures
        r.deep_view() == regex_captures(pattern@, haystack@),
{
    let re = match regex::Regex::new(pattern) {
        Ok(re) => re,
        Err(_) => return None,
    };
    re.captures(haystack).map(|c| c.iter().map(|m| m.map(|m| m.as_str().to_string())).collect())
}

/// Capture group `i` of a `regex_captures` result, when there was a match and the
/// group took part in it.
pub open spec fn capture_group(caps: Option<Seq<Option<Seq<char>>>>, i: int) -> Option<Seq<char>> {
    match caps {
        Some(g) => if 0 <= i < g.len() {
            g[i]
        } else {
            None
        },
        None => None,
    }
}

/// Capture group `i` of a result of `regex_captures_exec`.
pub fn capture_group_exec(caps: &Option<Vec<Option<String>>>, i: usize) -> (r: Option<String>)
    ensures
        r.deep_view() == capture_group(caps.deep_view(), i as int),
{
    match caps {
        Some(g) => {
            if i < g.len() {
                match &g[i] {
                    Some(t) => Some(t.clone()),
                    None => None,
                }
            } else {
                None
            }
        },
        None => None,
    }
}

} // verus!
