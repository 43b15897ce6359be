use clean_up::lexical::str_less;
use clean_up::text::{
    after_last_str, contains_str, ends_with_str, nonempty_pieces_str, replace_first_char_str,
    replace_str, starts_with_str, str_eq, trim_end_char_str, trim_end_str, trim_str,
};

#[test]
fn replace_matches_std() {
    for (s, from, to) in [
        ("abc", "", "-"),
        ("aaa", "aa", "b"),
        ("/Users/u/x/Users/u", "/Users/u", "~"),
        ("", "", "x"),
        ("h\u{e9}llo", "\u{e9}", "e"),
    ] {
        assert_eq!(replace_str(s, from, to), s.replace(from, to));
    }
    assert_eq!(replace_first_char_str("~/a~", '~', "/h"), "~/a~".replacen('~', "/h", 1));
}

#[test]
fn trimming_matches_std() {
    for s in ["", "  ", " a b \n", "\u{3000}x\u{85}", "x///"] {
        assert_eq!(trim_str(s), s.trim());
        assert_eq!(trim_end_char_str(s, '/'), s.trim_end_matches('/'));
    }
    assert_eq!(trim_end_str("x.app.app", ".app"), "x");
    assert_eq!(trim_end_str("Safari.app", ".app"), "Safari");
}

#[test]
fn splitting_and_searching_match_std() {
    let s = "\na\n\nb c\n";
    let pieces: Vec<String> = s.split('\n').filter(|p| !p.is_empty()).map(String::from).collect();
    assert_eq!(nonempty_pieces_str(s, '\n'), pieces);
    assert_eq!(after_last_str("a/b/", '/'), "");
    assert_eq!(after_last_str("plain", '/'), "plain");
    assert!(starts_with_str("/System/x", "/System/"));
    assert!(!starts_with_str("/Sys", "/System/"));
    assert!(ends_with_str("A.app", ".app"));
    assert!(contains_str("xx/Library/Apple/yy", "/Library/Apple/"));
    assert!(!contains_str("abc", "abd"));
    assert!(str_eq("a\u{e9}", "a\u{e9}"));
    assert!(!str_eq("a", "ab"));
}

#[test]
fn code_point_order_matches_string_order() {
    let words = ["", "a", "ab", "b", "B", "\u{e9}", "\u{1F600}", "\u{ffff}", "Z"];
    for x in words {
        for y in words {
            assert_eq!(str_less(x, y), x < y, "{:?} < {:?}", x, y);
        }
    }
}
