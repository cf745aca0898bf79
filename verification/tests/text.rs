use fullmoon::text::{chars_of, replace, string_of, string_of_range, trim};

#[test]
fn chars_and_back() {
    let v = chars_of("héllo");
    assert_eq!(v, vec!['h', 'é', 'l', 'l', 'o']);
    assert_eq!(string_of(&v), "héllo");
    assert_eq!(string_of_range(&v, 1, 4), "éll");
    assert_eq!(string_of_range(&v, 2, 2), "");
    assert_eq!(chars_of(""), Vec::<char>::new());
}

#[test]
fn trim_cuts_both_ends_only() {
    assert_eq!(trim("  a b \n"), "a b");
    assert_eq!(trim("a"), "a");
    assert_eq!(trim(""), "");
    assert_eq!(trim(" \t\r\n "), "");
    assert_eq!(trim("\u{3000}x\u{00A0}"), "x");
    assert_eq!(trim("x  y"), "x  y");
}

#[test]
fn trim_agrees_with_std() {
    for s in ["", " ", "a ", " a", " a b ", "\n\na\n\n", "\u{2028}z\u{2029}", "no"] {
        assert_eq!(trim(s), s.trim());
    }
}

#[test]
fn replace_every_occurrence() {
    assert_eq!(replace("a-b-c", "-", "+"), "a+b+c");
    assert_eq!(replace("aaa", "aa", "b"), "ba");
    assert_eq!(replace("abc", "x", "y"), "abc");
    assert_eq!(replace("abc", "abc", ""), "");
    assert_eq!(replace("abc", "abcd", "z"), "abc");
    assert_eq!(replace("", "a", "b"), "");
    assert_eq!(replace("one\r\ntwo\r\n", "\r\n", "\n"), "one\ntwo\n");
    assert_eq!(replace("xx", "x", "xx"), "xxxx");
}

#[test]
fn replace_with_empty_pattern_changes_nothing() {
    assert_eq!(replace("abc", "", "z"), "abc");
}

#[test]
fn replace_agrees_with_std() {
    let cases = [("abab", "ab", "c"), ("aaaa", "aa", "a"), ("{{char}} and {{char}}", "{{char}}", "Luna"), ("ababa", "aba", "x")];
    for (s, from, to) in cases {
        assert_eq!(replace(s, from, to), s.replace(from, to));
    }
}
