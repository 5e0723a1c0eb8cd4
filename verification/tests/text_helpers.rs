use rnvim::text::{
    decimal, find_char, parse_usize, replace_all, replace_first, starts_with, str_eq, trim,
    trim_end_char,
};

#[test]
fn parse_usize_like_std() {
    for s in ["0", "7", "+5", "007", "18446744073709551615", "", "+", "-0", "-5", " 1", "1 ", "1a", "18446744073709551616", "++1"] {
        assert_eq!(parse_usize(s), s.parse::<usize>().ok(), "input {:?}", s);
    }
}

#[test]
fn decimal_formats() {
    assert_eq!(decimal(0), "0");
    assert_eq!(decimal(7777), "7777");
    assert_eq!(decimal(u64::MAX), u64::MAX.to_string());
}

#[test]
fn trim_matches_std() {
    for s in ["", "  ", "\u{2003}x y\u{85}", "\tLinux x86_64\r\n", "a"] {
        assert_eq!(trim(s), s.trim());
    }
}

#[test]
fn replacing_characters() {
    assert_eq!(replace_first("~/a/~", '~', "$HOME"), "$HOME/a/~");
    assert_eq!(replace_first("/abs", '~', "$HOME"), "/abs");
    assert_eq!(replace_all("it's 'x'", '\'', "'\\''"), "it'\\''s '\\''x'\\''");
    assert_eq!(replace_all("a'b'", '\'', ""), "ab");
    assert_eq!(trim_end_char("/a/b///", '/'), "/a/b");
    assert_eq!(trim_end_char("///", '/'), "");
}

#[test]
fn comparisons_and_search() {
    assert!(str_eq("abc", "abc"));
    assert!(!str_eq("abc", "abd"));
    assert!(starts_with("/home/u", "/ho"));
    assert!(!starts_with("/h", "/home"));
    assert_eq!(find_char("host:dir:x", ':'), Some(4));
    assert_eq!(find_char("nocolon", ':'), None);
}
