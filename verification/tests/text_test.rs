use dagzet::text::{
    contains_dotdot, decimal, decimal_i32, is_char, is_white, join, padded, parse_i32, parse_upto,
    qualify, split, split_whitespace, starts_with, to_chars,
};
use dagzet::trie::Trie;

fn strings(v: &[&str]) -> Vec<String> {
    v.iter().map(|s| s.to_string()).collect()
}

#[test]
fn tokens_are_runs_without_white_space() {
    assert_eq!(split_whitespace("  a  bb\tc\u{a0}d\u{3000}e "), strings(&["a", "bb", "c", "d", "e"]));
    assert!(split_whitespace("").is_empty());
    assert!(split_whitespace(" \t\n").is_empty());
    assert_eq!(split_whitespace("x"), strings(&["x"]));
}

#[test]
fn white_space_is_the_unicode_property() {
    for c in ['\t', '\n', '\u{b}', '\u{c}', '\r', ' ', '\u{85}', '\u{a0}', '\u{1680}', '\u{2000}',
        '\u{200a}', '\u{2028}', '\u{2029}', '\u{202f}', '\u{205f}', '\u{3000}']
    {
        assert!(is_white(c));
        assert!(c.is_whitespace());
    }
    for c in ['a', '\u{200b}', '\u{8}', '\u{e}', '\u{180e}', '\u{feff}', '0'] {
        assert!(!is_white(c));
        assert!(!c.is_whitespace());
    }
}

#[test]
fn split_keeps_empty_pieces() {
    assert_eq!(split("a/b/c", '/'), strings(&["a", "b", "c"]));
    assert_eq!(split("", '/'), strings(&[""]));
    assert_eq!(split("/a//", '/'), strings(&["", "a", "", ""]));
    assert_eq!(split("abc", '/'), strings(&["abc"]));
}

#[test]
fn join_puts_the_separator_between() {
    assert_eq!(join(&strings(&["a", "b", "c"]), ", "), "a, b, c");
    assert_eq!(join(&strings(&["a"]), "/"), "a");
    assert_eq!(join(&Vec::new(), "/"), "");
    assert_eq!(join(&strings(&["", ""]), "/"), "/");
}

#[test]
fn small_helpers() {
    assert_eq!(to_chars("aé"), vec!['a', 'é']);
    assert!(is_char("$", '$'));
    assert!(!is_char("$$", '$'));
    assert!(!is_char("", '$'));
    assert!(contains_dotdot("a/../b"));
    assert!(contains_dotdot(".."));
    assert!(!contains_dotdot("a.b.c"));
    assert!(!contains_dotdot("."));
    assert_eq!(qualify("ns", "a/b"), "ns/a/b");
    assert!(starts_with("---x", "---"));
    assert!(!starts_with("--", "---"));
    assert!(starts_with("abc", ""));
}

#[test]
fn numbers_are_read_like_the_standard_library() {
    for s in ["0", "7", "-1", "+12", "0012", "2147483647", "-2147483648", "2147483648",
        "-2147483649", "", "+", "-", "1a", " 1", "1 ", "--1", "99999999999999999999", "٣"]
    {
        assert_eq!(parse_i32(s), s.parse::<i32>().ok(), "{}", s);
    }
    for s in ["0", "08", "255", "256", "+3", "-0", "", "+", "12x", "４"] {
        assert_eq!(parse_upto(s, 255), s.parse::<u8>().ok().map(|v| v as u32), "{}", s);
    }
    assert_eq!(parse_upto("65535", 65535), Some(65535));
    assert_eq!(parse_upto("65536", 65535), None);
}

#[test]
fn numbers_are_written_in_decimal() {
    assert_eq!(decimal(0), "0");
    assert_eq!(decimal(9), "9");
    assert_eq!(decimal(10), "10");
    assert_eq!(decimal(18446744073709551615), "18446744073709551615");
    assert_eq!(decimal_i32(-1), "-1");
    assert_eq!(decimal_i32(0), "0");
    assert_eq!(decimal_i32(-2147483648), "-2147483648");
    assert_eq!(decimal_i32(2147483647), "2147483647");
    assert_eq!(padded(5, 2), "05");
    assert_eq!(padded(2025, 4), "2025");
    assert_eq!(padded(0, 4), "0000");
    assert_eq!(padded(123, 2), "123");
}

#[test]
fn search_says_why_it_fails() {
    let mut trie = Trie::default();
    assert_eq!(trie.search("a"), Err("Could not suffix"));
    trie.add_path("a/b/c");
    trie.add_path("f/a/b/c");
    assert_eq!(trie.search("b/c"), Err("Ambiguous suffix"));
    assert_eq!(trie.search("x/c"), Err("Could not suffix"));
    assert_eq!(trie.search("c"), Err("Ambiguous suffix"));
    assert_eq!(trie.search("f/a/b/c"), Ok("f/a/b/c".to_string()));
    assert_eq!(trie.search("a/b/c"), Ok("a/b/c".to_string()));
}

#[test]
fn search_completes_a_single_path() {
    let mut trie = Trie::default();
    trie.add_path("ns/a/b");
    assert_eq!(trie.search("b"), Ok("ns/a/b".to_string()));
    assert_eq!(trie.search("a/b"), Ok("ns/a/b".to_string()));
    assert_eq!(trie.search("ns/a/b"), Ok("ns/a/b".to_string()));
    assert_eq!(trie.search(""), Err("Could not suffix"));
    trie.add_path("ns/a/b");
    assert_eq!(trie.search("b"), Err("Ambiguous suffix"));
    assert_eq!(trie.search("ns/a/b"), Ok("ns/a/b".to_string()));
}

#[test]
fn a_path_that_ends_a_longer_one_is_found_itself() {
    let mut trie = Trie::default();
    trie.add_path("b/c");
    trie.add_path("a/b/c");
    assert_eq!(trie.search("b/c"), Ok("b/c".to_string()));
    assert_eq!(trie.search("c"), Err("Ambiguous suffix"));
}
