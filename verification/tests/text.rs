use alkane::path;
use alkane::text;

fn chars(s: &str) -> Vec<char> {
    s.chars().collect()
}

#[test]
fn to_chars_gives_every_character() {
    assert_eq!(chars(""), text::to_chars(""));
    assert_eq!(vec!['a', '.', 'b'], text::to_chars("a.b"));
    assert_eq!(vec!['h', '\u{e9}', '\u{4e2d}'], text::to_chars("h\u{e9}\u{4e2d}"));
}

#[test]
fn same_compares_characters() {
    assert!(text::same("", ""));
    assert!(text::same("db", "db"));
    assert!(!text::same("db", "dB"));
    assert!(!text::same("db", "dbs"));
    assert!(!text::same("dbs", "db"));
}

#[test]
fn occurs_finds_a_pattern_at_a_position() {
    let hay = chars("%domain%.%tld%");
    assert!(text::occurs(&hay, &chars("%domain%"), 0));
    assert!(text::occurs(&hay, &chars("%tld%"), 9));
    assert!(!text::occurs(&hay, &chars("%tld%"), 8));
    assert!(!text::occurs(&hay, &chars("%tld%"), 10));
    assert!(!text::occurs(&hay, &chars("%tld%"), 100));
    assert!(text::occurs(&hay, &chars(""), 14));
    assert!(!text::occurs(&hay, &chars(""), 15));
}

#[test]
fn contains_str_finds_a_pattern_anywhere() {
    assert!(text::contains_str("a/%tld%", "%tld%"));
    assert!(text::contains_str("%tld%/a", "%tld%"));
    assert!(text::contains_str("%tld%", "%tld%"));
    assert!(!text::contains_str("%tld", "%tld%"));
    assert!(!text::contains_str("", "%tld%"));
    assert!(text::contains_str("", ""));
    assert!(text::contains_str("abc", ""));
}

#[test]
fn replace_str_replaces_every_occurrence() {
    assert_eq!("a-b-c", text::replace_str("a/b/c", "/", "-"));
    assert_eq!("x.org/x.org", text::replace_str("%fqdn%/%fqdn%", "%fqdn%", "x.org"));
    assert_eq!("abc", text::replace_str("abc", "%fqdn%", "x.org"));
    assert_eq!("", text::replace_str("", "/", "-"));
    assert_eq!("", text::replace_str("//", "/", ""));
    assert_eq!("ab", text::replace_str("ab", "abc", "x"));
}

#[test]
fn replace_str_takes_matches_from_the_left_without_overlap() {
    assert_eq!("ba", text::replace_str("aaa", "aa", "b"));
    assert_eq!("bb", text::replace_str("aaaa", "aa", "b"));
    assert_eq!("aaaa", text::replace_str("aa", "a", "aa"));
    assert_eq!("%%x", text::replace_str("%%%a%", "%a%", "x"));
}

#[test]
fn replace_str_leaves_the_text_where_the_pattern_is_empty() {
    assert_eq!("abc", text::replace_str("abc", "", "-"));
}

#[test]
fn count_of_and_positions_agree() {
    let name = chars("bar.foo.acme.eu.org");
    assert_eq!(4, text::count_of(&name, '.'));
    assert_eq!(vec![3, 7, 12, 15], text::positions(&name, '.'));
    assert_eq!(0, text::count_of(&chars(""), '.'));
    assert!(text::positions(&chars("org"), '.').is_empty());
}

#[test]
fn whitespace_is_what_unicode_calls_white_space() {
    for c in ['\t', '\n', '\u{b}', '\u{c}', '\r', ' ', '\u{85}', '\u{a0}', '\u{1680}', '\u{2000}',
        '\u{2005}', '\u{200a}', '\u{2028}', '\u{2029}', '\u{202f}', '\u{205f}', '\u{3000}']
    {
        assert!(text::whitespace(c), "{:?}", c);
    }
    for c in ['a', '.', '/', '\u{8}', '\u{e}', '\u{200b}', '\u{180e}', '\u{feff}', '\u{2060}'] {
        assert!(!text::whitespace(c), "{:?}", c);
    }
}

#[test]
fn whitespace_agrees_with_the_standard_library() {
    let mut code: u32 = 0;
    while code <= 0x10ffff {
        if let Some(c) = char::from_u32(code) {
            assert_eq!(c.is_whitespace(), text::whitespace(c), "U+{:04X}", code);
        }
        code += 1;
    }
}

#[test]
fn join_puts_one_separator_between() {
    assert_eq!("/www/example.org", path::join("/www", "example.org", "/"));
    assert_eq!("/www/example.org", path::join("/www/", "example.org", "/"));
    assert_eq!("example.org", path::join("", "example.org", "/"));
    assert_eq!("/www/", path::join("/www", "", "/"));
    assert_eq!("/", path::join("/", "", "/"));
    assert_eq!("", path::join("", "", "/"));
    assert_eq!("a/b/c", path::join("a/b", "c", "/"));
}

#[test]
fn join_lets_an_absolute_path_stand_alone() {
    assert_eq!("/etc/passwd", path::join("/www", "/etc/passwd", "/"));
    assert_eq!("/", path::join("/www", "/", "/"));
}

#[test]
fn join_knows_no_separator_but_the_given_one() {
    assert_eq!("/www/\\foo", path::join("/www/", "foo", "\\"));
    assert_eq!("C:\\www\\/abs", path::join("C:\\www", "/abs", "\\"));
    assert_eq!("D:\\x\\C:\\abs", path::join("D:\\x", "C:\\abs", "\\"));
}

#[test]
fn join_works_with_any_separator() {
    assert_eq!("C:\\www\\example.org", path::join("C:\\www", "example.org", "\\"));
    assert_eq!("C:\\www\\example.org", path::join("C:\\www\\", "example.org", "\\"));
    assert_eq!("\\abs", path::join("C:\\www", "\\abs", "\\"));
    assert_eq!("a::b", path::join("a", "b", "::"));
    assert_eq!("a::b", path::join("a::", "b", "::"));
    assert_eq!("ab", path::join("a", "b", ""));
}

#[test]
fn join_agrees_with_the_standard_library_where_slash_is_the_separator() {
    // Where the machine parts paths by something else, the standard
    // library also reads `/` and drive prefixes, which `join` does not.
    if std::path::MAIN_SEPARATOR_STR != "/" {
        return;
    }
    let roots = ["", "/", "/www", "/www/", "www", "a/b", "a//", "."];
    let subs = ["", "foo", "foo/bar", "/abs", "/", "./x", "..", "example.org/foo"];
    for root in roots {
        for sub in subs {
            let expected = std::path::Path::new(root).join(sub);
            assert_eq!(
                expected.to_str().unwrap(),
                path::join(root, sub, "/"),
                "{:?} and {:?}",
                root,
                sub
            );
        }
    }
}

#[test]
fn normalize_str_turns_every_slash() {
    assert_eq!("a\\b\\c", path::normalize_str("a/b/c", "\\"));
    assert_eq!("a/b/c", path::normalize_str("a/b/c", "/"));
    assert_eq!("\\\\", path::normalize_str("//", "\\"));
    assert_eq!("abc", path::normalize_str("abc", "\\"));
}

#[test]
fn path_separator_is_that_of_the_machine() {
    assert_eq!(std::path::MAIN_SEPARATOR_STR, path::separator());
    assert!(path::separator() == "/" || path::separator() == "\\");
}
