use alkane::services::tld::{count_chars, extract_domain_parts, get_tld, SuffixTable};

const SUFFIX_LIST: &str = "// A short public suffix list.\n\
// ===BEGIN ICANN DOMAINS===\n\
\n\
org\n\
eu.org\n\
\n\
// uk : https://www.nic.uk\n\
uk\n\
co.uk\n\
  tld  \n\
com\r\n\
\r\n\
fr";

fn suffixes() -> SuffixTable {
    SuffixTable::parse(SUFFIX_LIST)
}

fn parts(subdomain: &str, domain: &str, suffix: &str) -> Option<(String, String, String)> {
    Some((String::from(subdomain), String::from(domain), String::from(suffix)))
}

#[test]
fn test_get_tld() {
    assert_eq!("eu.org", get_tld("foo.acme.eu.org", &suffixes()))
}

#[test]
fn test_extract_domain_parts() {
    let cases: Vec<(&str, Option<(String, String, String)>)> = vec![
        // Regular TLD cases
        ("foo.acme.org", parts("foo", "acme", "org")),
        ("acme.org", None),
        ("org", None),
        ("", None),
        // Composite TLD from the public suffix list
        ("foo.acme.co.uk", parts("foo", "acme", "co.uk")),
        ("foo.acme.eu.org", parts("foo", "acme", "eu.org")),
        // Longer subdomain
        ("bar.foo.acme.eu.org", parts("bar.foo", "acme", "eu.org")),
    ];
    let table = suffixes();
    for (fqdn, expected) in cases {
        assert_eq!(expected, extract_domain_parts(fqdn, &table), "Test with {}", fqdn);
    }
}

#[test]
fn suffix_prefers_the_longest_listed_match() {
    let table = suffixes();
    assert_eq!("eu.org", get_tld("foo.acme.eu.org", &table));
    assert_eq!("co.uk", get_tld("foo.acme.co.uk", &table));
    assert_eq!("org", get_tld("foo.acme.org", &table));
    assert_eq!("uk", get_tld("acme.uk", &table));
    assert_eq!("eu.org", get_tld("eu.org", &table));
}

#[test]
fn suffix_falls_back_to_the_last_label() {
    let table = suffixes();
    assert_eq!("internal", get_tld("foo.acme.internal", &table));
    assert_eq!("localhost", get_tld("localhost", &table));
    assert_eq!("", get_tld("", &table));
    assert_eq!("", get_tld("foo.acme.", &table));
}

#[test]
fn suffix_match_is_exact_and_case_sensitive() {
    let table = suffixes();
    assert_eq!("ORG", get_tld("foo.acme.ORG", &table));
    assert_eq!("UK", get_tld("foo.acme.co.UK", &table));
    assert_eq!("xorg", get_tld("foo.xorg", &table));
}

#[test]
fn empty_table_lists_nothing() {
    let table = SuffixTable::parse("");
    assert_eq!(0, table.len());
    assert!(!table.contains("org"));
    assert!(!table.contains(""));
    assert_eq!("org", get_tld("foo.acme.eu.org", &table));
    assert_eq!(
        parts("foo.acme", "eu", "org"),
        extract_domain_parts("foo.acme.eu.org", &table)
    );
}

#[test]
fn table_skips_comments_and_blank_lines() {
    let table = suffixes();
    assert_eq!(7, table.len());
    for suffix in ["org", "eu.org", "uk", "co.uk", "tld", "com", "fr"] {
        assert!(table.contains(suffix), "{} should be listed", suffix);
    }
    assert!(!table.contains("// A short public suffix list."));
    assert!(!table.contains("// uk : https://www.nic.uk"));
    assert!(!table.contains(""));
    assert!(!table.contains("  tld  "));
    assert!(!table.contains("com\r"));
    assert!(!table.contains("eu"));
    assert!(!table.contains("Org"));
}

#[test]
fn table_keeps_lines_as_they_are() {
    let table = SuffixTable::parse("*.ck\n!www.ck\n/ not a comment\nmid // dle\n\u{3000}jp\u{a0}\n//\n");
    assert_eq!(5, table.len());
    assert!(table.contains("*.ck"));
    assert!(table.contains("!www.ck"));
    assert!(table.contains("/ not a comment"));
    assert!(table.contains("mid // dle"));
    assert!(table.contains("jp"));
    assert!(!table.contains("ck"));
    assert!(!table.contains("//"));
}

#[test]
fn parts_need_a_domain_and_a_subdomain() {
    let table = suffixes();
    assert_eq!(None, extract_domain_parts("acme.co.uk", &table));
    assert_eq!(None, extract_domain_parts("co.uk", &table));
    assert_eq!(None, extract_domain_parts("acme.internal", &table));
    assert_eq!(
        parts("a", "b", "internal"),
        extract_domain_parts("a.b.internal", &table)
    );
    assert_eq!(parts("", "acme", "org"), extract_domain_parts(".acme.org", &table));
    assert_eq!(parts("foo", "", "org"), extract_domain_parts("foo..org", &table));
    assert_eq!(parts("a", "b", ""), extract_domain_parts("a.b.", &table));
}

#[test]
fn parts_give_the_name_back() {
    let table = suffixes();
    let names = [
        "foo.acme.org",
        "bar.foo.acme.eu.org",
        "foo.acme.co.uk",
        "a.b.c.d.e.internal",
        ".acme.org",
        "foo..org",
        "a.b.",
        "..",
        "www.example.com",
    ];
    for name in names {
        let (subdomain, domain, suffix) =
            extract_domain_parts(name, &table).expect("the name has parts");
        assert_eq!(name, format!("{}.{}.{}", subdomain, domain, suffix));
        assert_eq!(suffix, get_tld(name, &table));
    }
}

#[test]
fn count_chars_counts_every_occurrence() {
    assert_eq!(0, count_chars("", '.'));
    assert_eq!(0, count_chars("org", '.'));
    assert_eq!(1, count_chars("co.uk", '.'));
    assert_eq!(3, count_chars(".a..", '.'));
    assert_eq!(5, count_chars("h\u{e9}llo w\u{f6}rld, hello", 'l'));
    assert_eq!(1, count_chars("h\u{e9}llo w\u{f6}rld, hello", 'e'));
}
