use pure::strutil::basename;
use pure::strutil::join_path;
use pure::strutil::parse_usize;
use pure::strutil::str_eq;
use pure::strutil::trim_str;
use pure::strutil::u64_to_dec;

#[test]
fn join_and_basename() {
    assert_eq!(join_path("/a/b", "c"), "/a/b/c");
    assert_eq!(basename("/a/b/c"), "c");
    assert_eq!(basename("plain"), "plain");
    assert_eq!(basename("/a/b/"), "");
    assert_eq!(basename(&join_path("/root", "node_modules")), "node_modules");
}

#[test]
fn decimal_rendering_and_parsing() {
    assert_eq!(u64_to_dec(0), "0");
    assert_eq!(u64_to_dec(7), "7");
    assert_eq!(u64_to_dec(1234), "1234");
    assert_eq!(u64_to_dec(1000000), "1000000");

    assert_eq!(parse_usize("42"), Some(42));
    assert_eq!(parse_usize("0"), Some(0));
    assert_eq!(parse_usize(""), None);
    assert_eq!(parse_usize("4x"), None);
    assert_eq!(parse_usize("-1"), None);
}

#[test]
fn trimming_and_equality() {
    assert_eq!(trim_str("  hello\n"), "hello");
    assert_eq!(trim_str("\t \r\n"), "");
    assert_eq!(trim_str("no-space"), "no-space");
    assert!(str_eq("same", "same"));
    assert!(!str_eq("same", "sane"));
    assert!(!str_eq("same", "same "));
}
