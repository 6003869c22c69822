use polywatcher::clob::address_string;
use polywatcher::text::{contains_text, hex_string, lowercase, same_text, trim};

#[test]
fn trim_removes_unicode_whitespace() {
    assert_eq!(trim("  abc \t\n"), "abc");
    assert_eq!(trim("\u{3000}x y\u{a0}"), "x y");
    assert_eq!(trim("   "), "");
    assert_eq!(trim(""), "");
    assert_eq!(trim("a"), "a");
}

#[test]
fn contains_finds_substrings() {
    assert!(contains_text("hello world", "o w"));
    assert!(contains_text("abc", ""));
    assert!(contains_text("abc", "abc"));
    assert!(!contains_text("abc", "abcd"));
    assert!(!contains_text("abcab", "ba"));
    assert!(contains_text("açaí", "aí"));
}

#[test]
fn hex_and_address_text() {
    assert_eq!(hex_string(&vec![0x00, 0x0f, 0xab, 0xff]), "000fabff");
    assert_eq!(address_string(&vec![0xde, 0xad]), "0xdead");
}

#[test]
fn lowercase_and_equality() {
    assert_eq!(lowercase("MiXeD 123"), "mixed 123");
    assert_eq!(lowercase("ÁÉ"), "áé");
    assert!(same_text("abc", "abc"));
    assert!(!same_text("abc", "abd"));
    assert!(!same_text("abc", "ab"));
}
