use castr::store::StringMap;
use castr::text;

#[test]
fn trim_takes_unicode_white_space_from_both_ends() {
    assert_eq!(text::trim("  bob\t\n"), "bob");
    assert_eq!(text::trim("\u{3000}\u{a0}b o b\u{2003}"), "b o b");
    assert_eq!(text::trim(" \u{2028} "), "");
    assert_eq!(text::trim("\u{200b}x\u{200b}"), "\u{200b}x\u{200b}");
    assert_eq!(text::trim(""), "");
}

#[test]
fn trim_agrees_with_std_on_every_character() {
    let mut n: u32 = 0;
    while n <= 0x3100 {
        if let Some(c) = char::from_u32(n) {
            let s = format!("{}x{}", c, c);
            assert_eq!(text::trim(&s), s.trim(), "{:x}", n);
            assert_eq!(text::is_white_space(c), c.is_whitespace(), "{:x}", n);
        }
        n += 1;
    }
}

#[test]
fn leading_and_trailing_parts_go_as_often_as_they_stand() {
    assert_eq!(text::trim_leading("///a/b", "/"), "a/b");
    assert_eq!(text::trim_leading("Bearer Bearer t", "Bearer "), "t");
    assert_eq!(text::trim_leading("abc", "bc"), "abc");
    assert_eq!(text::trim_trailing("x.flv.flv", ".flv"), "x");
    assert_eq!(text::trim_trailing(".flv", ".flv"), "");
    assert_eq!(text::trim_trailing("x.fl", ".flv"), "x.fl");
}

#[test]
fn parts_are_found() {
    assert!(text::contains("gzip, br", "br"));
    assert!(text::contains("abc", ""));
    assert!(!text::contains("ab", "abc"));
    assert!(!text::contains("gzip", "br"));
    assert!(text::starts_with("key_2024.flv", "key_"));
    assert!(!text::starts_with("key", "key_"));
    assert!(text::ends_with("key_2024.flv", ".flv"));
    assert!(!text::ends_with("key_2024.mp4", ".flv"));
    assert!(!text::ends_with("lv", ".flv"));
    assert_eq!(text::strip_tail("10GB", "GB"), Some("10"));
    assert_eq!(text::strip_tail("10GB", "MB"), None);
}

#[test]
fn case_is_ignored_for_ascii_letters_only() {
    assert!(text::eq_ignore_ascii_case("Gaming", "gAMING"));
    assert!(!text::eq_ignore_ascii_case("Gaming", "Gamin"));
    assert!(!text::eq_ignore_ascii_case("\u{c4}", "\u{e4}"));
    assert!(!text::eq_ignore_ascii_case("@", "`"));
    assert!(text::same_text("\u{e4}b", "\u{e4}b"));
    assert!(!text::same_text("a", "A"));
}

#[test]
fn numbers_of_64_bits_are_read() {
    assert_eq!(text::parse_u64("0"), Some(0));
    assert_eq!(text::parse_u64("+17"), Some(17));
    assert_eq!(text::parse_u64("0018446744073709551615"), Some(u64::MAX));
    assert_eq!(text::parse_u64("18446744073709551616"), None);
    assert_eq!(text::parse_u64(""), None);
    assert_eq!(text::parse_u64("+"), None);
    assert_eq!(text::parse_u64("-1"), None);
    assert_eq!(text::parse_u64("1 "), None);
    assert_eq!(text::parse_u64("1_000"), None);
}

#[test]
fn numbers_and_bytes_are_written() {
    assert_eq!(text::decimal_text(0), "0");
    assert_eq!(text::decimal_text(2), "2");
    assert_eq!(text::decimal_text(4294967295), "4294967295");
    assert_eq!(text::hex_of(&[0x00, 0x0f, 0xa0, 0xff]), "000fa0ff");
    assert_eq!(text::hex_of(&[]), "");
}

#[test]
fn first_characters_without_one() {
    assert_eq!(text::first_without("ab-cd-ef", '-', 5), "abcde");
    assert_eq!(text::first_without("ab-cd-ef", '-', 6), "abcdef");
    assert_eq!(text::first_without("----a", '-', 0), "");
}

#[test]
fn map_keeps_one_value_for_each_key_in_order() {
    let mut m: StringMap<u32> = StringMap::new();
    assert_eq!(m.len(), 0);
    m.insert("b".to_string(), 1);
    m.insert("a".to_string(), 2);
    m.insert("b".to_string(), 3);
    assert_eq!(m.len(), 2);
    assert_eq!(m.entry(0), ("b", &3));
    assert_eq!(m.entry(1), ("a", &2));
    assert_eq!(m.get("b"), Some(&3));
    assert_eq!(m.get("c"), None);
    assert!(m.contains_key("a"));
    if let Some(v) = m.get_mut("a") {
        *v = 9;
    }
    let copy = m.duplicate();
    let mut n = m.duplicate();
    n.insert("c".to_string(), 5);
    n.remove("a");
    assert_eq!((n.entry(0).0, n.entry(1).0), ("b", "c"));
    m.remove("b");
    m.remove("nobody");
    assert_eq!(m.len(), 1);
    assert_eq!(m.entry(0), ("a", &9));
    assert_eq!(copy.len(), 2);
    assert_eq!(copy.get("b"), Some(&3));
}
