use ltengine::text::{
    ascii_lowercase, chars, contains, find, has_char, is_white_space, parse_u32, remove_part,
    replace_char, same, starts_with, strip_prefix, strip_suffix, to_decimal, to_signed_decimal,
    trim, trim_end, trim_leading, trim_start, trim_trailing,
};

#[test]
fn white_space_is_that_of_unicode() {
    for n in 0..=0x10ffff_u32 {
        if let Some(c) = char::from_u32(n) {
            assert_eq!(is_white_space(c), c.is_whitespace(), "{n:x}");
        }
    }
}

#[test]
fn trimming_agrees_with_std() {
    for s in ["", " ", "a", " a b ", "\u{a0}x\u{2003}", "\n\tÄ\r\n", "  \u{3000}"] {
        assert_eq!(trim(s), s.trim());
        assert_eq!(trim_start(s), s.trim_start());
        assert_eq!(trim_end(s), s.trim_end());
    }
    assert_eq!(trim_leading("\n \nabc ", &['\n', ' ']), "abc ");
    assert_eq!(trim_trailing("a,b,,", ','), "a,b");
}

#[test]
fn searching_agrees_with_std() {
    let s = "größer <p>größer</p>";
    assert_eq!(find(s, "<p>"), Some(7));
    assert_eq!(find(s, "größer"), Some(0));
    assert_eq!(find(s, ""), Some(0));
    assert_eq!(find(s, "fehlt"), None);
    assert!(contains(s, "</p>"));
    assert!(!contains(s, "<b>"));
    assert!(starts_with(s, "grö"));
    assert!(!starts_with("gr", "grö"));
    assert_eq!(strip_prefix(s, "größer "), Some("<p>größer</p>"));
    assert_eq!(strip_prefix(s, "x"), None);
    assert_eq!(strip_suffix(s, "</p>"), Some("größer <p>größer"));
    assert_eq!(strip_suffix(s, "x"), None);
    assert!(has_char(&['a', 'ß'], 'ß'));
    assert!(!has_char(&['a', 'ß'], 'b'));
}

#[test]
fn replacing_agrees_with_std() {
    assert_eq!(replace_char("pt_BR_", '_', '-'), "pt-BR-");
    assert_eq!(ascii_lowercase("AuTo ÄÖ"), "AuTo ÄÖ".to_ascii_lowercase());
    for (s, part) in [("abcabc", "bc"), ("aaaa", "aa"), ("aaa", "aa"), ("abab", "x"), ("ab", "")] {
        assert_eq!(remove_part(s, part), s.replace(part, ""));
    }
}

#[test]
fn numbers_agree_with_std() {
    for n in [0, 9, 10, 12345, u64::MAX] {
        assert_eq!(to_decimal(n), n.to_string());
    }
    for n in [0, -1, 17, i64::MIN, i64::MAX] {
        assert_eq!(to_signed_decimal(n), n.to_string());
    }
    for s in ["", "+", "-1", "0", "+7", "007", "4294967295", "4294967296", "1 ", "٣", "99999999999"] {
        assert_eq!(parse_u32(s), s.parse::<u32>().ok(), "{s}");
    }
}

#[test]
fn texts_are_compared_by_their_characters() {
    assert!(same("straße", "straße"));
    assert!(!same("straße", "strasse"));
    assert!(!same("a", "ab"));
    assert_eq!(chars("añ你"), vec!['a', 'ñ', '你']);
}
