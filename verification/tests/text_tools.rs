use vella_sdk::text::{
    chars_of, find, find_char, find_last_char, same_text, slice_of, split, string_of,
    strip_leading, strip_trailing, trim, white_space,
};

fn t(s: &str) -> Vec<char> {
    chars_of(s)
}

#[test]
fn chars_and_strings_round_trip() {
    assert_eq!(chars_of("héllo"), vec!['h', 'é', 'l', 'l', 'o']);
    assert_eq!(string_of(&vec!['a', 'ß', 'c']), "aßc");
    assert_eq!(string_of(&slice_of(&t("abcdef"), 2, 4)), "cd");
    assert!(same_text("abc", "abc"));
    assert!(!same_text("abc", "abd"));
    assert!(!same_text("abc", "ab"));
}

#[test]
fn white_space_is_the_unicode_property() {
    for c in ['\t', '\n', '\u{b}', '\u{c}', '\r', ' ', '\u{85}', '\u{a0}', '\u{1680}', '\u{2000}',
        '\u{200a}', '\u{2028}', '\u{2029}', '\u{202f}', '\u{205f}', '\u{3000}']
    {
        assert!(white_space(c));
        assert!(c.is_whitespace());
    }
    for c in ['a', '0', '\u{8}', '\u{e}', '\u{200b}', '\u{feff}', '\u{180e}'] {
        assert!(!white_space(c));
        assert!(!c.is_whitespace());
    }
}

#[test]
fn trim_agrees_with_the_standard_library() {
    for s in ["", " ", "a", "  a b \r\n", "\u{a0}x\u{3000}", "\t\t", "x  ", "  x"] {
        assert_eq!(string_of(&trim(&t(s))), s.trim());
    }
}

#[test]
fn strip_removes_every_copy_at_one_end() {
    assert_eq!(string_of(&strip_leading(&t("<<a<b>"), '<')), "a<b>");
    assert_eq!(string_of(&strip_trailing(&t("<a>b>>"), '>')), "<a>b");
    assert_eq!(string_of(&strip_leading(&t("<<<"), '<')), "");
    assert_eq!(string_of(&strip_trailing(&t("abc"), '>')), "abc");
}

#[test]
fn find_gives_the_first_place() {
    assert_eq!(find(&t("a--b--c"), &t("--"), 0), Some(1));
    assert_eq!(find(&t("a--b--c"), &t("--"), 2), Some(4));
    assert_eq!(find(&t("a--b--c"), &t("--"), 5), None);
    assert_eq!(find(&t("abc"), &t("abcd"), 0), None);
    assert_eq!(find(&t("abc"), &t(""), 3), Some(3));
    assert_eq!(find(&t("abc"), &t(""), 4), None);
    assert_eq!(find_char(&t("a{b{c"), '{', 0), Some(1));
    assert_eq!(find_char(&t("a{b{c"), '{', 2), Some(3));
    assert_eq!(find_char(&t("abc"), '{', 0), None);
    assert_eq!(find_last_char(&t("a}b}c"), '}'), Some(3));
    assert_eq!(find_last_char(&t("abc"), '}'), None);
}

#[test]
fn split_agrees_with_the_standard_library() {
    for s in ["", "--", "a--b", "a---b", "----", "a--", "--a", "a-b", "x--y--z--"] {
        let pieces: Vec<String> = split(&t(s), &t("--")).iter().map(string_of).collect();
        let expected: Vec<String> = s.split("--").map(|p| p.to_string()).collect();
        assert_eq!(pieces, expected);
    }
}
