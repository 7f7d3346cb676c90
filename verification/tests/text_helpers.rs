use simple_voice_cleaner::text::{
    ascii_lower, chars_of, copy_range, find_char, is_whitespace, push_all, same_text, trim,
};

fn chars(s: &str) -> Vec<char> {
    s.chars().collect()
}

#[test]
fn whitespace_is_unicode_white_space() {
    for c in ['\t', '\n', '\u{b}', '\u{c}', '\r', ' ', '\u{85}', '\u{a0}', '\u{1680}', '\u{2000}', '\u{200a}', '\u{2028}', '\u{2029}', '\u{202f}', '\u{205f}', '\u{3000}'] {
        assert!(is_whitespace(c), "{c:?}");
        assert!(c.is_whitespace());
    }
    for c in ['a', '0', '#', '=', '\u{200b}', '\u{feff}', '\u{8}', '\u{e}'] {
        assert!(!is_whitespace(c), "{c:?}");
        assert_eq!(is_whitespace(c), c.is_whitespace());
    }
}

#[test]
fn whitespace_agrees_with_std_everywhere() {
    for c in (0u32..0x3100).filter_map(char::from_u32) {
        assert_eq!(is_whitespace(c), c.is_whitespace(), "{c:?}");
    }
}

#[test]
fn trim_matches_std() {
    for s in ["", "   ", " a ", "\u{3000}x y\u{a0}", "abc", "\r\nkey=val\r", "\t#c"] {
        assert_eq!(trim(&chars(s)), chars(s.trim()), "{s:?}");
    }
}

#[test]
fn ascii_lower_matches_std() {
    for s in ["ABC", "Yes", "ÄÖÜ", "MiXeD 123 Z@[", ""] {
        assert_eq!(ascii_lower(&chars(s)), chars(&s.to_ascii_lowercase()), "{s:?}");
    }
}

#[test]
fn find_char_first_position() {
    assert_eq!(find_char(&chars("a=b=c"), '='), Some(1));
    assert_eq!(find_char(&chars("=x"), '='), Some(0));
    assert_eq!(find_char(&chars("abc"), '='), None);
    assert_eq!(find_char(&[], '='), None);
}

#[test]
fn same_text_compares_exactly() {
    assert!(same_text(&chars("limiter"), "limiter"));
    assert!(!same_text(&chars("limiter "), "limiter"));
    assert!(!same_text(&chars("Limiter"), "limiter"));
    assert!(same_text(&[], ""));
}

#[test]
fn chars_copy_and_push() {
    assert_eq!(chars_of("héllo"), vec!['h', 'é', 'l', 'l', 'o']);
    assert_eq!(copy_range(&chars("abcdef"), 1, 4), chars("bcd"));
    assert_eq!(copy_range(&chars("abc"), 2, 2), Vec::<char>::new());
    let mut v = chars("ab");
    push_all(&mut v, &chars("cd"));
    assert_eq!(v, chars("abcd"));
}
