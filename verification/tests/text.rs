use crabipie::icon::base64_decode;
use crabipie::text::{
    chars_of, find_in_range, find_text_in_range, has_class, is_whitespace, push_decimal,
    push_text, starts_with_at, string_of, strip_range, CharClass,
};

#[test]
fn white_space_is_what_std_calls_white_space() {
    for code in 0..=0x10FFFFu32 {
        if let Some(c) = char::from_u32(code) {
            assert_eq!(is_whitespace(c), c.is_whitespace(), "U+{:04X}", code);
        }
    }
}

#[test]
fn quotes_are_the_two_quotation_marks() {
    assert!(has_class('"', CharClass::Quote));
    assert!(has_class('\'', CharClass::Quote));
    assert!(!has_class('`', CharClass::Quote));
    assert!(!has_class(' ', CharClass::Quote));
    assert!(has_class(' ', CharClass::Space));
}

#[test]
fn chars_and_back() {
    let v = chars_of("h\u{e9}llo w\u{f6}rld");
    assert_eq!(v.len(), 11);
    assert_eq!(string_of(&v, 0, v.len()), "h\u{e9}llo w\u{f6}rld");
    assert_eq!(string_of(&v, 6, 11), "w\u{f6}rld");
    assert_eq!(string_of(&v, 3, 3), "");
}

#[test]
fn strip_range_trims_like_std() {
    for text in ["", " ", "a", "  a b \t", "\u{a0}x\u{2003}", "\r\n", " \"q\" "] {
        let v = chars_of(text);
        let (a, b) = strip_range(&v, 0, v.len(), CharClass::Space);
        assert_eq!(string_of(&v, a, b), text.trim());
    }
}

#[test]
fn strip_range_unquotes_like_std() {
    for text in ["", "\"a\"", "'a'", "\"'a", "a\"b", "\"\"", " \"a\""] {
        let v = chars_of(text);
        let (a, b) = strip_range(&v, 0, v.len(), CharClass::Quote);
        assert_eq!(string_of(&v, a, b), text.trim_matches(|c| c == '"' || c == '\''));
    }
}

#[test]
fn strip_range_stays_inside_its_range() {
    let v = chars_of("  ab  cd  ");
    assert_eq!(strip_range(&v, 4, 8, CharClass::Space), (6, 8));
    assert_eq!(strip_range(&v, 4, 6, CharClass::Space), (6, 6));
}

#[test]
fn find_in_range_gives_first_index_or_end() {
    let v = chars_of("a:b:c");
    assert_eq!(find_in_range(&v, ':', 0, 5), 1);
    assert_eq!(find_in_range(&v, ':', 2, 5), 3);
    assert_eq!(find_in_range(&v, ':', 4, 5), 5);
    assert_eq!(find_in_range(&v, ':', 0, 1), 1);
    assert_eq!(find_in_range(&v, 'x', 0, 5), 5);
}

#[test]
fn find_text_gives_first_occurrence_or_end() {
    let v = chars_of("xx filename=a filename=b");
    let key = chars_of("filename=");
    assert_eq!(find_text_in_range(&v, &key, 0, v.len()), 3);
    assert_eq!(find_text_in_range(&v, &key, 4, v.len()), 14);
    assert_eq!(find_text_in_range(&v, &key, 15, v.len()), v.len());
    assert_eq!(find_text_in_range(&v, &key, 0, 11), 11);
}

#[test]
fn starts_with_at_compares_a_prefix() {
    let v = chars_of("image/png");
    assert!(starts_with_at(&v, 0, v.len(), &chars_of("image/")));
    assert!(starts_with_at(&v, 0, v.len(), &chars_of("")));
    assert!(!starts_with_at(&v, 0, 5, &chars_of("image/")));
    assert!(!starts_with_at(&v, 1, v.len(), &chars_of("image/")));
    assert!(starts_with_at(&v, 6, v.len(), &chars_of("png")));
}

#[test]
fn decimal_is_what_std_prints() {
    for n in [0u64, 1, 9, 10, 11, 99, 100, 101, 200, 404, 65535, 1234567890, u64::MAX] {
        let mut out = String::from("n=");
        push_decimal(&mut out, n);
        assert_eq!(out, format!("n={}", n));
    }
}

#[test]
fn push_text_appends() {
    let mut out = String::from("ab");
    push_text(&mut out, "cd");
    push_text(&mut out, "");
    assert_eq!(out, "abcd");
}

#[test]
fn base64_text_is_decoded() {
    assert_eq!(base64_decode("aGk=").unwrap(), b"hi".to_vec());
    assert_eq!(base64_decode("").unwrap(), Vec::<u8>::new());
    assert_eq!(base64_decode("AAEC/f7/").unwrap(), vec![0, 1, 2, 253, 254, 255]);
    assert!(base64_decode("aGk").is_none());
    assert!(base64_decode("a GK=").is_none());
    assert!(base64_decode("not base64!").is_none());
}
