use pocket_calibre::text::{is_whitespace, chars_of, i32_to_string, join_strings, parse_usize, string_of, to_uppercase, usize_to_string};

#[test]
fn decimal_notation() {
    assert_eq!(usize_to_string(0), "0");
    assert_eq!(usize_to_string(5000), "5000");
    assert_eq!(i32_to_string(-12), "-12");
    assert_eq!(i32_to_string(i32::MIN), "-2147483648");
}

#[test]
fn parse_accepts_plus_and_digits_only() {
    assert_eq!(parse_usize("42"), Some(42));
    assert_eq!(parse_usize("+7"), Some(7));
    assert_eq!(parse_usize(""), None);
    assert_eq!(parse_usize("+"), None);
    assert_eq!(parse_usize("-1"), None);
    assert_eq!(parse_usize(" 1"), None);
    assert_eq!(parse_usize("1_000"), None);
    assert_eq!(parse_usize("99999999999999999999999"), None);
}

#[test]
fn parse_reads_back_decimal() {
    for n in [0usize, 1, 9, 10, 4999, 5000, usize::MAX] {
        assert_eq!(parse_usize(&usize_to_string(n)), Some(n));
    }
}

#[test]
fn join_and_chars() {
    let v = vec!["FB2".to_string(), "EPUB".to_string()];
    assert_eq!(join_strings(&v, ", "), "FB2, EPUB");
    assert_eq!(join_strings(&Vec::new(), ","), "");
    let c = chars_of("ёж");
    assert_eq!(c, vec!['ё', 'ж']);
    assert_eq!(string_of(&c, 1, 2), "ж");
}

#[test]
fn uppercase_is_unicode() {
    assert_eq!(to_uppercase("epub"), "EPUB");
    assert_eq!(to_uppercase("ß"), "SS");
}

#[test]
fn whitespace_as_std_decides() {
    for c in ['\t', '\n', '\u{b}', '\u{c}', '\r', ' ', '\u{85}', '\u{a0}', '\u{1680}', '\u{2000}',
        '\u{200a}', '\u{2028}', '\u{2029}', '\u{202f}', '\u{205f}', '\u{3000}', 'a', '.', '_',
        '\u{200b}', '\u{180e}', '\u{feff}', 'я', '\u{8}', '\u{e}']
    {
        assert_eq!(is_whitespace(c), c.is_whitespace(), "{c:?}");
    }
    for n in 0u32..0x3100 {
        if let Some(c) = char::from_u32(n) {
            assert_eq!(is_whitespace(c), c.is_whitespace(), "{n:#x}");
        }
    }
}
