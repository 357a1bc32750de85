use link::text::{char_is_whitespace, chars_of, find_last, range_is, trim_range};

#[test]
fn white_space_is_what_unicode_says() {
    let mut code: u32 = 0;
    while code <= 0x10FFFF {
        if let Some(c) = char::from_u32(code) {
            assert_eq!(char_is_whitespace(c), c.is_whitespace(), "U+{:04X}", code);
        }
        code += 1;
    }
}

#[test]
fn chars_of_keeps_every_character() {
    let text = "a\u{e9}\u{4e2d}\u{1f600}:z";
    assert_eq!(chars_of(text), vec!['a', '\u{e9}', '\u{4e2d}', '\u{1f600}', ':', 'z']);
    assert_eq!(chars_of(""), Vec::<char>::new());
}

#[test]
fn find_last_finds_the_last_one() {
    let v = vec!['a', ':', 'b', ':', 'c'];
    assert_eq!(find_last(&v, 5, ':'), Some(3));
    assert_eq!(find_last(&v, 3, ':'), Some(1));
    assert_eq!(find_last(&v, 1, ':'), None);
    assert_eq!(find_last(&v, 0, ':'), None);
    assert_eq!(find_last(&v, 5, 'z'), None);
}

fn trimmed(text: &str) -> String {
    let v = chars_of(text);
    let (lo, hi) = trim_range(&v, 0, v.len());
    v[lo..hi].iter().collect()
}

#[test]
fn trim_range_agrees_with_trim() {
    let samples = [
        "",
        " ",
        "abc",
        "  abc",
        "abc  ",
        " \t\r\n abc def \u{b}\u{c} ",
        "\u{85}\u{a0}\u{1680}x\u{2000}\u{200a}\u{2028}\u{2029}\u{202f}\u{205f}\u{3000}",
        "\u{200b}abc\u{200b}",
        " \u{feff} ",
        "   ",
    ];
    for sample in samples {
        assert_eq!(trimmed(sample), sample.trim(), "{:?}", sample);
    }
}

#[test]
fn trim_range_stays_inside_its_bounds() {
    let v = chars_of("  ab  cd  ");
    assert_eq!(trim_range(&v, 0, 10), (2, 8));
    assert_eq!(trim_range(&v, 4, 6), (6, 6));
    assert_eq!(trim_range(&v, 3, 7), (3, 7));
    assert_eq!(trim_range(&v, 5, 5), (5, 5));
}

#[test]
fn range_is_compares_exactly() {
    let v = chars_of("wrong ELF class");
    assert!(range_is(&v, 0, 15, "wrong ELF class"));
    assert!(range_is(&v, 6, 9, "ELF"));
    assert!(!range_is(&v, 6, 9, "ELf"));
    assert!(!range_is(&v, 6, 9, "EL"));
    assert!(!range_is(&v, 6, 9, "ELF "));
    assert!(range_is(&v, 4, 4, ""));
}
