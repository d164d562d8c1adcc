use nicotine::text::{
    contains, ends_with, is_whitespace, parse_number, push_decimal, push_hex2, same, skip,
    starts_with, to_ascii_lowercase, trim,
};

#[test]
fn white_space_is_that_of_the_standard_library() {
    for code in 0..=0x10FFFFu32 {
        if let Some(c) = char::from_u32(code) {
            assert_eq!(is_whitespace(c), c.is_whitespace(), "{code:x}");
        }
    }
}

#[test]
fn texts_are_trimmed_like_in_the_standard_library() {
    for s in ["", " ", "a", " a b ", "\t\u{3000}Main Character\u{85}\n", "\u{200b}x"] {
        assert_eq!(trim(s), s.trim());
    }
}

#[test]
fn letters_are_lowered_like_in_the_standard_library() {
    for code in 0..0x500u32 {
        if let Some(c) = char::from_u32(code) {
            let s = c.to_string();
            assert_eq!(to_ascii_lowercase(&s), s.to_ascii_lowercase());
        }
    }
    assert_eq!(to_ascii_lowercase("ExeFile.EXE"), "exefile.exe");
    assert_eq!(to_ascii_lowercase("ÇİÖ"), "ÇİÖ");
}

#[test]
fn parts_of_texts_are_found() {
    assert!(starts_with("EVE - Alpha", "EVE - "));
    assert!(!starts_with("EVE", "EVE - "));
    assert!(starts_with("", ""));
    assert!(ends_with("a.exe", ".exe"));
    assert!(!ends_with("exe", ".exe"));
    assert!(contains("EVE Launcher", "Launcher"));
    assert!(contains("aab", "ab"));
    assert!(!contains("Launche", "Launcher"));
    assert!(contains("x", ""));
    assert_eq!(skip("EVE - Ω", 6), "Ω");
    assert!(same("a", "a"));
    assert!(!same("a", "b"));
    assert!(!same("a", "aa"));
}

#[test]
fn numbers_are_parsed_like_in_the_standard_library() {
    let cases = [
        "0", "1", "42", "007", "+5", "+", "-1", "", " 1", "1 ", "1a", "++1", "٣",
        "18446744073709551615", "18446744073709551616", "99999999999999999999999",
    ];
    for s in cases {
        assert_eq!(parse_number(s), s.parse::<usize>().ok(), "{s}");
    }
}

#[test]
fn numbers_are_written_like_in_the_standard_library() {
    for n in [0usize, 1, 9, 10, 99, 100, 65535, usize::MAX] {
        let mut out = String::from("n=");
        push_decimal(&mut out, n);
        assert_eq!(out, format!("n={n}"));
        assert_eq!(parse_number(&out[2..]), Some(n));
    }
    for n in 0..=u16::MAX {
        let mut out = String::new();
        push_hex2(&mut out, n);
        assert_eq!(out, format!("{n:02X}"));
    }
}
