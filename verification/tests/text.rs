use capslockrs::text::{
    characters, copy_wide, decimal_text, encode_utf16, nul_terminated, parse_number,
    same_ignoring_case, trim, wide,
};

fn chars(text: &str) -> Vec<char> {
    text.chars().collect()
}

#[test]
fn characters_of_a_text() {
    assert_eq!(characters("a键😀"), ['a', '键', '😀']);
    assert!(characters("").is_empty());
}

#[test]
fn decimal_numbers_are_written_out() {
    for value in [0, 7, 10, 90, 1_000, 4_294_967_295, u64::MAX] {
        assert_eq!(decimal_text(value), value.to_string());
    }
}

#[test]
fn numbers_are_read_back() {
    for value in [0, 9, 10, 12_345, u32::MAX] {
        assert_eq!(parse_number(&chars(&value.to_string())), Some(value));
    }
}

#[test]
fn numbers_are_read_like_the_standard_library_does() {
    for text in [
        "", "+", "+5", "++5", "-0", "-1", "007", "4294967295", "4294967296", "99999999999999999999",
        "00000000000000000000042", "1 2", "1a", "٣", "5+",
    ] {
        assert_eq!(parse_number(&chars(text)), text.parse::<u32>().ok(), "{text}");
    }
}

#[test]
fn white_space_is_trimmed_like_the_standard_library_does() {
    for text in [
        "", " ", "\t\r\n", " a ", "\u{3000}a b\u{85}", "a", "\u{200B}a", "\u{A0}\u{1680}\u{2003}x\u{2028}\u{202F}\u{205F}",
    ] {
        assert_eq!(trim(text), chars(text.trim()), "{text:?}");
    }
}

#[test]
fn every_white_space_character_is_trimmed() {
    for c in (0..=0x10FFFF_u32).filter_map(char::from_u32) {
        let mut text = String::new();
        text.push(c);
        assert_eq!(trim(&text).is_empty(), c.is_whitespace(), "{c:?}");
    }
}

#[test]
fn trimmed_number_is_read_back() {
    assert_eq!(parse_number(&trim(" \t4242\r\n")), Some(4242));
}

#[test]
fn case_is_ignored_for_ascii_letters_alone() {
    for (left, right) in [
        ("C:\\A\\b.EXE", "c:\\a\\B.exe"),
        ("a", "ab"),
        ("[", "{"),
        ("@", "`"),
        ("Ä", "ä"),
        ("z", "Z"),
        ("", ""),
        ("K", "\u{212A}"),
    ] {
        assert_eq!(
            same_ignoring_case(left, right),
            left.eq_ignore_ascii_case(right),
            "{left} {right}"
        );
    }
}

#[test]
fn text_is_encoded_in_utf16() {
    for text in ["", "CapsLockRs", "暂停", "a😀\u{10FFFF}\u{FFFF}"] {
        let expected: Vec<u16> = text.encode_utf16().collect();
        assert_eq!(encode_utf16(text), expected);
        let mut terminated = expected;
        terminated.push(0);
        assert_eq!(wide(text), terminated);
    }
    assert_eq!(encode_utf16("😀"), [0xD83D, 0xDE00]);
    assert_eq!(nul_terminated(vec![1, 2]), [1, 2, 0]);
}

#[test]
fn wide_copy_is_cut_off_at_the_end_of_the_buffer() {
    let mut buffer = [9_u16; 4];
    copy_wide(&mut buffer, "abcdef");
    assert_eq!(buffer, [97, 98, 99, 0]);
    let mut buffer = [9_u16; 4];
    copy_wide(&mut buffer, "abc");
    assert_eq!(buffer, [97, 98, 99, 0]);
    let mut buffer = [9_u16; 4];
    copy_wide(&mut buffer, "a");
    assert_eq!(buffer, [97, 0, 9, 9]);
    let mut buffer = [9_u16; 1];
    copy_wide(&mut buffer, "a");
    assert_eq!(buffer, [0]);
}
