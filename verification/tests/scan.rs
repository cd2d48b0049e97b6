use cargo_binutils::scan::{
    find_word, format_hex, matches_at, parse_decimal, rfind, skip_space, skip_word, space_at,
};

#[test]
fn white_space_characters_are_measured_in_bytes() {
    assert_eq!(space_at(b" a", 0), 1);
    assert_eq!(space_at(b" a", 1), 0);
    assert_eq!(space_at(b" a", 2), 0);
    assert_eq!(space_at(b" a", 9), 0);
    assert_eq!(space_at("\u{a0}".as_bytes(), 0), 2);
    assert_eq!(space_at("\u{a0}".as_bytes(), 1), 0);
    assert_eq!(space_at("\u{3000}".as_bytes(), 0), 3);
    assert_eq!(space_at("\u{2003}x".as_bytes(), 0), 3);
    assert_eq!(space_at("\u{200b}".as_bytes(), 0), 0);
    assert_eq!(space_at(&[0xc2], 0), 0);
    assert_eq!(space_at(&[0xe2, 0x80], 0), 0);
}

#[test]
fn every_white_space_character_is_known_by_its_bytes() {
    for code in 0..0x11000u32 {
        if let Some(c) = char::from_u32(code) {
            let mut buffer = [0u8; 4];
            let text = c.encode_utf8(&mut buffer);
            let expected = if c.is_whitespace() { text.len() } else { 0 };
            assert_eq!(space_at(text.as_bytes(), 0), expected, "{:x}", code);
        }
    }
}

#[test]
fn white_space_and_words_are_skipped() {
    assert_eq!(skip_space(b"  \t x", 0), 4);
    assert_eq!(skip_space(b"  \t x", 4), 4);
    assert_eq!(skip_space(b"  ", 0), 2);
    assert_eq!(skip_space(b"  ", 7), 7);
    assert_eq!(skip_word(b"word next", 0), 4);
    assert_eq!(skip_word(b"word next", 4), 4);
    assert_eq!(skip_word(b"word", 1), 4);
    assert_eq!(skip_word(b"word", 9), 9);
    assert_eq!(skip_word("é\u{a0}x".as_bytes(), 0), 2);
}

#[test]
fn words_are_found_by_their_number() {
    let line = b"  .text\t100   1024 ";
    assert_eq!(find_word(line, 0), Some((2, 7)));
    assert_eq!(find_word(line, 1), Some((8, 11)));
    assert_eq!(find_word(line, 2), Some((14, 18)));
    assert_eq!(find_word(line, 3), None);
    assert_eq!(find_word(b"", 0), None);
    assert_eq!(find_word(b"   ", 0), None);
    assert_eq!(find_word(b"x", 0), Some((0, 1)));
}

#[test]
fn decimal_numbers_are_read() {
    assert_eq!(parse_decimal(b"0"), Some(0));
    assert_eq!(parse_decimal(b"1024"), Some(1024));
    assert_eq!(parse_decimal(b"+1024"), Some(1024));
    assert_eq!(parse_decimal(b"0001"), Some(1));
    assert_eq!(parse_decimal(b"18446744073709551615"), Some(u64::MAX));
    assert_eq!(parse_decimal(b"18446744073709551616"), None);
    assert_eq!(parse_decimal(b"99999999999999999999999"), None);
    assert_eq!(parse_decimal(b""), None);
    assert_eq!(parse_decimal(b"+"), None);
    assert_eq!(parse_decimal(b"-1"), None);
    assert_eq!(parse_decimal(b"++1"), None);
    assert_eq!(parse_decimal(b"1+"), None);
    assert_eq!(parse_decimal(b"12a"), None);
    assert_eq!(parse_decimal(b" 12"), None);
    assert_eq!(parse_decimal(b"0x10"), None);
    assert_eq!(parse_decimal("١٢".as_bytes()), None);
}

#[test]
fn decimal_reading_agrees_with_the_standard_library() {
    for text in ["0", "7", "+7", "007", "18446744073709551615", "18446744073709551620", "1 ", "", "+", "+-1", "4294967296"] {
        assert_eq!(parse_decimal(text.as_bytes()), text.parse::<u64>().ok(), "{:?}", text);
    }
}

#[test]
fn numbers_are_written_in_hexadecimal() {
    assert_eq!(format_hex(0), b"0x0".to_vec());
    assert_eq!(format_hex(9), b"0x9".to_vec());
    assert_eq!(format_hex(10), b"0xa".to_vec());
    assert_eq!(format_hex(15), b"0xf".to_vec());
    assert_eq!(format_hex(16), b"0x10".to_vec());
    assert_eq!(format_hex(255), b"0xff".to_vec());
    assert_eq!(format_hex(1024), b"0x400".to_vec());
    assert_eq!(format_hex(0xdead_beef), b"0xdeadbeef".to_vec());
    assert_eq!(format_hex(u64::MAX), b"0xffffffffffffffff".to_vec());
    for number in [1u64, 17, 4095, 4096, 65535, 1 << 32, (1 << 60) + 11] {
        assert_eq!(format_hex(number), format!("{number:#x}").into_bytes());
    }
}

#[test]
fn the_last_occurrence_is_found() {
    assert_eq!(rfind(b"abcabc", b"abc"), Some(3));
    assert_eq!(rfind(b"abcabc", b"a"), Some(3));
    assert_eq!(rfind(b"abcabc", b"abcabc"), Some(0));
    assert_eq!(rfind(b"abcabc", b"abcabca"), None);
    assert_eq!(rfind(b"abcabc", b"x"), None);
    assert_eq!(rfind(b"aaa", b"aa"), Some(1));
    assert_eq!(rfind(b"abc", b""), Some(3));
    assert_eq!(rfind(b"", b""), Some(0));
    assert_eq!(rfind(b"", b"a"), None);
    assert!(matches_at(b"abc", b"bc", 1));
    assert!(!matches_at(b"abc", b"bc", 0));
    assert!(!matches_at(b"abc", b"bc", 2));
    assert!(!matches_at(b"abc", b"bc", 9));
}
