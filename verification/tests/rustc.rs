use cargo_binutils::rustc::{sysroot, ToolchainError};
use cargo_binutils::text::{chars_of, is_whitespace, starts_with, str_eq, trim};

#[test]
fn the_sysroot_is_the_answer_without_the_line_break() {
    assert_eq!(sysroot(b"/home/user/.rustup/toolchains/stable\n"), Ok("/home/user/.rustup/toolchains/stable".to_string()));
    assert_eq!(sysroot(b"  C:\\rust dir\\stable \r\n"), Ok("C:\\rust dir\\stable".to_string()));
    assert_eq!(sysroot(b""), Ok(String::new()));
    assert_eq!(sysroot(b" \n\t"), Ok(String::new()));
}

#[test]
fn an_answer_that_is_no_text_is_refused() {
    assert_eq!(sysroot(&[0x2f, 0xff, 0x0a]), Err(ToolchainError::NotUtf8));
    assert_eq!(sysroot(&[0xc3]), Err(ToolchainError::NotUtf8));
}

#[test]
fn trimming_agrees_with_the_standard_library() {
    let samples = [
        "",
        " ",
        "a",
        " a",
        "a ",
        "  a b  ",
        "\t\n\u{b}\u{c}\r x \u{85}\u{a0}",
        "\u{1680}\u{2000}\u{200a}\u{2028}\u{2029}\u{202f}\u{205f}\u{3000}y\u{3000}",
        "\u{180e}z\u{200b}",
        "\u{feff}w",
        "é\u{a0}",
    ];
    for sample in samples {
        assert_eq!(trim(sample), sample.trim(), "{:?}", sample);
    }
}

#[test]
fn white_space_is_what_the_standard_library_calls_so() {
    for code in 0..0x3100u32 {
        if let Some(c) = char::from_u32(code) {
            assert_eq!(is_whitespace(c), c.is_whitespace(), "{:x}", code);
        }
    }
    assert!(!is_whitespace('\u{feff}'));
    assert!(!is_whitespace('\u{10ffff}'));
}

#[test]
fn strings_are_compared_by_their_characters() {
    assert!(str_eq("", ""));
    assert!(str_eq("thumb", "thumb"));
    assert!(!str_eq("thumb", "thumbs"));
    assert!(!str_eq("thumb", "thumB"));
    assert!(str_eq("é", "\u{e9}"));
    assert!(!str_eq("é", "e\u{301}"));
    assert!(starts_with("thumbv7m", "thumb"));
    assert!(starts_with("thumb", "thumb"));
    assert!(starts_with("x", ""));
    assert!(!starts_with("thum", "thumb"));
    assert!(!starts_with("athumb", "thumb"));
    assert_eq!(chars_of("aé"), vec!['a', 'é']);
}
