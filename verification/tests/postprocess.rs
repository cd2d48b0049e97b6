use cargo_binutils::postprocess::{
    checked_size, demangle, replace_symbols, rewrite_line, size, SYMBOL_PATTERN,
};

#[test]
fn mangled_symbols_are_made_readable() {
    let output = b"0000000000001000 T _ZN3foo3barE\n0000000000002000 T main\n";
    assert_eq!(
        demangle(output).as_ref(),
        b"0000000000001000 T foo::bar\n0000000000002000 T main\n".as_slice()
    );
}

#[test]
fn several_symbols_on_a_line_are_each_replaced() {
    let output = "call _ZN4core3fmt5writeE then _ZN3std2io5stdioE; done".as_bytes();
    assert_eq!(
        demangle(output).as_ref(),
        "call core::fmt::write then std::io::stdio; done".as_bytes()
    );
}

#[test]
fn symbols_with_a_hash_keep_it() {
    let output = b"_ZN3foo3bar17h0123456789abcdefE";
    assert_eq!(demangle(output).as_ref(), b"foo::bar::h0123456789abcdef".as_slice());
}

#[test]
fn text_without_symbols_is_unchanged() {
    let output = "nothing to see: _Z, ZNE, é\n".as_bytes();
    assert_eq!(demangle(output).as_ref(), output);
    assert_eq!(demangle(b"").as_ref(), b"".as_slice());
}

#[test]
fn what_looks_like_a_symbol_and_is_none_is_unchanged() {
    let output = b"_ZxxE\n";
    assert_eq!(demangle(output).as_ref(), output.as_slice());
}

#[test]
fn output_that_is_no_text_is_not_demangled() {
    let output = [0x5f, 0x5a, 0x4e, 0xff, 0x45, 0x0a];
    assert_eq!(demangle(&output).as_ref(), output.as_slice());
}

#[test]
fn the_symbol_pattern_is_lazy() {
    assert_eq!(SYMBOL_PATTERN, r"_Z.+?E\b");
}

#[test]
fn matches_are_replaced_where_they_stand() {
    let bytes = b"ab_ZN3foo3barEcd_ZN1aEef";
    assert_eq!(replace_symbols(bytes, &vec![(2, 14), (16, 22)]), b"abfoo::barcdaef".to_vec());
    assert_eq!(replace_symbols(bytes, &vec![]), bytes.to_vec());
    assert_eq!(replace_symbols(bytes, &vec![(0, 2)]), bytes.to_vec());
}

#[test]
fn matches_out_of_place_are_passed_over() {
    let bytes = b"ab_ZN3foo3barEcd";
    assert_eq!(replace_symbols(bytes, &vec![(2, 14), (2, 14)]), b"abfoo::barcd".to_vec());
    assert_eq!(replace_symbols(bytes, &vec![(14, 2)]), bytes.to_vec());
    assert_eq!(replace_symbols(bytes, &vec![(2, 99)]), bytes.to_vec());
    assert_eq!(replace_symbols(bytes, &vec![(2, 99), (2, 14)]), b"abfoo::barcd".to_vec());
}

#[test]
fn a_match_that_is_no_text_is_kept() {
    let bytes = [0x61, 0xc3, 0xa9, 0x62];
    assert_eq!(replace_symbols(&bytes, &vec![(1, 2)]), bytes.to_vec());
}

#[test]
fn section_addresses_are_written_in_hexadecimal() {
    let output = "\
app  :
section              size        addr
.vector_table        1024   134217728
.text                5120   134218752
.rodata               100           0
Total                6244
";
    let expected = "\
app  :
section              size        addr
.vector_table        1024   0x8000000
.text                5120   0x8000400
.rodata               100         0x0
Total                6244
";
    assert_eq!(size(output.as_bytes()).as_ref(), expected.as_bytes());
    assert_eq!(checked_size(output.as_bytes()).unwrap().as_ref(), expected.as_bytes());
}

#[test]
fn a_longer_hexadecimal_address_takes_room_to_the_left() {
    assert_eq!(rewrite_line(b".text   100   1024"), Some(b".text   100  0x400".to_vec()));
    assert_eq!(rewrite_line(b".text 100 7"), Some(b".text 100x7".to_vec()));
    assert_eq!(rewrite_line(b".a 1 255"), Some(b".a 10xff".to_vec()));
    assert_eq!(
        rewrite_line(b".a 1 18446744073709551615"),
        Some(b".a 1 180xffffffffffffffff".to_vec())
    );
}

#[test]
fn what_follows_the_address_is_dropped() {
    assert_eq!(rewrite_line(b".text   100   1024   more"), Some(b".text   100  0x400".to_vec()));
}

#[test]
fn the_last_occurrence_of_the_address_is_rewritten() {
    assert_eq!(rewrite_line(b".text   100   100"), Some(b".text   100  0x64".to_vec()));
    assert_eq!(rewrite_line(b".s   1   16   x16"), Some(b".s   1   16  0x10".to_vec()));
}

#[test]
fn lines_that_describe_no_section_are_unchanged() {
    for line in [
        "section size addr",
        "Total 6244",
        "",
        ".text",
        ".text 100",
        ".text 100 abc",
        ".text 100 0x10",
        ".text 100 -5",
        ".text 100 18446744073709551616",
        " .text 100 1024",
        ".text 100 1_000",
    ] {
        assert_eq!(rewrite_line(line.as_bytes()), Some(line.as_bytes().to_vec()), "{:?}", line);
    }
}

#[test]
fn a_signed_address_is_read() {
    assert_eq!(rewrite_line(b".text   100   +16"), Some(b".text   100  0x10".to_vec()));
}

#[test]
fn words_are_parted_by_any_white_space() {
    assert_eq!(
        rewrite_line(".a\u{a0}b\u{3000}\t1024".as_bytes()),
        Some(".a\u{a0}b\u{3000}0x400".as_bytes().to_vec())
    );
    assert_eq!(
        rewrite_line(".a\u{2003}\u{85}b\u{1680} \u{205f}  16".as_bytes()),
        Some(".a\u{2003}\u{85}b\u{1680} \u{205f}0x10".as_bytes().to_vec())
    );
    assert_eq!(
        rewrite_line(".a\u{200b}b 1 16".as_bytes()),
        Some(".a\u{200b}b 0x10".as_bytes().to_vec())
    );
}

fn with_string_methods(text: &str) -> Option<String> {
    let mut lines = Vec::new();
    for line in text.lines() {
        let third = line.split_whitespace().nth(2);
        let address = third.and_then(|word| word.parse::<u64>().ok().map(|number| (word, number)));
        match address {
            Some((word, number)) if line.starts_with('.') => {
                let at = line.rfind(word)?;
                let hex = format!("{number:#x}");
                let start = (at + word.len()).checked_sub(hex.len())?;
                if !line.is_char_boundary(start) {
                    return None;
                }
                lines.push(format!("{}{}", &line[..start], hex));
            }
            _ => lines.push(line.to_string()),
        }
    }
    let mut out = lines.join("\n");
    out.push('\n');
    Some(out)
}

#[test]
fn the_pass_on_bytes_agrees_with_string_methods() {
    let words = [
        ".text", ".", "a", "100", "1024", "+7", "0", "007", "18446744073709551615",
        "18446744073709551616", "x1024", "é", "\u{20ac}16", "16\u{20ac}", "-1", "",
    ];
    let gaps = [" ", "  ", "\t", "\u{a0}", "\u{3000}", " \u{2028}", "\r", "\u{85} "];
    let ends = ["", "\n", "\r\n", "\r", " \n", "\n\n"];
    let mut seed: u32 = 12345;
    let mut next = |limit: usize| {
        seed = seed.wrapping_mul(1103515245).wrapping_add(12345);
        ((seed >> 16) as usize) % limit
    };
    for _ in 0..4000 {
        let mut text = String::new();
        for _ in 0..1 + next(3) {
            if next(5) == 0 {
                text.push_str(gaps[next(gaps.len())]);
            }
            for _ in 0..next(6) {
                text.push_str(words[next(words.len())]);
                text.push_str(gaps[next(gaps.len())]);
            }
            text.push_str(words[next(words.len())]);
            text.push_str(ends[next(ends.len())]);
        }
        let expected = with_string_methods(&text);
        let got = checked_size(text.as_bytes()).map(|out| out.into_owned());
        assert_eq!(got, expected.map(String::into_bytes), "{:?}", text);
    }
}

#[test]
fn an_address_that_would_begin_inside_a_character_cannot_be_written() {
    assert_eq!(rewrite_line(".a b\u{3000}0".as_bytes()), None);
    assert_eq!(checked_size(".a b\u{3000}0\n".as_bytes()), None);
    assert_eq!(rewrite_line(".a b\u{a0}0".as_bytes()), Some(b".a b0x0".to_vec()));
}

#[test]
fn lines_are_ended_with_a_line_feed() {
    assert_eq!(size(b"").as_ref(), b"\n".as_slice());
    assert_eq!(size(b"a").as_ref(), b"a\n".as_slice());
    assert_eq!(size(b"a\n").as_ref(), b"a\n".as_slice());
    assert_eq!(size(b"a\r\nb\r\n").as_ref(), b"a\nb\n".as_slice());
    assert_eq!(size(b"a\n\nb").as_ref(), b"a\n\nb\n".as_slice());
    assert_eq!(size(b"\n").as_ref(), b"\n".as_slice());
    assert_eq!(size(b"a\r").as_ref(), b"a\r\n".as_slice());
    assert_eq!(size(b"a\r\r\n").as_ref(), b"a\r\n".as_slice());
}

#[test]
fn output_that_is_no_text_is_not_rewritten() {
    let output = [0x2e, 0x61, 0x20, 0x31, 0x20, 0x31, 0x36, 0xff];
    assert_eq!(size(&output).as_ref(), output.as_slice());
}
