//! Passes over the captured output of a tool. Output that is not valid
//! UTF-8 is left as it is.

use std::borrow::Cow;
use std::fmt::Write;
use vstd::prelude::*;
use vstd::slice::slice_subrange;
use vstd::string::*;
use vstd::utf8::{decode_utf8, encode_utf8, valid_utf8};
use crate::scan::{
    decimal, find_word, format_hex, hex_text, last_occurrence, line_end, lines_of, parse_decimal,
    rfind, without_cr, word_at,
};
use crate::text::utf8_text;

verus! {

/// `regex::Error`: the error with which a regular expression is refused,
/// handed on unread.
#[verifier::external_type_specification]
#[verifier::external_body]
pub struct ExRegexError(regex::Error);

/// What looks like a mangled symbol: `_Z`, then as few characters as will
/// do, at least one, then an `E` at the end of a word.
pub const SYMBOL_PATTERN: &'static str = r"_Z.+?E\b";

/// Where the regular expression `pattern` matches in `text`: the byte
/// offsets of the start and the end of each match, in the order of the
/// matches; nothing where `pattern` is no regular expression.
pub uninterp spec fn regex_matches(pattern: Seq<char>, text: Seq<char>) -> Option<
    Seq<(usize, usize)>,
>;

/// The readable form of a mangled Rust symbol; the symbol itself where it
/// is none.
pub uninterp spec fn demangled(symbol: Seq<char>) -> Seq<char>;

/// `Regex::new` and `Regex::find_iter` of regex: the successive matches of
/// `pattern` in `text`, each as the offsets that `Match::start` and
/// `Match::end` give, or the error with which `pattern` is refused. The
/// result is the one that `regex_matches` names.
#[verifier::external_body]
fn find_matches(pattern: &str, text: &str) -> (result: Result<Vec<(usize, usize)>, regex::Error>)
    ensures
        match result {
            Ok(spans) => regex_matches(pattern@, text@) == Some(spans@),
            Err(_) => regex_matches(pattern@, text@) is None,
        },
{
    regex::Regex::new(pattern).map(
        |re| re.find_iter(text).map(|found| (found.start(), found.end())).collect(),
    )
}

/// `rustc_demangle::demangle`, written out: the readable form of `symbol`,
/// which is the one that `demangled` names.
#[verifier::external_body]
fn demangle_symbol(symbol: &str) -> (readable: String)
    ensures
        readable@ == demangled(symbol@),
{
    let mut readable = String::new();
    let _ = write!(readable, "{}", rustc_demangle::demangle(symbol));
    readable
}

/// What stands in place of a match: the readable form of the symbol that
/// the bytes spell, or the bytes themselves where they spell no text.
pub open spec fn readable(symbol: Seq<u8>) -> Seq<u8> {
    if valid_utf8(symbol) {
        encode_utf8(demangled(decode_utf8(symbol)))
    } else {
        symbol
    }
}

/// Whether a match can be replaced: it lies in `bytes`, at or behind
/// `from`, where the match before it ended.
pub open spec fn in_place(bytes: Seq<u8>, span: (usize, usize), from: int) -> bool {
    from <= span.0 <= span.1 <= bytes.len()
}

/// The bytes from `from` on, with each match replaced by its readable
/// form. A match that is not in place is passed over.
pub open spec fn spliced(bytes: Seq<u8>, spans: Seq<(usize, usize)>, from: int) -> Seq<u8>
    decreases spans.len(),
{
    if spans.len() == 0 {
        bytes.subrange(from, bytes.len() as int)
    } else if in_place(bytes, spans[0], from) {
        bytes.subrange(from, spans[0].0 as int) + readable(
            bytes.subrange(spans[0].0 as int, spans[0].1 as int),
        ) + spliced(bytes, spans.drop_first(), spans[0].1 as int)
    } else {
        spliced(bytes, spans.drop_first(), from)
    }
}

/// The output with every mangled symbol replaced by its readable form.
pub open spec fn demangled_output(bytes: Seq<u8>) -> Seq<u8> {
    if valid_utf8(bytes) {
        match regex_matches(SYMBOL_PATTERN@, decode_utf8(bytes)) {
            Some(spans) => spliced(bytes, spans, 0),
            None => bytes,
        }
    } else {
        bytes
    }
}

/// Replaces each of the matches at `spans` by the readable form of the
/// symbol that it spells.
pub fn replace_symbols(bytes: &[u8], spans: &Vec<(usize, usize)>) -> (out: Vec<u8>)
    ensures
        out@ == spliced(bytes@, spans@, 0),
{
    let mut out: Vec<u8> = Vec::new();
    let mut last: usize = 0;
    let mut i: usize = 0;
    assert(spans@.skip(0) =~= spans@);
    while i < spans.len()
        invariant
            i <= spans.len(),
            last <= bytes.len(),
            out@ + spliced(bytes@, spans@.skip(i as int), last as int) == spliced(bytes@, spans@, 0),
        decreases spans.len() - i,
    {
        let start = spans[i].0;
        let end = spans[i].1;
        proof {
            assert(spans@.skip(i as int)[0] == spans@[i as int]);
            assert(spans@.skip(i as int).drop_first() =~= spans@.skip(i + 1));
        }
        if last <= start && start <= end && end <= bytes.len() {
            let ghost before = out@;
            let ghost rest = spliced(bytes@, spans@.skip(i + 1), end as int);
            out.extend_from_slice(slice_subrange(bytes, last, start));
            let symbol = slice_subrange(bytes, start, end);
            match utf8_text(symbol) {
                Some(text) => {
                    let name = demangle_symbol(text);
                    proof {
                        vstd::utf8::encode_utf8_decode_utf8(text@);
                    }
                    out.extend_from_slice(name.as_str().as_bytes());
                },
                None => {
                    out.extend_from_slice(symbol);
                },
            }
            assert(out@ =~= before + bytes@.subrange(last as int, start as int) + readable(
                bytes@.subrange(start as int, end as int),
            ));
            assert(out@ + rest =~= before + (bytes@.subrange(last as int, start as int) + readable(
                bytes@.subrange(start as int, end as int),
            ) + rest));
            last = end;
        }
        i += 1;
    }
    out.extend_from_slice(slice_subrange(bytes, last, bytes.len()));
    out
}

/// Replaces every mangled Rust symbol in the output by its readable form.
pub fn demangle(bytes: &[u8]) -> (out: Cow<'_, [u8]>)
    ensures
        out@ == demangled_output(bytes@),
{
    match utf8_text(bytes) {
        Some(text) => {
            proof {
                vstd::utf8::encode_utf8_decode_utf8(text@);
            }
            match find_matches(SYMBOL_PATTERN, text) {
                Ok(spans) => Cow::Owned(replace_symbols(bytes, &spans)),
                Err(_) => Cow::Borrowed(bytes),
            }
        },
        None => Cow::Borrowed(bytes),
    }
}

/// The address on a line that describes a section: the place of the
/// line's third word and the number that it writes in decimal. Such a
/// line begins with a dot.
pub open spec fn section_address(line: Seq<u8>) -> Option<((int, int), u64)> {
    if line.len() > 0 && line[0] == 0x2e {
        match word_at(line, 0, 2) {
            Some((begin, end)) => match decimal(line.subrange(begin, end)) {
                Some(address) => Some(((begin, end), address)),
                None => None,
            },
            None => None,
        }
    } else {
        None
    }
}

/// Whether a character begins at `at`, or the line ends there.
pub open spec fn is_boundary(line: Seq<u8>, at: int) -> bool {
    at >= line.len() || !(0x80 <= line[at] <= 0xbf)
}

/// Where the address is written on a line that describes a section: so
/// that it ends where the last occurrence of the decimal address ends.
pub open spec fn hex_start(line: Seq<u8>, word: (int, int), address: u64) -> int {
    let needle = line.subrange(word.0, word.1);
    last_occurrence(line, needle, line.len() - needle.len()) + needle.len() - hex_text(
        address,
    ).len()
}

/// A line with its address in hexadecimal. The address ends where the
/// last occurrence of the decimal address ended and takes the room that
/// it needs to the left; what followed is dropped. A line that describes
/// no section is left as it is. There is no such line where the address
/// would begin inside a character.
pub open spec fn hex_line(line: Seq<u8>) -> Option<Seq<u8>> {
    match section_address(line) {
        None => Some(line),
        Some((word, address)) => {
            let start = hex_start(line, word, address);
            if 0 <= start <= line.len() && is_boundary(line, start) {
                Some(line.subrange(0, start) + hex_text(address))
            } else {
                None
            }
        },
    }
}

/// The lines, each with its address in hexadecimal and ended by a line
/// feed; nothing where one of them has no such form.
pub open spec fn hex_lines(lines: Seq<Seq<u8>>) -> Option<Seq<u8>>
    decreases lines.len(),
{
    if lines.len() == 0 {
        Some(Seq::empty())
    } else {
        match (hex_line(lines[0]), hex_lines(lines.drop_first())) {
            (Some(line), Some(rest)) => Some(line + seq![0x0au8] + rest),
            _ => None,
        }
    }
}

/// The output of the size tool with the addresses of its sections in
/// hexadecimal. Output that is no text is left as it is; empty output
/// becomes an empty line.
pub open spec fn size_output(bytes: Seq<u8>) -> Option<Seq<u8>> {
    if !valid_utf8(bytes) {
        Some(bytes)
    } else if bytes.len() == 0 {
        Some(seq![0x0au8])
    } else {
        hex_lines(lines_of(bytes))
    }
}

/// A line with its address in hexadecimal.
pub fn rewrite_line(line: &[u8]) -> (out: Option<Vec<u8>>)
    ensures
        match out {
            Some(text) => hex_line(line@) == Some(text@),
            None => hex_line(line@) is None,
        },
{
    if line.len() == 0 || line[0] != 0x2e {
        return Some(vstd::slice::slice_to_vec(line));
    }
    let (begin, end) = match find_word(line, 2) {
        Some(place) => place,
        None => {
            return Some(vstd::slice::slice_to_vec(line));
        },
    };
    let needle = slice_subrange(line, begin, end);
    let address = match parse_decimal(needle) {
        Some(address) => address,
        None => {
            return Some(vstd::slice::slice_to_vec(line));
        },
    };
    assert(section_address(line@) == Some(((begin as int, end as int), address)));
    let hex = format_hex(address);
    proof {
        assert(crate::scan::occurs_at(line@, needle@, begin as int));
        lemma_last_occurrence_found(line@, needle@, line.len() - needle.len(), begin as int);
        lemma_last_occurrence_in_bounds(line@, needle@, line.len() - needle.len());
    }
    let position = match rfind(line, needle) {
        Some(position) => position,
        None => {
            return None;
        },
    };
    if position + needle.len() < hex.len() {
        return None;
    }
    let start = position + needle.len() - hex.len();
    assert(start == hex_start(line@, (begin as int, end as int), address));
    if start < line.len() && 0x80 <= line[start] && line[start] <= 0xbf {
        return None;
    }
    let mut out = vstd::slice::slice_to_vec(slice_subrange(line, 0, start));
    let mut hex = hex;
    out.append(&mut hex);
    Some(out)
}

/// The last occurrence at or before `at` lies at or before `at`, and is a
/// place where the needle stands.
pub proof fn lemma_last_occurrence_in_bounds(text: Seq<u8>, needle: Seq<u8>, at: int)
    ensures
        last_occurrence(text, needle, at) <= at || last_occurrence(text, needle, at) == -1,
        last_occurrence(text, needle, at) >= 0 ==> crate::scan::occurs_at(
            text,
            needle,
            last_occurrence(text, needle, at),
        ),
    decreases at + 1,
{
    if at >= 0 && !crate::scan::occurs_at(text, needle, at) {
        lemma_last_occurrence_in_bounds(text, needle, at - 1);
    }
}

/// Where the needle stands at or before `at`, the last occurrence at or
/// before `at` is no earlier.
pub proof fn lemma_last_occurrence_found(text: Seq<u8>, needle: Seq<u8>, at: int, place: int)
    requires
        crate::scan::occurs_at(text, needle, place),
        place <= at,
    ensures
        last_occurrence(text, needle, at) >= place,
    decreases at + 1,
{
    if at > place && !crate::scan::occurs_at(text, needle, at) {
        lemma_last_occurrence_found(text, needle, at - 1, place);
    }
}

/// What is written so far, followed by what is yet to be written.
pub open spec fn followed_by(written: Seq<u8>, rest: Option<Seq<u8>>) -> Option<Seq<u8>> {
    match rest {
        Some(more) => Some(written + more),
        None => None,
    }
}

/// The lines of a text are its first line and the lines of what follows
/// the line feed that ends it.
proof fn lemma_lines_of_step(bytes: Seq<u8>)
    requires
        bytes.len() > 0,
    ensures
        0 <= line_end(bytes) <= bytes.len(),
        line_end(bytes) < bytes.len() ==> lines_of(bytes) == seq![
            without_cr(bytes.subrange(0, line_end(bytes))),
        ] + lines_of(bytes.subrange(line_end(bytes) + 1, bytes.len() as int)),
        line_end(bytes) == bytes.len() ==> lines_of(bytes) == seq![bytes],
{
    lemma_line_end_in_bounds(bytes);
}

proof fn lemma_line_end_in_bounds(bytes: Seq<u8>)
    ensures
        0 <= line_end(bytes) <= bytes.len(),
    decreases bytes.len(),
{
    if bytes.len() > 0 && bytes[0] != 0x0a {
        lemma_line_end_in_bounds(bytes.drop_first());
    }
}

/// The rewriting of a list of lines writes the first line, a line feed,
/// and then the rest.
proof fn lemma_hex_lines_step(line: Seq<u8>, rest: Seq<Seq<u8>>)
    ensures
        hex_lines(seq![line] + rest) == match hex_line(line) {
            Some(text) => followed_by(text + seq![0x0au8], hex_lines(rest)),
            None => None,
        },
{
    let all = seq![line] + rest;
    assert(all[0] == line);
    assert(all.drop_first() =~= rest);
}

/// Whether every byte is an ASCII character.
pub open spec fn is_ascii_bytes(bytes: Seq<u8>) -> bool {
    forall|i: int| 0 <= i < bytes.len() ==> #[trigger] bytes[i] < 0x80
}

/// On a line that describes a section the address in hexadecimal begins
/// inside the line: it needs two bytes more than the decimal address at
/// most, and two words stand before that.
pub proof fn lemma_hex_start_in_line(line: Seq<u8>)
    ensures
        section_address(line) matches Some((word, address)) ==> 0 <= hex_start(
            line,
            word,
            address,
        ) <= line.len(),
{
    if section_address(line) is Some {
        let (word, address) = section_address(line)->0;
        crate::scan::lemma_third_word_begins_late(line);
        let needle = line.subrange(word.0, word.1);
        assert(crate::scan::occurs_at(line, needle, word.0));
        lemma_last_occurrence_found(line, needle, line.len() - needle.len(), word.0);
        lemma_last_occurrence_in_bounds(line, needle, line.len() - needle.len());
        let digits = crate::scan::unsigned_part(needle);
        assert(decimal(needle) == Some(address));
        crate::scan::lemma_hex_no_longer_than_decimal(digits);
        crate::scan::lemma_hex_digits_len(address as nat);
        assert(hex_text(address).len() == 2 + crate::scan::hex_len(address as nat));
    }
}

/// A line of ASCII characters can always be rewritten.
pub proof fn lemma_ascii_line_can_be_rewritten(line: Seq<u8>)
    requires
        is_ascii_bytes(line),
    ensures
        hex_line(line) is Some,
{
    if section_address(line) is Some {
        lemma_hex_start_in_line(line);
        let (word, address) = section_address(line)->0;
        let start = hex_start(line, word, address);
        if start < line.len() {
            assert(line[start] < 0x80);
        }
    }
}

/// The lines of ASCII text are lines of ASCII characters.
pub proof fn lemma_lines_of_ascii(bytes: Seq<u8>, i: int)
    requires
        is_ascii_bytes(bytes),
        0 <= i < lines_of(bytes).len(),
    ensures
        is_ascii_bytes(lines_of(bytes)[i]),
    decreases bytes.len(),
{
    if bytes.len() > 0 {
        lemma_lines_of_step(bytes);
        let end = line_end(bytes);
        if end < bytes.len() {
            let first = without_cr(bytes.subrange(0, end));
            let rest = bytes.subrange(end + 1, bytes.len() as int);
            if i == 0 {
                assert forall|k: int| 0 <= k < first.len() implies #[trigger] first[k] < 0x80 by {
                    assert(first[k] == bytes[k]);
                }
            } else {
                assert(is_ascii_bytes(rest)) by {
                    assert forall|k: int| 0 <= k < rest.len() implies #[trigger] rest[k] < 0x80 by {
                        assert(rest[k] == bytes[end + 1 + k]);
                    }
                }
                assert((seq![first] + lines_of(rest))[i] == lines_of(rest)[i - 1]);
                lemma_lines_of_ascii(rest, i - 1);
            }
        }
    }
}

/// Lines that can each be rewritten can be rewritten together.
pub proof fn lemma_hex_lines_of_good_lines(lines: Seq<Seq<u8>>)
    requires
        forall|i: int| 0 <= i < lines.len() ==> hex_line(#[trigger] lines[i]) is Some,
    ensures
        hex_lines(lines) is Some,
    decreases lines.len(),
{
    if lines.len() > 0 {
        assert(hex_line(lines[0]) is Some);
        let rest = lines.drop_first();
        assert forall|i: int| 0 <= i < rest.len() implies hex_line(#[trigger] rest[i]) is Some by {
            assert(rest[i] == lines[i + 1]);
        }
        lemma_hex_lines_of_good_lines(rest);
    }
}

/// Output that is made of ASCII characters alone can always be rewritten:
/// an address in hexadecimal never begins before its line, and on such a
/// line never inside a character.
pub proof fn lemma_ascii_output_can_be_rewritten(bytes: Seq<u8>)
    requires
        is_ascii_bytes(bytes),
    ensures
        size_output(bytes) is Some,
{
    let lines = lines_of(bytes);
    assert forall|i: int| 0 <= i < lines.len() implies hex_line(#[trigger] lines[i]) is Some by {
        lemma_lines_of_ascii(bytes, i);
        lemma_ascii_line_can_be_rewritten(lines[i]);
    }
    lemma_hex_lines_of_good_lines(lines);
}

/// The text from `from` on is the line that ends at `end`, then the text
/// behind the line feed.
proof fn lemma_next_line(bytes: Seq<u8>, from: int, end: int, line: Seq<u8>)
    requires
        0 <= from < bytes.len(),
        from <= end <= bytes.len(),
        end - from == line_end(bytes.subrange(from, bytes.len() as int)),
        line == if end < bytes.len() {
            without_cr(bytes.subrange(from, end))
        } else {
            bytes.subrange(from, end)
        },
    ensures
        hex_lines(lines_of(bytes.subrange(from, bytes.len() as int))) == match hex_line(line) {
            Some(text) => followed_by(
                text + seq![0x0au8],
                hex_lines(
                    lines_of(
                        bytes.subrange(
                            if end < bytes.len() {
                                end + 1
                            } else {
                                end
                            },
                            bytes.len() as int,
                        ),
                    ),
                ),
            ),
            None => None,
        },
{
    let rest = bytes.subrange(from, bytes.len() as int);
    let next = if end < bytes.len() {
        end + 1
    } else {
        end
    };
    let after = bytes.subrange(next, bytes.len() as int);
    lemma_lines_of_step(rest);
    assert(rest.subrange(0, end - from) =~= bytes.subrange(from, end));
    if end < bytes.len() {
        assert(rest.subrange(end - from + 1, rest.len() as int) =~= after);
    } else {
        assert(bytes.subrange(from, end) =~= rest);
        assert(after =~= Seq::<u8>::empty());
        assert(seq![line] + lines_of(after) =~= seq![line]);
    }
    assert(lines_of(rest) == seq![line] + lines_of(after));
    lemma_hex_lines_step(line, lines_of(after));
}

/// What was written, then a line and its line feed, then the rest, is
/// what was written with the line, then the rest.
proof fn lemma_written_then_rest(before: Seq<u8>, line: Seq<u8>, rest: Option<Seq<u8>>)
    ensures
        followed_by(before, followed_by(line + seq![0x0au8], rest)) == followed_by(
            (before + line).push(0x0au8),
            rest,
        ),
{
    match rest {
        Some(tail) => {
            assert(before + (line + seq![0x0au8] + tail) =~= (before + line).push(0x0au8) + tail);
        },
        None => {},
    }
}

/// Where the line that begins at `from` ends.
fn next_line_end(bytes: &[u8], from: usize) -> (end: usize)
    requires
        from <= bytes.len(),
    ensures
        from <= end <= bytes.len(),
        end - from == line_end(bytes@.subrange(from as int, bytes.len() as int)),
        end < bytes.len() ==> bytes@[end as int] == 0x0a,
{
    let mut end = from;
    let ghost rest = bytes@.subrange(from as int, bytes.len() as int);
    assert(rest.skip(0) =~= rest);
    while end < bytes.len() && bytes[end] != 0x0a
        invariant
            from <= end <= bytes.len(),
            rest == bytes@.subrange(from as int, bytes.len() as int),
            line_end(rest) == (end - from) + line_end(rest.skip(end - from)),
        decreases bytes.len() - end,
    {
        proof {
            let tail = rest.skip(end - from);
            assert(tail[0] == bytes@[end as int]);
            assert(tail.drop_first() =~= rest.skip(end + 1 - from));
        }
        end += 1;
    }
    proof {
        let tail = rest.skip(end - from);
        if end < bytes.len() {
            assert(tail[0] == bytes@[end as int]);
        }
    }
    end
}

/// The output of the size tool with the addresses of its sections in
/// hexadecimal; nothing where the output has a line on which the address
/// cannot be so written.
pub fn checked_size(bytes: &[u8]) -> (out: Option<Cow<'_, [u8]>>)
    ensures
        match out {
            Some(text) => size_output(bytes@) == Some(text@),
            None => size_output(bytes@) is None,
        },
{
    if utf8_text(bytes).is_none() {
        return Some(Cow::Borrowed(bytes));
    }
    let mut out: Vec<u8> = Vec::new();
    if bytes.len() == 0 {
        // the text has no line and is ended like one all the same
        out.push(0x0a);
        assert(out@ =~= seq![0x0au8]);
        return Some(Cow::Owned(out));
    }
    let mut from: usize = 0;
    assert(bytes@.subrange(0, bytes.len() as int) =~= bytes@);
    assert(out@ + Seq::<u8>::empty() =~= Seq::<u8>::empty());
    let ghost whole = hex_lines(lines_of(bytes@));
    assert(whole == followed_by(out@, whole)) by {
        match whole {
            Some(more) => {
                assert(out@ + more =~= more);
            },
            None => {},
        }
    }
    while from < bytes.len()
        invariant
            from <= bytes.len(),
            size_output(bytes@) == whole,
            whole == followed_by(
                out@,
                hex_lines(lines_of(bytes@.subrange(from as int, bytes.len() as int))),
            ),
        decreases bytes.len() - from,
    {
        let end = next_line_end(bytes, from);
        let raw = slice_subrange(bytes, from, end);
        let line = if end < bytes.len() && raw.len() > 0 && raw[raw.len() - 1] == 0x0d {
            slice_subrange(raw, 0, raw.len() - 1)
        } else {
            raw
        };
        let next = if end < bytes.len() {
            end + 1
        } else {
            end
        };
        proof {
            lemma_next_line(bytes@, from as int, end as int, line@);
        }
        match rewrite_line(line) {
            Some(text) => {
                let ghost before = out@;
                let mut text = text;
                let ghost written = text@;
                out.append(&mut text);
                out.push(0x0a);
                proof {
                    lemma_written_then_rest(
                        before,
                        written,
                        hex_lines(lines_of(bytes@.subrange(next as int, bytes.len() as int))),
                    );
                }
            },
            None => {
                return None;
            },
        }
        from = next;
    }
    proof {
        assert(bytes@.subrange(bytes.len() as int, bytes.len() as int) =~= Seq::<u8>::empty());
        assert(out@ + Seq::<u8>::empty() =~= out@);
    }
    Some(Cow::Owned(out))
}

/// The output of the size tool with the addresses of its sections in
/// hexadecimal.
pub fn size(bytes: &[u8]) -> (out: Cow<'_, [u8]>)
    requires
        size_output(bytes@) is Some,
    ensures
        size_output(bytes@) == Some(out@),
{
    match checked_size(bytes) {
        Some(out) => out,
        None => Cow::Borrowed(bytes),
    }
}

} // verus!
