//! Reading text as bytes: lines, words, decimal numbers, and the writing
//! of numbers in hexadecimal. The bytes are taken to be UTF-8.

use vstd::prelude::*;

verus! {

/// Where the first line of `bytes` ends: at the first line feed, or at the
/// end of the bytes.
pub open spec fn line_end(bytes: Seq<u8>) -> int
    decreases bytes.len(),
{
    if bytes.len() == 0 || bytes[0] == 0x0a {
        0
    } else {
        1 + line_end(bytes.drop_first())
    }
}

/// A line without the carriage return that ends it, if one does.
pub open spec fn without_cr(line: Seq<u8>) -> Seq<u8> {
    if line.len() > 0 && line.last() == 0x0d {
        line.drop_last()
    } else {
        line
    }
}

/// The lines of a text. A line ends with a line feed, or with a carriage
/// return and a line feed; neither belongs to the line. The last line
/// need not end with a line feed, and a carriage return at its end then
/// belongs to it.
pub open spec fn lines_of(bytes: Seq<u8>) -> Seq<Seq<u8>>
    decreases bytes.len(),
{
    if bytes.len() == 0 {
        Seq::empty()
    } else {
        let end = line_end(bytes);
        if end < 0 || end >= bytes.len() {
            seq![bytes]
        } else {
            seq![without_cr(bytes.subrange(0, end))] + lines_of(
                bytes.subrange(end + 1, bytes.len() as int),
            )
        }
    }
}

/// The length of the white space character that begins at `at`, in bytes;
/// zero where none begins there. White space is what Unicode calls so.
pub open spec fn space_len(bytes: Seq<u8>, at: int) -> int {
    if at < 0 || at >= bytes.len() {
        0
    } else if (0x09 <= bytes[at] <= 0x0d) || bytes[at] == 0x20 {
        1
    } else if at + 1 < bytes.len() && bytes[at] == 0xc2 && (bytes[at + 1] == 0x85 || bytes[at + 1]
        == 0xa0) {
        2
    } else if at + 2 < bytes.len() && ((bytes[at] == 0xe1 && bytes[at + 1] == 0x9a && bytes[at + 2]
        == 0x80) || (bytes[at] == 0xe2 && bytes[at + 1] == 0x80 && (0x80 <= bytes[at + 2] <= 0x8a
        || bytes[at + 2] == 0xa8 || bytes[at + 2] == 0xa9 || bytes[at + 2] == 0xaf)) || (bytes[at]
        == 0xe2 && bytes[at + 1] == 0x81 && bytes[at + 2] == 0x9f) || (bytes[at] == 0xe3
        && bytes[at + 1] == 0x80 && bytes[at + 2] == 0x80)) {
        3
    } else {
        0
    }
}

/// Where the white space that begins at `at` ends.
pub open spec fn after_space(bytes: Seq<u8>, at: int) -> int
    decreases bytes.len() - at,
{
    if 0 <= at < bytes.len() && space_len(bytes, at) > 0 {
        after_space(bytes, at + space_len(bytes, at))
    } else {
        at
    }
}

/// Where the word that begins at `at` ends: at the next white space, or
/// at the end of the bytes.
pub open spec fn word_end(bytes: Seq<u8>, at: int) -> int
    decreases bytes.len() - at,
{
    if 0 <= at < bytes.len() && space_len(bytes, at) == 0 {
        word_end(bytes, at + 1)
    } else {
        at
    }
}

/// The place of the word with the number `index`, counted from zero,
/// among the words that follow `from`: where it begins and where it ends.
pub open spec fn word_at(bytes: Seq<u8>, from: int, index: nat) -> Option<(int, int)>
    decreases index,
{
    let begin = after_space(bytes, from);
    if begin >= bytes.len() {
        None
    } else if index == 0 {
        Some((begin, word_end(bytes, begin)))
    } else {
        word_at(bytes, word_end(bytes, begin), (index - 1) as nat)
    }
}

/// The length of the white space character that begins at `at`.
pub fn space_at(bytes: &[u8], at: usize) -> (len: usize)
    ensures
        len == space_len(bytes@, at as int),
        len <= 3,
        at < bytes.len() ==> at + len <= bytes.len(),
{
    if at >= bytes.len() {
        return 0;
    }
    let first = bytes[at];
    if (0x09 <= first && first <= 0x0d) || first == 0x20 {
        return 1;
    }
    let left = bytes.len() - at;
    if left > 1 && first == 0xc2 && (bytes[at + 1] == 0x85 || bytes[at + 1] == 0xa0) {
        return 2;
    }
    if left > 2 {
        let second = bytes[at + 1];
        let third = bytes[at + 2];
        if (first == 0xe1 && second == 0x9a && third == 0x80) || (first == 0xe2 && second == 0x80
            && ((0x80 <= third && third <= 0x8a) || third == 0xa8 || third == 0xa9 || third
            == 0xaf)) || (first == 0xe2 && second == 0x81 && third == 0x9f) || (first == 0xe3
            && second == 0x80 && third == 0x80) {
            return 3;
        }
    }
    0
}

/// Where the white space that begins at `at` ends.
pub fn skip_space(bytes: &[u8], at: usize) -> (end: usize)
    ensures
        end == after_space(bytes@, at as int),
        at <= end,
        at <= bytes.len() ==> end <= bytes.len(),
        space_len(bytes@, end as int) == 0,
{
    if at >= bytes.len() {
        return at;
    }
    let mut i = at;
    loop
        invariant
            at <= i <= bytes.len(),
            after_space(bytes@, at as int) == after_space(bytes@, i as int),
        decreases bytes.len() - i,
    {
        let len = space_at(bytes, i);
        if len == 0 {
            return i;
        }
        i += len;
    }
}

/// Where the word that begins at `at` ends.
pub fn skip_word(bytes: &[u8], at: usize) -> (end: usize)
    ensures
        end == word_end(bytes@, at as int),
        at <= end,
        at <= bytes.len() ==> end <= bytes.len(),
        at < bytes.len() && space_len(bytes@, at as int) == 0 ==> at < end,
{
    if at >= bytes.len() {
        return at;
    }
    let mut i = at;
    while i < bytes.len() && space_at(bytes, i) == 0
        invariant
            at <= i <= bytes.len(),
            word_end(bytes@, at as int) == word_end(bytes@, i as int),
        decreases bytes.len() - i,
    {
        i += 1;
    }
    i
}

/// The place of the word with the number `index`, counted from zero.
pub fn find_word(bytes: &[u8], index: usize) -> (place: Option<(usize, usize)>)
    ensures
        match place {
            Some((begin, end)) => word_at(bytes@, 0, index as nat) == Some(
                (begin as int, end as int),
            ) && begin < end <= bytes.len(),
            None => word_at(bytes@, 0, index as nat) is None,
        },
{
    let mut from: usize = 0;
    let mut left = index;
    loop
        invariant
            from <= bytes.len(),
            left <= index,
            word_at(bytes@, 0, index as nat) == word_at(bytes@, from as int, left as nat),
        decreases left,
    {
        let begin = skip_space(bytes, from);
        if begin >= bytes.len() {
            return None;
        }
        let end = skip_word(bytes, begin);
        assert(end > begin) by {
            assert(word_end(bytes@, begin as int) == word_end(bytes@, begin + 1));
        }
        if left == 0 {
            return Some((begin, end));
        }
        from = end;
        left -= 1;
    }
}

/// Whether `byte` is a decimal digit.
pub open spec fn is_digit(byte: u8) -> bool {
    0x30 <= byte <= 0x39
}

/// Whether `text` is made of decimal digits alone.
pub open spec fn all_digits(text: Seq<u8>) -> bool {
    forall|i: int| 0 <= i < text.len() ==> is_digit(#[trigger] text[i])
}

/// The number that the decimal digits of `text` write.
pub open spec fn digits_value(text: Seq<u8>) -> nat
    decreases text.len(),
{
    if text.len() == 0 {
        0
    } else {
        digits_value(text.drop_last()) * 10 + (text.last() - 0x30) as nat
    }
}

/// `text` without a plus sign at its beginning.
pub open spec fn unsigned_part(text: Seq<u8>) -> Seq<u8> {
    if text.len() > 0 && text[0] == 0x2b {
        text.drop_first()
    } else {
        text
    }
}

/// The number that `text` writes in decimal: an optional plus sign, then
/// one digit or more, and nothing else; nothing where the number is too
/// large for 64 bits.
pub open spec fn decimal(text: Seq<u8>) -> Option<u64> {
    let digits = unsigned_part(text);
    if digits.len() > 0 && all_digits(digits) && digits_value(digits) <= u64::MAX {
        Some(digits_value(digits) as u64)
    } else {
        None
    }
}

/// The number that the digits write grows with every digit that is added.
pub proof fn lemma_digits_value_grows(text: Seq<u8>, shorter: int)
    requires
        0 <= shorter <= text.len(),
        all_digits(text),
    ensures
        digits_value(text.take(shorter)) <= digits_value(text),
    decreases text.len(),
{
    if shorter < text.len() {
        assert(all_digits(text.drop_last())) by {
            assert forall|i: int| 0 <= i < text.drop_last().len() implies is_digit(
                #[trigger] text.drop_last()[i],
            ) by {
                assert(text.drop_last()[i] == text[i]);
            }
        }
        lemma_digits_value_grows(text.drop_last(), shorter);
        assert(text.drop_last().take(shorter) =~= text.take(shorter));
        assert(is_digit(text[text.len() - 1]));
    } else {
        assert(text.take(shorter) =~= text);
    }
}

/// Reads a number written in decimal.
pub fn parse_decimal(text: &[u8]) -> (number: Option<u64>)
    ensures
        number == decimal(text@),
{
    let begin: usize = if text.len() > 0 && text[0] == 0x2b {
        1
    } else {
        0
    };
    let ghost digits = unsigned_part(text@);
    assert(digits =~= text@.subrange(begin as int, text.len() as int));
    if begin >= text.len() {
        return None;
    }
    let mut value: u64 = 0;
    let mut i: usize = begin;
    assert(digits.take(0) =~= Seq::<u8>::empty());
    while i < text.len()
        invariant
            begin <= i <= text.len(),
            digits == unsigned_part(text@),
            digits == text@.subrange(begin as int, text.len() as int),
            all_digits(digits.take(i - begin)),
            value == digits_value(digits.take(i - begin)),
        decreases text.len() - i,
    {
        let byte = text[i];
        let ghost seen = digits.take(i - begin);
        let ghost more = digits.take(i + 1 - begin);
        proof {
            assert(more.drop_last() =~= seen);
            assert(more.last() == byte);
            assert(digits[i - begin] == byte);
        }
        if byte < 0x30 || byte > 0x39 {
            assert(!is_digit(digits[i - begin]));
            return None;
        }
        let digit = (byte - 0x30) as u64;
        assert(digits_value(more) == value * 10 + digit);
        if value > (u64::MAX - digit) / 10 {
            proof {
                let total = digits_value(more);
                assert(total > u64::MAX) by (nonlinear_arith)
                    requires
                        total == value * 10 + digit,
                        value > (u64::MAX - digit) / 10,
                        digit <= 9,
                {
                }
                if all_digits(digits) {
                    lemma_digits_value_grows(digits, i + 1 - begin);
                }
            }
            return None;
        }
        assert(value * 10 + digit <= u64::MAX) by (nonlinear_arith)
            requires
                value <= (u64::MAX - digit) / 10,
                digit <= 9,
        {
        }
        value = value * 10 + digit;
        assert(all_digits(more)) by {
            assert forall|k: int| 0 <= k < more.len() implies is_digit(#[trigger] more[k]) by {
                if k < more.len() - 1 {
                    assert(more[k] == seen[k]);
                }
            }
        }
        i += 1;
    }
    assert(digits.take(text.len() - begin) =~= digits);
    Some(value)
}

/// The hexadecimal digit for a number below sixteen.
pub open spec fn hex_digit(value: nat) -> u8 {
    if value < 10 {
        (0x30 + value) as u8
    } else {
        (0x61 + value - 10) as u8
    }
}

/// The hexadecimal digits of `value`, without leading zeros.
pub open spec fn hex_digits(value: nat) -> Seq<u8>
    decreases value,
{
    if value < 16 {
        seq![hex_digit(value)]
    } else {
        hex_digits(value / 16).push(hex_digit(value % 16))
    }
}

/// `value` in hexadecimal, with lower case digits after the prefix `0x`.
pub open spec fn hex_text(value: u64) -> Seq<u8> {
    seq![0x30u8, 0x78u8] + hex_digits(value as nat)
}

/// How many hexadecimal digits `value` has.
pub open spec fn hex_len(value: nat) -> nat
    decreases value,
{
    if value < 16 {
        1
    } else {
        hex_len(value / 16) + 1
    }
}

/// The hexadecimal digits of a number are as many as `hex_len` says, and
/// a number of 64 bits has sixteen at most.
pub proof fn lemma_hex_digits_len(value: nat)
    ensures
        hex_digits(value).len() == hex_len(value),
        hex_len(value) >= 1,
        value <= u64::MAX ==> hex_len(value) <= 16,
    decreases value,
{
    if value >= 16 {
        lemma_hex_digits_len(value / 16);
    }
    if value <= u64::MAX {
        reveal_with_fuel(hex_len, 17);
    }
}

/// Writes `value` in hexadecimal, with the prefix `0x`.
pub fn format_hex(value: u64) -> (text: Vec<u8>)
    ensures
        text@ == hex_text(value),
        3 <= text.len() <= 18,
{
    let mut count: usize = 1;
    let mut rest = value;
    proof {
        lemma_hex_digits_len(value as nat);
    }
    while rest >= 16
        invariant
            1 <= count <= 16,
            hex_len(value as nat) == hex_len(rest as nat) + count - 1,
            hex_len(value as nat) <= 16,
        decreases rest,
    {
        proof {
            lemma_hex_digits_len((rest / 16) as nat);
            assert(hex_len(rest as nat) >= 2);
        }
        rest = rest / 16;
        count += 1;
    }
    proof {
        lemma_hex_digits_len(value as nat);
    }
    let mut text: Vec<u8> = Vec::new();
    text.push(0x30);
    text.push(0x78);
    let mut written: usize = 0;
    while written < count
        invariant
            written <= count == hex_len(value as nat),
            count <= 16,
            text.len() == 2 + written,
            text@.take(2) == seq![0x30u8, 0x78u8],
        decreases count - written,
    {
        text.push(0x30);
        written += 1;
        assert(text@.take(2) =~= seq![0x30u8, 0x78u8]);
    }
    let mut left = value;
    let mut place: usize = count;
    assert(hex_digits(value as nat).skip(count as int) =~= Seq::<u8>::empty());
    while place > 0
        invariant
            place <= count == hex_len(value as nat),
            text.len() == 2 + count,
            text@.take(2) == seq![0x30u8, 0x78u8],
            place > 0 ==> hex_len(left as nat) == place,
            place > 0 ==> hex_digits(value as nat).take(place as int) == hex_digits(left as nat),
            text@.skip(2 + place) == hex_digits(value as nat).skip(place as int),
        decreases place,
    {
        let low = (left % 16) as u8;
        let digit: u8 = if low < 10 {
            0x30 + low
        } else {
            0x61 + (low - 10)
        };
        assert(digit == hex_digit((left % 16) as nat));
        let ghost all = hex_digits(value as nat);
        let ghost before = text@;
        proof {
            lemma_hex_digits_len(value as nat);
            lemma_hex_digits_len(left as nat);
            assert(all.take(place as int).last() == digit) by {
                if left >= 16 {
                    assert(hex_digits(left as nat) == hex_digits((left / 16) as nat).push(
                        hex_digit((left % 16) as nat),
                    ));
                }
            }
            assert(all[place - 1] == digit);
        }
        place -= 1;
        text.set(2 + place, digit);
        proof {
            assert(text@.take(2) =~= seq![0x30u8, 0x78u8]);
            assert(text@.skip(2 + place) =~= seq![digit] + before.skip(2 + place + 1));
            assert(all.skip(place as int) =~= seq![digit] + all.skip(place + 1));
            if place > 0 {
                assert(left >= 16);
                assert(hex_digits(left as nat).drop_last() =~= hex_digits((left / 16) as nat));
                assert(all.take(place as int) =~= all.take(place + 1).drop_last());
            }
        }
        left = left / 16;
    }
    proof {
        lemma_hex_digits_len(value as nat);
        assert(text@ =~= text@.take(2) + text@.skip(2));
        assert(hex_digits(value as nat).skip(0) =~= hex_digits(value as nat));
    }
    text
}

/// Whether `needle` stands in `text` at `at`.
pub open spec fn occurs_at(text: Seq<u8>, needle: Seq<u8>, at: int) -> bool {
    0 <= at && at + needle.len() <= text.len() && text.subrange(at, at + needle.len()) == needle
}

/// The last place at or before `at` where `needle` stands in `text`;
/// below zero where there is none.
pub open spec fn last_occurrence(text: Seq<u8>, needle: Seq<u8>, at: int) -> int
    decreases at + 1,
{
    if at < 0 {
        -1
    } else if occurs_at(text, needle, at) {
        at
    } else {
        last_occurrence(text, needle, at - 1)
    }
}

/// Whether `needle` stands in `text` at `at`.
pub fn matches_at(text: &[u8], needle: &[u8], at: usize) -> (yes: bool)
    ensures
        yes == occurs_at(text@, needle@, at as int),
{
    if needle.len() > text.len() || at > text.len() - needle.len() {
        return false;
    }
    let mut k: usize = 0;
    while k < needle.len()
        invariant
            k <= needle.len(),
            at + needle.len() <= text.len(),
            forall|j: int| 0 <= j < k ==> text@[at + j] == needle@[j],
        decreases needle.len() - k,
    {
        if text[at + k] != needle[k] {
            assert(text@.subrange(at as int, at + needle.len())[k as int] != needle@[k as int]);
            return false;
        }
        k += 1;
    }
    assert(text@.subrange(at as int, at + needle.len()) =~= needle@);
    true
}

/// The last place where `needle` stands in `text`.
pub fn rfind(text: &[u8], needle: &[u8]) -> (place: Option<usize>)
    ensures
        match place {
            Some(at) => last_occurrence(text@, needle@, text.len() - needle.len()) == at,
            None => last_occurrence(text@, needle@, text.len() - needle.len()) < 0,
        },
{
    if needle.len() > text.len() {
        return None;
    }
    let mut at: usize = text.len() - needle.len();
    loop
        invariant
            at <= text.len() - needle.len(),
            needle.len() <= text.len(),
            last_occurrence(text@, needle@, text.len() - needle.len()) == last_occurrence(
                text@,
                needle@,
                at as int,
            ),
        decreases at,
    {
        if matches_at(text, needle, at) {
            return Some(at);
        }
        if at == 0 {
            assert(last_occurrence(text@, needle@, -1) == -1);
            return None;
        }
        at -= 1;
    }
}

/// A larger number has no fewer hexadecimal digits.
pub proof fn lemma_hex_len_grows(a: nat, b: nat)
    requires
        a <= b,
    ensures
        hex_len(a) <= hex_len(b),
    decreases b,
{
    if a >= 16 {
        lemma_hex_len_grows(a / 16, b / 16);
    }
}

/// A number has no more hexadecimal digits than decimal digits, however
/// many zeros its decimal digits begin with.
pub proof fn lemma_hex_no_longer_than_decimal(text: Seq<u8>)
    requires
        text.len() > 0,
        all_digits(text),
    ensures
        hex_len(digits_value(text)) <= text.len(),
    decreases text.len(),
{
    let shorter = text.drop_last();
    let value = digits_value(text);
    assert(is_digit(text[text.len() - 1]));
    if shorter.len() == 0 {
        assert(digits_value(shorter) == 0);
        assert(value < 16);
    } else {
        assert(all_digits(shorter)) by {
            assert forall|i: int| 0 <= i < shorter.len() implies is_digit(#[trigger] shorter[i]) by {
                assert(shorter[i] == text[i]);
            }
        }
        lemma_hex_no_longer_than_decimal(shorter);
        if value >= 16 {
            assert(value / 16 <= digits_value(shorter));
            lemma_hex_len_grows(value / 16, digits_value(shorter));
        }
    }
}

/// The word with the number two begins behind two words and the white
/// space that parts them.
pub proof fn lemma_third_word_begins_late(bytes: Seq<u8>)
    ensures
        word_at(bytes, 0, 2) matches Some((begin, end)) ==> 2 <= begin < end <= bytes.len(),
{
    reveal_with_fuel(word_at, 3);
    let first = after_space(bytes, 0);
    lemma_after_space(bytes, 0);
    lemma_word_end(bytes, first);
    let first_end = word_end(bytes, first);
    let second = after_space(bytes, first_end);
    lemma_after_space(bytes, first_end);
    lemma_word_end(bytes, second);
    let second_end = word_end(bytes, second);
    let third = after_space(bytes, second_end);
    lemma_after_space(bytes, second_end);
    lemma_word_end(bytes, third);
}

/// White space ends at or behind where it begins, inside the bytes, and
/// where no white space follows.
pub proof fn lemma_after_space(bytes: Seq<u8>, at: int)
    requires
        0 <= at <= bytes.len(),
    ensures
        at <= after_space(bytes, at) <= bytes.len(),
        space_len(bytes, after_space(bytes, at)) == 0,
    decreases bytes.len() - at,
{
    if at < bytes.len() && space_len(bytes, at) > 0 {
        lemma_after_space(bytes, at + space_len(bytes, at));
    }
}

/// A word ends inside the bytes, and behind where it begins if it begins
/// with anything but white space.
pub proof fn lemma_word_end(bytes: Seq<u8>, at: int)
    requires
        0 <= at <= bytes.len(),
    ensures
        at <= word_end(bytes, at) <= bytes.len(),
        at < bytes.len() && space_len(bytes, at) == 0 ==> at < word_end(bytes, at),
    decreases bytes.len() - at,
{
    if at < bytes.len() && space_len(bytes, at) == 0 {
        lemma_word_end(bytes, at + 1);
    }
}

} // verus!
