//! Text as bytes: separators, hexadecimal and decimal numbers, and what the standard
//! library is trusted to do with UTF-8.

use vstd::prelude::*;
use vstd::utf8::{
    encode_utf8, encode_utf8_decode_utf8, encode_utf8_valid_utf8, is_ascii_chars,
    is_ascii_chars_encode_utf8, valid_utf8,
};

verus! {

/// `String::from_utf8` of the standard library, with its error dropped: the bytes become
/// a string exactly when they are UTF-8, and the string then has those bytes.
#[verifier::external_body]
pub(crate) fn string_from_utf8(bytes: Vec<u8>) -> (text: Option<String>)
    ensures
        text is Some <==> valid_utf8(bytes@),
        text is Some ==> encode_utf8(text->0@) == bytes@,
{
    String::from_utf8(bytes).ok()
}

/// Whether every byte is below 128.
pub open spec fn is_ascii_bytes(bytes: Seq<u8>) -> bool {
    forall|i: int| 0 <= i < bytes.len() ==> #[trigger] bytes[i] < 128
}

/// The characters that ASCII bytes stand for.
pub open spec fn ascii_chars(bytes: Seq<u8>) -> Seq<char> {
    Seq::new(bytes.len(), |i: int| bytes[i] as char)
}

/// ASCII bytes are UTF-8, and they are the bytes of the characters they stand for.
pub proof fn lemma_ascii_is_utf8(bytes: Seq<u8>)
    requires
        is_ascii_bytes(bytes),
    ensures
        valid_utf8(bytes),
        encode_utf8(ascii_chars(bytes)) == bytes,
{
    let chars = ascii_chars(bytes);
    assert(is_ascii_chars(chars)) by {
        assert forall|i: int| 0 <= i < chars.len() implies '\0' <= #[trigger] chars[i]
            <= '\u{7f}' by {
            assert(bytes[i] < 128);
        }
    }
    is_ascii_chars_encode_utf8(chars);
    assert(encode_utf8(chars) =~= bytes) by {
        assert forall|i: int| 0 <= i < bytes.len() implies encode_utf8(chars)[i] == bytes[i] by {
            assert(chars[i] as u8 == encode_utf8(chars)[i]);
            assert(bytes[i] < 128);
        }
    }
    encode_utf8_valid_utf8(chars);
}

/// The string of the given ASCII bytes.
pub fn ascii_string(bytes: Vec<u8>) -> (text: String)
    requires
        is_ascii_bytes(bytes@),
    ensures
        encode_utf8(text@) == bytes@,
        text@ == ascii_chars(bytes@),
{
    proof {
        lemma_ascii_is_utf8(bytes@);
    }
    let ghost given = bytes@;
    match string_from_utf8(bytes) {
        Some(text) => {
            proof {
                encode_utf8_decode_utf8(text@);
                encode_utf8_decode_utf8(ascii_chars(given));
            }
            text
        },
        None => {
            proof {
                assert(false);
            }
            String::new()
        },
    }
}

/// The place of the first `separator` in `text`, or the length of `text` where there
/// is none.
pub open spec fn first_index_of(text: Seq<u8>, separator: u8) -> nat
    decreases text.len(),
{
    if text.len() == 0 || text[0] == separator {
        0
    } else {
        1 + first_index_of(text.drop_first(), separator)
    }
}

/// Whether `separator` occurs nowhere in `text`.
pub open spec fn free_of(text: Seq<u8>, separator: u8) -> bool {
    forall|i: int| 0 <= i < text.len() ==> #[trigger] text[i] != separator
}

/// The pieces of `text` between its separators, in order: one more piece than there
/// are separators, and empty pieces where two separators touch or one stands at an end.
pub open spec fn split(text: Seq<u8>, separator: u8) -> Seq<Seq<u8>>
    decreases text.len(),
{
    let at = first_index_of(text, separator);
    if at >= text.len() {
        seq![text]
    } else {
        seq![text.subrange(0, at as int)] + split(
            text.subrange(at as int + 1, text.len() as int),
            separator,
        )
    }
}

/// What `first_index_of` finds: no separator stands before it, and one stands at it
/// unless it is the length.
pub proof fn lemma_first_index_of(text: Seq<u8>, separator: u8)
    ensures
        0 <= first_index_of(text, separator) <= text.len(),
        free_of(text.subrange(0, first_index_of(text, separator) as int), separator),
        first_index_of(text, separator) < text.len() ==> text[first_index_of(
            text,
            separator,
        ) as int] == separator,
    decreases text.len(),
{
    if text.len() == 0 || text[0] == separator {
    } else {
        let rest = text.drop_first();
        lemma_first_index_of(rest, separator);
        let at = first_index_of(text, separator) as int;
        assert forall|i: int| 0 <= i < at implies #[trigger] text.subrange(0, at)[i]
            != separator by {
            if i > 0 {
                assert(rest.subrange(0, at - 1)[i - 1] == text[i]);
            }
        }
    }
}

/// The first separator is where a separator stands with none before it.
pub proof fn lemma_first_index_is(text: Seq<u8>, separator: u8, at: int)
    requires
        0 <= at <= text.len(),
        free_of(text.subrange(0, at), separator),
        at < text.len() ==> text[at] == separator,
    ensures
        first_index_of(text, separator) == at,
    decreases text.len(),
{
    if text.len() == 0 {
    } else if text[0] == separator {
        if at > 0 {
            assert(text.subrange(0, at)[0] == separator);
        }
    } else {
        let rest = text.drop_first();
        assert(at > 0);
        assert forall|i: int| 0 <= i < at - 1 implies #[trigger] rest.subrange(0, at - 1)[i]
            != separator by {
            assert(text.subrange(0, at)[i + 1] == rest[i]);
        }
        lemma_first_index_is(rest, separator, at - 1);
    }
}

/// A text without a separator is one piece.
pub proof fn lemma_split_one(text: Seq<u8>, separator: u8)
    requires
        free_of(text, separator),
    ensures
        split(text, separator) == seq![text],
{
    assert(text.subrange(0, text.len() as int) =~= text);
    lemma_first_index_is(text, separator, text.len() as int);
}

/// A piece without a separator, a separator and a rest split into that piece and the
/// pieces of the rest.
pub proof fn lemma_split_more(piece: Seq<u8>, separator: u8, rest: Seq<u8>)
    requires
        free_of(piece, separator),
    ensures
        split(piece + seq![separator] + rest, separator) == seq![piece] + split(rest, separator),
{
    let text = piece + seq![separator] + rest;
    let at = piece.len() as int;
    assert(text.subrange(0, at) =~= piece);
    lemma_first_index_is(text, separator, at);
    assert(text.subrange(at + 1, text.len() as int) =~= rest);
}

/// A text is its first piece alone, or its first piece, a separator and a rest whose
/// pieces are the pieces that follow.
pub proof fn lemma_split_first(text: Seq<u8>, separator: u8)
    ensures
        split(text, separator).len() >= 1,
        split(text, separator).len() == 1 ==> text == split(text, separator)[0],
        split(text, separator).len() > 1 ==> ({
            let piece = split(text, separator)[0];
            let rest = text.subrange(piece.len() as int + 1, text.len() as int);
            &&& piece.len() < text.len()
            &&& text == piece + seq![separator] + rest
            &&& split(rest, separator) == split(text, separator).drop_first()
        }),
    decreases text.len(),
{
    lemma_first_index_of(text, separator);
    let at = first_index_of(text, separator) as int;
    if at < text.len() {
        let piece = text.subrange(0, at);
        let rest = text.subrange(at + 1, text.len() as int);
        lemma_split_first(rest, separator);
        assert(text =~= piece + seq![separator] + rest);
        assert(split(text, separator).drop_first() =~= split(rest, separator));
    } else {
        assert(text.subrange(0, text.len() as int) =~= text);
    }
}

/// The place of the first `separator` in `bytes[from..to]`, counted from the start of
/// `bytes`; `to` where there is none.
pub fn find(bytes: &[u8], from: usize, to: usize, separator: u8) -> (at: usize)
    requires
        from <= to <= bytes@.len(),
    ensures
        from <= at <= to,
        at - from == first_index_of(bytes@.subrange(from as int, to as int), separator),
{
    let mut at: usize = from;
    while at < to && bytes[at] != separator
        invariant
            from <= at <= to <= bytes@.len(),
            free_of(bytes@.subrange(from as int, at as int), separator),
        decreases to - at,
    {
        at = at + 1;
        assert forall|i: int| 0 <= i < at - from implies #[trigger] bytes@.subrange(
            from as int,
            at as int,
        )[i] != separator by {
            if i < at - from - 1 {
                assert(bytes@.subrange(from as int, at - 1)[i] != separator);
            }
        }
    }
    proof {
        let text = bytes@.subrange(from as int, to as int);
        assert(text.subrange(0, at - from) =~= bytes@.subrange(from as int, at as int));
        lemma_first_index_is(text, separator, at - from);
    }
    at
}

/// The parts of `bytes` that the given ranges cut out.
pub open spec fn pieces_of(bytes: Seq<u8>, ranges: Seq<(usize, usize)>) -> Seq<Seq<u8>> {
    Seq::new(ranges.len(), |i: int| bytes.subrange(ranges[i].0 as int, ranges[i].1 as int))
}

/// Where the pieces of `bytes[from..to]` between its separators lie, in order.
pub fn split_ranges(bytes: &[u8], from: usize, to: usize, separator: u8) -> (ranges: Vec<
    (usize, usize),
>)
    requires
        from <= to <= bytes@.len(),
    ensures
        pieces_of(bytes@, ranges@) == split(bytes@.subrange(from as int, to as int), separator),
        forall|i: int|
            0 <= i < ranges@.len() ==> from <= (#[trigger] ranges@[i]).0 <= ranges@[i].1 <= to,
{
    let ghost whole = bytes@.subrange(from as int, to as int);
    let mut ranges: Vec<(usize, usize)> = Vec::new();
    let mut start: usize = from;
    let mut done: bool = false;
    while !done
        invariant
            from <= start <= to <= bytes@.len(),
            whole == bytes@.subrange(from as int, to as int),
            forall|i: int|
                0 <= i < ranges@.len() ==> from <= (#[trigger] ranges@[i]).0 <= ranges@[i].1 <= to,
            !done ==> split(whole, separator) == pieces_of(bytes@, ranges@) + split(
                bytes@.subrange(start as int, to as int),
                separator,
            ),
            done ==> split(whole, separator) == pieces_of(bytes@, ranges@),
            !done ==> ranges@.len() <= start - from,
        decreases to - start + (if done { 0int } else { 1int }),
    {
        let at = find(bytes, start, to, separator);
        let ghost before = ranges@;
        let ghost rest = bytes@.subrange(start as int, to as int);
        ranges.push((start, at));
        proof {
            assert(rest.subrange(0, at - start) =~= bytes@.subrange(start as int, at as int));
            assert(pieces_of(bytes@, ranges@) =~= pieces_of(bytes@, before) + seq![
                bytes@.subrange(start as int, at as int),
            ]);
            if at < to {
                assert(rest.subrange(at - start + 1, rest.len() as int) =~= bytes@.subrange(
                    at + 1,
                    to as int,
                ));
            } else {
                assert(rest.subrange(0, at - start) =~= rest);
            }
        }
        if at >= to {
            done = true;
        } else {
            start = at + 1;
        }
    }
    ranges
}

/// What a byte is worth as a decimal digit.
pub open spec fn digit_value(digit: u8) -> Option<int> {
    if 48 <= digit <= 57 {
        Some(digit - 48)
    } else {
        None
    }
}

/// What a byte is worth as a hexadecimal digit: `0` to `9`, and `a` to `f` in lower
/// case for ten to fifteen.
pub open spec fn hex_value(digit: u8) -> Option<int> {
    if 48 <= digit <= 57 {
        Some(digit - 48)
    } else if 97 <= digit <= 102 {
        Some(digit - 87)
    } else {
        None
    }
}

/// The number that decimal `digits` write, most significant digit first; none where a
/// byte is not a digit.
pub open spec fn digits_value(digits: Seq<u8>) -> Option<int>
    decreases digits.len(),
{
    if digits.len() == 0 {
        Some(0)
    } else {
        match (digits_value(digits.drop_last()), digit_value(digits.last())) {
            (Some(high), Some(low)) => Some(10 * high + low),
            _ => None,
        }
    }
}

/// The number that at least one decimal digit writes, where it is at most `limit`.
pub open spec fn spec_number(digits: Seq<u8>, limit: int) -> Option<int> {
    match digits_value(digits) {
        Some(value) => if digits.len() > 0 && value <= limit {
            Some(value)
        } else {
            None
        },
        None => None,
    }
}

/// Where digits write a number, every start of them writes a number too, and no
/// larger one.
pub proof fn lemma_digits_prefix(digits: Seq<u8>, k: int)
    requires
        0 <= k <= digits.len(),
        digits_value(digits) is Some,
    ensures
        digits_value(digits.subrange(0, k)) is Some,
        0 <= digits_value(digits.subrange(0, k))->0 <= digits_value(digits)->0,
    decreases digits.len(),
{
    if digits.len() == 0 {
        assert(digits.subrange(0, k) =~= digits);
    } else if k == digits.len() {
        assert(digits.subrange(0, k) =~= digits);
        lemma_digits_prefix(digits.drop_last(), k - 1);
        assert(digits.drop_last().subrange(0, k - 1) =~= digits.drop_last());
    } else {
        lemma_digits_prefix(digits.drop_last(), k);
        assert(digits.drop_last().subrange(0, k) =~= digits.subrange(0, k));
        lemma_digits_prefix(digits.drop_last(), digits.len() - 1);
        assert(digits.drop_last().subrange(0, digits.len() - 1) =~= digits.drop_last());
    }
}

/// Reads `bytes[from..to]` as a decimal number that is at most `limit`.
pub fn parse_number(bytes: &[u8], from: usize, to: usize, limit: u32) -> (number: Option<u32>)
    requires
        from <= to <= bytes@.len(),
        limit <= 0xffff,
    ensures
        number is Some <==> spec_number(bytes@.subrange(from as int, to as int), limit as int)
            is Some,
        number is Some ==> number->0 == spec_number(
            bytes@.subrange(from as int, to as int),
            limit as int,
        )->0,
{
    let ghost digits = bytes@.subrange(from as int, to as int);
    if from == to {
        return None;
    }
    let mut value: u32 = 0;
    let mut at: usize = from;
    while at < to
        invariant
            from <= at <= to <= bytes@.len(),
            limit <= 0xffff,
            digits == bytes@.subrange(from as int, to as int),
            digits_value(digits.subrange(0, at - from)) == Some(value as int),
            value <= limit,
        decreases to - at,
    {
        let digit: u8 = bytes[at];
        proof {
            let longer = digits.subrange(0, at - from + 1);
            assert(longer.drop_last() =~= digits.subrange(0, at - from));
            assert(longer.last() == digit);
            if digits_value(digits) is Some {
                lemma_digits_prefix(digits, at - from + 1);
            }
        }
        if digit < 48 || digit > 57 {
            return None;
        }
        let next: u32 = 10 * value + (digit - 48) as u32;
        if next > limit {
            return None;
        }
        value = next;
        at = at + 1;
    }
    proof {
        assert(digits.subrange(0, at - from) =~= digits);
    }
    Some(value)
}

/// The byte that writes a digit below sixteen: `0` to `9`, then `a` to `f`.
pub open spec fn hex_char(digit: int) -> u8 {
    if digit < 10 {
        (48 + digit) as u8
    } else {
        (87 + digit) as u8
    }
}

/// The two lower-case hexadecimal digits of a byte.
pub open spec fn spec_hex_byte(byte: u8) -> Seq<u8> {
    seq![hex_char(byte as int / 16), hex_char(byte as int % 16)]
}

/// What a group of an address means as a byte: exactly two hexadecimal digits, the
/// more significant one first.
pub open spec fn spec_hex_u8(group: Seq<u8>) -> Option<u8> {
    if group.len() == 2 && hex_value(group[0]) is Some && hex_value(group[1]) is Some {
        Some((16 * hex_value(group[0])->0 + hex_value(group[1])->0) as u8)
    } else {
        None
    }
}

/// Appends the two hexadecimal digits of `byte` to `out`.
pub fn put_hex_byte(out: &mut Vec<u8>, byte: u8)
    ensures
        final(out)@ == old(out)@ + spec_hex_byte(byte),
{
    let high: u8 = byte / 16;
    let low: u8 = byte % 16;
    out.push(if high < 10 { 48 + high } else { 87 + high });
    out.push(if low < 10 { 48 + low } else { 87 + low });
    assert(out@ =~= old(out)@ + spec_hex_byte(byte));
}

/// Reads one byte as a hexadecimal digit.
pub fn parse_hex_digit(digit: u8) -> (value: Option<u8>)
    ensures
        value is Some <==> hex_value(digit) is Some,
        value is Some ==> value->0 == hex_value(digit)->0,
{
    if 48 <= digit && digit <= 57 {
        Some(digit - 48)
    } else if 97 <= digit && digit <= 102 {
        Some(digit - 87)
    } else {
        None
    }
}

/// Reads `bytes[from..to]` as one group of an address.
pub fn parse_hex_u8(bytes: &[u8], from: usize, to: usize) -> (byte: Option<u8>)
    requires
        from <= to <= bytes@.len(),
    ensures
        byte == spec_hex_u8(bytes@.subrange(from as int, to as int)),
{
    if to - from != 2 {
        return None;
    }
    match (parse_hex_digit(bytes[from]), parse_hex_digit(bytes[from + 1])) {
        (Some(high), Some(low)) => Some(16 * high + low),
        _ => None,
    }
}

/// The two digits of a byte are digits and lower-case letters, and they are read back
/// as the byte; and two digits that are read as a byte are the digits of that byte.
pub proof fn lemma_hex_round_trip(byte: u8)
    ensures
        spec_hex_byte(byte).len() == 2,
        spec_hex_u8(spec_hex_byte(byte)) == Some(byte),
        forall|i: int|
            0 <= i < 2 ==> 48 <= (#[trigger] spec_hex_byte(byte)[i]) <= 57 || 97 <= spec_hex_byte(
                byte,
            )[i] <= 102,
        forall|group: Seq<u8>| #[trigger]
            spec_hex_u8(group) == Some(byte) ==> group == spec_hex_byte(byte),
{
    assert forall|group: Seq<u8>| #[trigger] spec_hex_u8(group) == Some(byte) implies group
        == spec_hex_byte(byte) by {
        assert(group =~= spec_hex_byte(byte));
    }
}

/// The decimal digits of a number, without leading zeros.
pub open spec fn spec_decimal(number: nat) -> Seq<u8>
    decreases number,
{
    if number < 10 {
        seq![(48 + number) as u8]
    } else {
        spec_decimal(number / 10) + seq![(48 + number % 10) as u8]
    }
}

/// Whether every byte is a decimal digit.
pub open spec fn is_decimal(text: Seq<u8>) -> bool {
    forall|i: int| 0 <= i < text.len() ==> 48 <= #[trigger] text[i] <= 57
}

/// The digits of a number are decimal digits, they start with a zero only for the
/// number zero, a number below ten to the power of `k` has at most `k` of them (for
/// `k` up to five), and they write the number.
pub proof fn lemma_decimal_round_trip(number: nat)
    ensures
        spec_decimal(number).len() >= 1,
        is_decimal(spec_decimal(number)),
        number > 0 ==> spec_decimal(number)[0] != 48,
        number < 10 ==> spec_decimal(number).len() == 1,
        number < 100 ==> spec_decimal(number).len() <= 2,
        number < 1000 ==> spec_decimal(number).len() <= 3,
        number < 10000 ==> spec_decimal(number).len() <= 4,
        number < 100000 ==> spec_decimal(number).len() <= 5,
        digits_value(spec_decimal(number)) == Some(number as int),
    decreases number,
{
    let text = spec_decimal(number);
    if number < 10 {
        assert(text.drop_last() =~= Seq::<u8>::empty());
        assert(digits_value(text.drop_last()) == Some(0int));
        assert(digit_value(text.last()) == Some(number as int));
    } else {
        let high = spec_decimal(number / 10);
        lemma_decimal_round_trip(number / 10);
        assert(text.drop_last() =~= high);
        assert(text.last() == (48 + number % 10) as u8);
        assert(digit_value(text.last()) == Some((number % 10) as int));
        assert(text[0] == high[0]);
        assert forall|i: int| 0 <= i < text.len() implies 48 <= #[trigger] text[i] <= 57 by {
            if i < high.len() {
                assert(text[i] == high[i]);
            }
        }
    }
}

/// Appends the decimal digits of `number` to `out`.
pub fn put_decimal(out: &mut Vec<u8>, number: u16)
    ensures
        final(out)@ == old(out)@ + spec_decimal(number as nat),
    decreases number,
{
    if number >= 10 {
        put_decimal(out, number / 10);
    }
    out.push(48 + (number % 10) as u8);
    assert(out@ =~= old(out)@ + spec_decimal(number as nat));
}

/// A text without the null characters at its end.
pub open spec fn spec_trim_trailing_null(text: Seq<char>) -> Seq<char>
    decreases text.len(),
{
    if text.len() > 0 && text.last() == '\0' {
        spec_trim_trailing_null(text.drop_last())
    } else {
        text
    }
}

/// `str::trim_end_matches` of the standard library with the null character as its
/// pattern, and the rest copied into a string of its own: all null characters at the
/// end are gone and nothing else is.
#[verifier::external_body]
pub(crate) fn trim_end_nulls(text: &str) -> (trimmed: String)
    ensures
        trimmed@ == spec_trim_trailing_null(text@),
{
    text.trim_end_matches('\0').to_string()
}

/// What trimming leaves is a start of the text that does not end in a null character,
/// and what it takes away is null characters only.
pub proof fn lemma_trim_trailing_null(text: Seq<char>)
    ensures
        spec_trim_trailing_null(text).len() <= text.len(),
        spec_trim_trailing_null(text) == text.subrange(
            0,
            spec_trim_trailing_null(text).len() as int,
        ),
        spec_trim_trailing_null(text).len() > 0 ==> spec_trim_trailing_null(text).last() != '\0',
        forall|i: int|
            spec_trim_trailing_null(text).len() <= i < text.len() ==> #[trigger] text[i] == '\0',
    decreases text.len(),
{
    if text.len() > 0 && text.last() == '\0' {
        lemma_trim_trailing_null(text.drop_last());
        let kept = spec_trim_trailing_null(text).len() as int;
        assert(text.drop_last().subrange(0, kept) =~= text.subrange(0, kept));
        assert forall|i: int| kept <= i < text.len() implies #[trigger] text[i] == '\0' by {
            if i < text.len() - 1 {
                assert(text.drop_last()[i] == text[i]);
            }
        }
    } else {
        assert(text.subrange(0, text.len() as int) =~= text);
    }
}

/// The bytes of two texts, one after the other, are the bytes of the texts joined.
pub proof fn lemma_encode_utf8_concat(a: Seq<char>, b: Seq<char>)
    ensures
        encode_utf8(a + b) == encode_utf8(a) + encode_utf8(b),
    decreases a.len(),
{
    if a.len() == 0 {
        assert(a + b =~= b);
        assert(encode_utf8(a) + encode_utf8(b) =~= encode_utf8(b));
    } else {
        lemma_encode_utf8_concat(a.drop_first(), b);
        assert((a + b).drop_first() =~= a.drop_first() + b);
        assert((a + b)[0] == a[0]);
        assert(encode_utf8(a + b) =~= encode_utf8(a) + encode_utf8(b));
    }
}

/// A trimmed text has no more bytes than the text had.
pub proof fn lemma_trim_is_no_longer(text: Seq<char>)
    ensures
        encode_utf8(spec_trim_trailing_null(text)).len() <= encode_utf8(text).len(),
{
    lemma_trim_trailing_null(text);
    let kept = spec_trim_trailing_null(text);
    let rest = text.subrange(kept.len() as int, text.len() as int);
    assert(text =~= kept + rest);
    lemma_encode_utf8_concat(kept, rest);
}

} // verus!
