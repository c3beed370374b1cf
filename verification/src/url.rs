//! Percent-encoding of one component of a URL.

use crate::bytes::{decode_lossy, encoding_is_decoded, text_of_bytes};
use vstd::prelude::*;
use vstd::utf8::{encode_utf8, is_ascii_chars, is_ascii_chars_encode_utf8};

verus! {

/// Whether a byte stands for itself: ASCII letters and digits, `-`, `_`, `.`
/// and `~`.
pub open spec fn is_unreserved(byte: u8) -> bool {
    ||| 0x30 <= byte <= 0x39
    ||| 0x41 <= byte <= 0x5a
    ||| 0x61 <= byte <= 0x7a
    ||| byte == 0x2d
    ||| byte == 0x5f
    ||| byte == 0x2e
    ||| byte == 0x7e
}

/// The hexadecimal digit of a number below sixteen, in upper case.
pub open spec fn hex_digit(n: u8) -> char {
    if n < 10 {
        (0x30 + n) as char
    } else {
        (0x37 + n) as char
    }
}

/// How a byte is encoded: as itself, or as a percent sign and two hexadecimal
/// digits.
pub open spec fn encoded_byte(byte: u8) -> Seq<char> {
    if is_unreserved(byte) {
        seq![byte as char]
    } else {
        seq!['%', hex_digit(byte / 16), hex_digit(byte % 16)]
    }
}

/// How bytes are encoded.
pub open spec fn encoded_bytes(bytes: Seq<u8>) -> Seq<char>
    decreases bytes.len(),
{
    if bytes.len() == 0 {
        Seq::empty()
    } else {
        encoded_byte(bytes[0]) + encoded_bytes(bytes.drop_first())
    }
}

/// How a text is encoded: by the bytes of its UTF-8 encoding.
pub open spec fn url_encoded(text: Seq<char>) -> Seq<char> {
    encoded_bytes(encode_utf8(text))
}

/// The number of a hexadecimal digit in either case.
pub open spec fn hex_value(byte: u8) -> Option<u8> {
    if 0x30 <= byte <= 0x39 {
        Some((byte - 0x30) as u8)
    } else if 0x41 <= byte <= 0x46 {
        Some((byte - 0x37) as u8)
    } else if 0x61 <= byte <= 0x66 {
        Some((byte - 0x57) as u8)
    } else {
        None
    }
}

/// The number that two bytes stand for in hexadecimal: two digits, or a plus
/// sign and a digit.
pub open spec fn hex_pair(first: u8, second: u8) -> Option<u8> {
    if first == 0x2b {
        hex_value(second)
    } else {
        match (hex_value(first), hex_value(second)) {
            (Some(high), Some(low)) => Some((high * 16 + low) as u8),
            _ => None,
        }
    }
}

/// The bytes that encoded ones stand for: a percent sign with a number behind
/// it stands for that number, and any other byte for itself.
pub open spec fn decoded_bytes(bytes: Seq<u8>) -> Seq<u8>
    decreases bytes.len(),
{
    if bytes.len() == 0 {
        Seq::empty()
    } else if bytes[0] == 0x25 && bytes.len() > 2 && hex_pair(bytes[1], bytes[2]) is Some {
        seq![hex_pair(bytes[1], bytes[2])->0] + decoded_bytes(bytes.skip(3))
    } else {
        seq![bytes[0]] + decoded_bytes(bytes.skip(1))
    }
}

/// The text that an encoded one stands for.
pub open spec fn url_decoded(text: Seq<char>) -> Seq<char> {
    text_of_bytes(decoded_bytes(encode_utf8(text)))
}

/// The hexadecimal digit of a number below sixteen, in upper case.
fn hex_digit_char(n: u8) -> (digit: char)
    requires
        n < 16,
    ensures
        digit == hex_digit(n),
{
    if n < 10 {
        (48 + n) as char
    } else {
        (55 + n) as char
    }
}

/// Encodes a text as one component of a URL.
pub fn url_encode_component(value: &str) -> (encoded: String)
    ensures
        encoded@ == url_encoded(value@),
{
    let bytes = value.as_bytes();
    let mut encoded = String::new();
    let mut i: usize = 0;
    assert(bytes@.skip(0) =~= bytes@);
    assert(encoded@ + encoded_bytes(bytes@) =~= encoded_bytes(bytes@));
    while i < bytes.len()
        invariant
            i <= bytes.len(),
            encoded_bytes(bytes@) == encoded@ + encoded_bytes(bytes@.skip(i as int)),
        decreases bytes.len() - i,
    {
        let byte: u8 = bytes[i];
        let ghost before = encoded@;
        assert(bytes@.skip(i as int).drop_first() =~= bytes@.skip(i + 1));
        if (byte >= 48 && byte <= 57) || (byte >= 65 && byte <= 90) || (byte >= 97 && byte <= 122)
            || byte == 45 || byte == 95 || byte == 46 || byte == 126 {
            encoded.push(byte as char);
        } else {
            encoded.push('%');
            encoded.push(hex_digit_char(byte / 16));
            encoded.push(hex_digit_char(byte % 16));
        }
        assert(encoded@ =~= before + encoded_byte(byte));
        assert(before + (encoded_byte(byte) + encoded_bytes(bytes@.skip(i + 1))) =~= encoded@
            + encoded_bytes(bytes@.skip(i + 1)));
        i = i + 1;
    }
    assert(encoded@ + Seq::<char>::empty() =~= encoded@);
    encoded
}

/// The number of a hexadecimal digit in either case.
fn read_hex(byte: u8) -> (value: Option<u8>)
    ensures
        value == hex_value(byte),
        value matches Some(n) ==> n < 16,
{
    if byte >= 48 && byte <= 57 {
        Some(byte - 48)
    } else if byte >= 65 && byte <= 70 {
        Some(byte - 55)
    } else if byte >= 97 && byte <= 102 {
        Some(byte - 87)
    } else {
        None
    }
}

/// The number that two bytes stand for in hexadecimal.
fn read_hex_pair(first: u8, second: u8) -> (value: Option<u8>)
    ensures
        value == hex_pair(first, second),
{
    if first == 43 {
        return read_hex(second);
    }
    match (read_hex(first), read_hex(second)) {
        (Some(high), Some(low)) => Some(high * 16 + low),
        _ => None,
    }
}

/// Decodes one component of a URL.
pub fn url_decode_component(value: &str) -> (decoded: String)
    ensures
        decoded@ == url_decoded(value@),
{
    let bytes = value.as_bytes();
    let mut decoded: Vec<u8> = Vec::new();
    let mut i: usize = 0;
    assert(bytes@.skip(0) =~= bytes@);
    assert(decoded@ + decoded_bytes(bytes@) =~= decoded_bytes(bytes@));
    while i < bytes.len()
        invariant
            i <= bytes.len(),
            decoded_bytes(bytes@) == decoded@ + decoded_bytes(bytes@.skip(i as int)),
        decreases bytes.len() - i,
    {
        let ghost before = decoded@;
        let ghost rest = bytes@.skip(i as int);
        assert(rest.skip(1) =~= bytes@.skip(i + 1));
        if bytes[i] == 37 && bytes.len() - i > 2 {
            assert(rest.skip(3) =~= bytes@.skip(i + 3));
            if let Some(byte) = read_hex_pair(bytes[i + 1], bytes[i + 2]) {
                decoded.push(byte);
                assert(before + (seq![byte] + decoded_bytes(rest.skip(3))) =~= decoded@
                    + decoded_bytes(rest.skip(3)));
                i = i + 3;
                continue ;
            }
        }
        decoded.push(bytes[i]);
        assert(before + (seq![bytes@[i as int]] + decoded_bytes(rest.skip(1))) =~= decoded@
            + decoded_bytes(rest.skip(1)));
        i = i + 1;
    }
    assert(decoded@ + Seq::<u8>::empty() =~= decoded@);
    decode_lossy(decoded.as_slice())
}

/// Whether a character may stand in an encoded text.
pub open spec fn is_encoded_char(c: char) -> bool {
    ||| '0' <= c <= '9'
    ||| 'A' <= c <= 'Z'
    ||| 'a' <= c <= 'z'
    ||| c == '-'
    ||| c == '_'
    ||| c == '.'
    ||| c == '~'
    ||| c == '%'
}

proof fn lemma_encoded_byte(byte: u8)
    ensures
        forall|i: int|
            0 <= i < encoded_byte(byte).len() ==> is_encoded_char(#[trigger] encoded_byte(byte)[i]),
{
    if !is_unreserved(byte) {
        assert(byte / 16 < 16 && byte % 16 < 16);
    }
}

proof fn lemma_encoded_bytes(bytes: Seq<u8>)
    ensures
        forall|i: int|
            0 <= i < encoded_bytes(bytes).len() ==> is_encoded_char(
                #[trigger] encoded_bytes(bytes)[i],
            ),
    decreases bytes.len(),
{
    if bytes.len() > 0 {
        lemma_encoded_byte(bytes[0]);
        lemma_encoded_bytes(bytes.drop_first());
        let head = encoded_byte(bytes[0]);
        let tail = encoded_bytes(bytes.drop_first());
        assert forall|i: int| 0 <= i < (head + tail).len() implies is_encoded_char(
            #[trigger] (head + tail)[i],
        ) by {
            if i < head.len() {
                assert((head + tail)[i] == head[i]);
            } else {
                assert((head + tail)[i] == tail[i - head.len()]);
            }
        }
    }
}

/// An encoded text holds nothing but ASCII letters and digits, `-`, `_`, `.`,
/// `~` and percent signs.
pub proof fn encoded_text_is_plain(text: Seq<char>)
    ensures
        forall|i: int|
            0 <= i < url_encoded(text).len() ==> is_encoded_char(#[trigger] url_encoded(text)[i]),
{
    lemma_encoded_bytes(encode_utf8(text));
}

/// The bytes of a text of ASCII characters.
pub open spec fn ascii_bytes(text: Seq<char>) -> Seq<u8> {
    Seq::new(text.len(), |i: int| text[i] as u8)
}

proof fn lemma_byte_is_read_back(byte: u8, rest: Seq<char>)
    ensures
        decoded_bytes(ascii_bytes(encoded_byte(byte) + rest)) == seq![byte] + decoded_bytes(
            ascii_bytes(rest),
        ),
{
    let whole = ascii_bytes(encoded_byte(byte) + rest);
    if is_unreserved(byte) {
        assert(whole.skip(1) =~= ascii_bytes(rest));
        assert(whole[0] == byte);
    } else {
        assert(whole.skip(3) =~= ascii_bytes(rest));
        assert(whole[0] == 0x25);
        let high = byte / 16;
        let low = byte % 16;
        assert(high < 16 && low < 16 && byte == high * 16 + low);
        assert(whole[1] == hex_digit(high) as u8);
        assert(whole[2] == hex_digit(low) as u8);
        assert(hex_value(whole[1]) == Some(high));
        assert(hex_value(whole[2]) == Some(low));
    }
}

proof fn lemma_bytes_are_read_back(bytes: Seq<u8>)
    ensures
        decoded_bytes(ascii_bytes(encoded_bytes(bytes))) == bytes,
    decreases bytes.len(),
{
    if bytes.len() == 0 {
        assert(ascii_bytes(encoded_bytes(bytes)) =~= Seq::empty());
    } else {
        lemma_bytes_are_read_back(bytes.drop_first());
        lemma_byte_is_read_back(bytes[0], encoded_bytes(bytes.drop_first()));
        assert(seq![bytes[0]] + bytes.drop_first() =~= bytes);
    }
}

/// What was encoded is decoded to itself.
pub proof fn encoding_is_undone(text: Seq<char>)
    ensures
        url_decoded(url_encoded(text)) == text,
{
    let bytes = encode_utf8(text);
    let encoded = url_encoded(text);
    encoded_text_is_plain(text);
    assert(is_ascii_chars(encoded)) by {
        assert forall|i: int| 0 <= i < encoded.len() implies '\0' <= #[trigger] encoded[i]
            <= '\u{7f}' by {
            assert(is_encoded_char(encoded[i]));
        }
    }
    is_ascii_chars_encode_utf8(encoded);
    assert(encode_utf8(encoded) =~= ascii_bytes(encoded));
    lemma_bytes_are_read_back(bytes);
    encoding_is_decoded(text);
}

/// Whether a character is an ASCII letter or digit, `-`, `_`, `.` or `~`.
pub open spec fn stands_for_itself(c: char) -> bool {
    ||| 'a' <= c <= 'z'
    ||| 'A' <= c <= 'Z'
    ||| '0' <= c <= '9'
    ||| c == '-'
    ||| c == '_'
    ||| c == '.'
    ||| c == '~'
}

proof fn lemma_plain_bytes(bytes: Seq<u8>)
    requires
        forall|i: int| 0 <= i < bytes.len() ==> stands_for_itself(#[trigger] bytes[i] as char),
    ensures
        encoded_bytes(bytes) == bytes.map_values(|byte: u8| byte as char),
    decreases bytes.len(),
{
    if bytes.len() == 0 {
        assert(encoded_bytes(bytes) =~= bytes.map_values(|byte: u8| byte as char));
    } else {
        let rest = bytes.drop_first();
        assert forall|i: int| 0 <= i < rest.len() implies stands_for_itself(
            #[trigger] rest[i] as char,
        ) by {
            assert(rest[i] == bytes[i + 1]);
        }
        lemma_plain_bytes(rest);
        assert(stands_for_itself(bytes[0] as char));
        assert(encoded_bytes(bytes) =~= bytes.map_values(|byte: u8| byte as char));
    }
}

/// A text of ASCII letters and digits, `-`, `_`, `.` and `~` is encoded as it is.
pub proof fn plain_texts_are_encoded_as_they_are(text: Seq<char>)
    requires
        forall|i: int| 0 <= i < text.len() ==> stands_for_itself(#[trigger] text[i]),
    ensures
        url_encoded(text) == text,
{
    assert(is_ascii_chars(text)) by {
        assert forall|i: int| 0 <= i < text.len() implies '\0' <= #[trigger] text[i]
            <= '\u{7f}' by {
            assert(stands_for_itself(text[i]));
        }
    }
    is_ascii_chars_encode_utf8(text);
    let bytes = encode_utf8(text);
    assert forall|i: int| 0 <= i < bytes.len() implies stands_for_itself(
        #[trigger] bytes[i] as char,
    ) by {
        assert(stands_for_itself(text[i]));
        assert(text[i] as u8 == bytes[i]);
    }
    lemma_plain_bytes(bytes);
    assert(url_encoded(text) =~= text) by {
        assert forall|i: int| 0 <= i < text.len() implies bytes[i] as char == text[i] by {
            assert(stands_for_itself(text[i]));
        }
    }
}

/// The upper-case hexadecimal digit of a number.
pub open spec fn upper_digit(digit: char, n: int) -> bool {
    if n < 10 {
        digit as int == '0' as int + n
    } else {
        digit as int == 'A' as int + (n - 10)
    }
}

/// Every other byte is encoded as a percent sign and its two digits in upper-case
/// hexadecimal, the higher one first.
pub proof fn other_bytes_are_encoded_in_hexadecimal(byte: u8)
    requires
        byte >= 128 || !stands_for_itself(byte as char),
    ensures
        ({
            let code = encoded_byte(byte);
            &&& code.len() == 3
            &&& code[0] == '%'
            &&& upper_digit(code[1], byte as int / 16)
            &&& upper_digit(code[2], byte as int % 16)
        }),
{
}

/// The bytes of a text are encoded one after the other.
pub proof fn bytes_are_encoded_in_turn(a: Seq<u8>, b: Seq<u8>)
    ensures
        encoded_bytes(a + b) == encoded_bytes(a) + encoded_bytes(b),
    decreases a.len(),
{
    if a.len() == 0 {
        assert(a + b =~= b);
        assert(encoded_bytes(a) + encoded_bytes(b) =~= encoded_bytes(b));
    } else {
        bytes_are_encoded_in_turn(a.drop_first(), b);
        assert((a + b).drop_first() =~= a.drop_first() + b);
        assert(encoded_bytes(a + b) =~= encoded_bytes(a) + encoded_bytes(b));
    }
}

/// A percent sign and two hexadecimal digits in either case are decoded to the
/// byte that they stand for.
pub proof fn hexadecimal_is_decoded_in_either_case(
    high: u8,
    low: u8,
    upper: bool,
    rest: Seq<u8>,
)
    requires
        high < 16,
        low < 16,
    ensures
        ({
            let letter: int = if upper {
                0x41
            } else {
                0x61
            };
            let first = (if high < 10 {
                0x30 + high
            } else {
                letter + high - 10
            }) as u8;
            let second = (if low < 10 {
                0x30 + low
            } else {
                letter + low - 10
            }) as u8;
            decoded_bytes(seq![0x25u8, first, second] + rest) == seq![(16 * high + low) as u8]
                + decoded_bytes(rest)
        }),
{
    let letter: int = if upper {
        0x41
    } else {
        0x61
    };
    let first = (if high < 10 {
        0x30 + high
    } else {
        letter + high - 10
    }) as u8;
    let second = (if low < 10 {
        0x30 + low
    } else {
        letter + low - 10
    }) as u8;
    let all = seq![0x25u8, first, second] + rest;
    assert(all.skip(3) =~= rest);
    assert(all[0] == 0x25 && all[1] == first && all[2] == second);
}

proof fn lemma_other_bytes_stay(bytes: Seq<u8>)
    requires
        !bytes.contains(0x25),
    ensures
        decoded_bytes(bytes) == bytes,
    decreases bytes.len(),
{
    if bytes.len() > 0 {
        let rest = bytes.skip(1);
        assert(bytes.contains(bytes[0]));
        assert forall|i: int| 0 <= i < rest.len() implies rest[i] != 0x25 by {
            assert(bytes.contains(bytes[i + 1]));
        }
        lemma_other_bytes_stay(rest);
        assert(seq![bytes[0]] + rest =~= bytes);
    } else {
        assert(decoded_bytes(bytes) =~= bytes);
    }
}

/// A text in ASCII without a percent sign is decoded to itself; a plus sign among
/// it stays one.
pub proof fn texts_without_percent_signs_stay(text: Seq<char>)
    requires
        forall|i: int| 0 <= i < text.len() ==> '\0' <= #[trigger] text[i] <= '\u{7f}',
        !text.contains('%'),
    ensures
        url_decoded(text) == text,
{
    assert(is_ascii_chars(text));
    is_ascii_chars_encode_utf8(text);
    let bytes = encode_utf8(text);
    assert forall|i: int| 0 <= i < bytes.len() implies bytes[i] != 0x25 by {
        assert(text.contains(text[i]));
        assert(text[i] as u8 == bytes[i]);
    }
    lemma_other_bytes_stay(bytes);
    encoding_is_decoded(text);
}

} // verus!
