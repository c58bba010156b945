//! Hexadecimal text: what the encoding of a byte string is, which texts
//! decode, and the calls into the `hex` crate that produce both.

use vstd::prelude::*;

verus! {

/// The lowercase hexadecimal digit for a value below sixteen.
pub open spec fn hex_digit(n: int) -> char {
    if n == 0 {
        '0'
    } else if n == 1 {
        '1'
    } else if n == 2 {
        '2'
    } else if n == 3 {
        '3'
    } else if n == 4 {
        '4'
    } else if n == 5 {
        '5'
    } else if n == 6 {
        '6'
    } else if n == 7 {
        '7'
    } else if n == 8 {
        '8'
    } else if n == 9 {
        '9'
    } else if n == 10 {
        'a'
    } else if n == 11 {
        'b'
    } else if n == 12 {
        'c'
    } else if n == 13 {
        'd'
    } else if n == 14 {
        'e'
    } else {
        'f'
    }
}

/// The value of a hexadecimal digit of either case; `None` for any other
/// character.
pub open spec fn hex_value(c: char) -> Option<int> {
    if c == '0' {
        Some(0)
    } else if c == '1' {
        Some(1)
    } else if c == '2' {
        Some(2)
    } else if c == '3' {
        Some(3)
    } else if c == '4' {
        Some(4)
    } else if c == '5' {
        Some(5)
    } else if c == '6' {
        Some(6)
    } else if c == '7' {
        Some(7)
    } else if c == '8' {
        Some(8)
    } else if c == '9' {
        Some(9)
    } else if c == 'a' || c == 'A' {
        Some(10)
    } else if c == 'b' || c == 'B' {
        Some(11)
    } else if c == 'c' || c == 'C' {
        Some(12)
    } else if c == 'd' || c == 'D' {
        Some(13)
    } else if c == 'e' || c == 'E' {
        Some(14)
    } else if c == 'f' || c == 'F' {
        Some(15)
    } else {
        None
    }
}

/// The lowercase hexadecimal text of `bytes`: two digits per byte, the high
/// half first.
pub open spec fn hex_encoding(bytes: Seq<u8>) -> Seq<char> {
    Seq::new(
        2 * bytes.len(),
        |i: int|
            if i % 2 == 0 {
                hex_digit(bytes[i / 2] as int / 16)
            } else {
                hex_digit(bytes[i / 2] as int % 16)
            },
    )
}

/// A text decodes when its length is even and every character is a
/// hexadecimal digit.
pub open spec fn is_hex_text(text: Seq<char>) -> bool {
    &&& text.len() % 2 == 0
    &&& forall|i: int| 0 <= i < text.len() ==> (#[trigger] hex_value(text[i])) is Some
}

/// The bytes that a hexadecimal text stands for.
pub open spec fn hex_decoding(text: Seq<char>) -> Seq<u8> {
    Seq::new(
        text.len() / 2,
        |i: int| (hex_value(text[2 * i])->0 * 16 + hex_value(text[2 * i + 1])->0) as u8,
    )
}

/// Decoding undoes encoding: the text of any byte string decodes, and to
/// that byte string.
pub proof fn lemma_hex_round_trip(bytes: Seq<u8>)
    ensures
        hex_encoding(bytes).len() == 2 * bytes.len(),
        is_hex_text(hex_encoding(bytes)),
        hex_decoding(hex_encoding(bytes)) == bytes,
{
    let text = hex_encoding(bytes);
    assert forall|i: int| 0 <= i < text.len() implies (#[trigger] hex_value(text[i])) is Some by {
        let b = bytes[i / 2] as int;
        assert(0 <= b / 16 < 16 && 0 <= b % 16 < 16);
    }
    assert forall|i: int| 0 <= i < bytes.len() implies hex_decoding(text)[i] == bytes[i] by {
        let b = bytes[i] as int;
        assert((2 * i) / 2 == i && (2 * i) % 2 == 0);
        assert((2 * i + 1) / 2 == i && (2 * i + 1) % 2 == 1);
        assert(0 <= b / 16 < 16 && 0 <= b % 16 < 16);
        assert(hex_value(hex_digit(b / 16)) == Some(b / 16));
        assert(hex_value(hex_digit(b % 16)) == Some(b % 16));
        assert((b / 16) * 16 + b % 16 == b);
    }
    assert(hex_decoding(text) =~= bytes);
}

/// Every character of an encoding is ASCII, so the text takes one byte per
/// character.
pub proof fn lemma_hex_encoding_is_ascii(bytes: Seq<u8>)
    ensures
        vstd::utf8::is_ascii_chars(hex_encoding(bytes)),
        vstd::utf8::encode_utf8(hex_encoding(bytes)).len() == 2 * bytes.len(),
{
    let text = hex_encoding(bytes);
    assert forall|i: int| 0 <= i < text.len() implies '\0' <= #[trigger] text[i] <= '\u{7f}' by {
        let b = bytes[i / 2] as int;
        assert(0 <= b / 16 < 16 && 0 <= b % 16 < 16);
    }
    vstd::utf8::is_ascii_chars_encode_utf8(text);
}

#[verifier::external_type_specification]
#[verifier::external_body]
pub struct ExFromHexError(hex::FromHexError);

/// `hex::encode` writes each byte as two lowercase hexadecimal digits, the
/// high half first, and nothing else.
#[verifier::external_body]
pub(crate) fn encode_hex(bytes: &[u8]) -> (r: String)
    ensures
        r@ == hex_encoding(bytes@),
{
    hex::encode(bytes)
}

/// `hex::decode` accepts exactly the texts of even length made of
/// hexadecimal digits of either case, and returns the bytes they stand for;
/// on any other text it returns its error.
#[verifier::external_body]
pub(crate) fn decode_hex(text: &str) -> (r: Result<Vec<u8>, hex::FromHexError>)
    ensures
        match r {
            Ok(bytes) => is_hex_text(text@) && bytes@ == hex_decoding(text@),
            Err(_) => !is_hex_text(text@),
        },
{
    hex::decode(text)
}

/// The message that `hex::FromHexError` prints for itself.
#[verifier::external_body]
pub(crate) fn hex_error_message(error: &hex::FromHexError) -> (r: String)
{
    error.to_string()
}

/// The lowercase hexadecimal text of `bytes`.
pub fn hex_encode(bytes: &[u8]) -> (r: String)
    ensures
        r@ == hex_encoding(bytes@),
{
    encode_hex(bytes)
}

/// The bytes that `text` stands for; `None` where `text` is not
/// hexadecimal text of even length.
pub fn hex_decode(text: &str) -> (r: Option<Vec<u8>>)
    ensures
        match r {
            Some(bytes) => is_hex_text(text@) && bytes@ == hex_decoding(text@),
            None => !is_hex_text(text@),
        },
{
    match decode_hex(text) {
        Ok(bytes) => Some(bytes),
        Err(_) => None,
    }
}

} // verus!
