//! Hexadecimal text: what an encoding of bytes looks like, and which texts decode.

use vstd::prelude::*;

verus! {

/// The lower-case hexadecimal digit for a value below sixteen.
pub open spec fn hex_digit(n: int) -> char {
    if n == 0 {
        '0'
    } else if n == 1 {
        '1'
    } else if n == 2 {
        '2'
    } else if n == 3 {
        '3'
    } else if n == 4 {
        '4'
    } else if n == 5 {
        '5'
    } else if n == 6 {
        '6'
    } else if n == 7 {
        '7'
    } else if n == 8 {
        '8'
    } else if n == 9 {
        '9'
    } else if n == 10 {
        'a'
    } else if n == 11 {
        'b'
    } else if n == 12 {
        'c'
    } else if n == 13 {
        'd'
    } else if n == 14 {
        'e'
    } else {
        'f'
    }
}

/// The lower-case hexadecimal text of `data`: two digits per byte, high nibble first.
pub open spec fn spec_hex_encode(data: Seq<u8>) -> Seq<char> {
    Seq::new(
        2 * data.len(),
        |i: int|
            if i % 2 == 0 {
                hex_digit(data[i / 2] as int / 16)
            } else {
                hex_digit(data[i / 2] as int % 16)
            },
    )
}

/// The value of one hexadecimal digit given as an ASCII byte, in either case.
pub open spec fn hex_value(c: u8) -> Option<int> {
    if 0x30 <= c <= 0x39 {
        Some(c - 0x30)
    } else if 0x61 <= c <= 0x66 {
        Some(c - 0x61 + 10)
    } else if 0x41 <= c <= 0x46 {
        Some(c - 0x41 + 10)
    } else {
        None
    }
}

/// Every byte of `text` is a hexadecimal digit.
pub open spec fn all_hex_digits(text: Seq<u8>) -> bool {
    forall|i: int| 0 <= i < text.len() ==> (#[trigger] hex_value(text[i])) is Some
}

/// `text` is an even number of hexadecimal digits.
pub open spec fn is_hex_text(text: Seq<u8>) -> bool {
    text.len() % 2 == 0 && all_hex_digits(text)
}

/// `index` is the place of the first byte of `text` that is no hexadecimal digit.
pub open spec fn first_bad_digit(text: Seq<u8>, index: int) -> bool {
    &&& 0 <= index < text.len()
    &&& hex_value(text[index]) is None
    &&& forall|j: int| 0 <= j < index ==> (#[trigger] hex_value(text[j])) is Some
}

/// The bytes that hexadecimal `text` stands for, two digits per byte.
pub open spec fn spec_hex_decode(text: Seq<u8>) -> Seq<u8> {
    Seq::new(
        text.len() / 2,
        |i: int| (hex_value(text[2 * i]).unwrap() * 16 + hex_value(text[2 * i + 1]).unwrap()) as u8,
    )
}

/// Why a text is not the hexadecimal form of any byte string.
#[derive(Clone, Copy, Debug, PartialEq, Eq, Structural)]
pub enum HexError {
    /// A byte that is no hexadecimal digit, with its position.
    InvalidHexCharacter { c: char, index: usize },
    /// An odd number of digits.
    OddLength,
    /// The text does not fill a container of fixed size.
    InvalidStringLength,
}

/// What decoding `text` gives: the bytes, or the reason there are none.
pub open spec fn hex_decode_outcome(text: Seq<u8>, r: Result<Vec<u8>, HexError>) -> bool {
    match r {
        Ok(bytes) => is_hex_text(text) && bytes@ == spec_hex_decode(text),
        Err(HexError::OddLength) => text.len() % 2 == 1,
        Err(HexError::InvalidHexCharacter { c, index }) => {
            &&& text.len() % 2 == 0
            &&& first_bad_digit(text, index as int)
            &&& c == text[index as int] as char
        },
        Err(HexError::InvalidStringLength) => false,
    }
}

/// Calls `hex::encode`, which writes each byte as two lower-case hexadecimal
/// digits, the high nibble first.
#[verifier::external_body]
pub(crate) fn hex_encode(data: &[u8]) -> (text: String)
    ensures
        text@ == spec_hex_encode(data@),
{
    hex::encode(data)
}

/// Calls `hex::decode`, which refuses a text of odd length, then reports the
/// first byte that is no hexadecimal digit, and otherwise joins each pair of
/// digits into one byte.
#[verifier::external_body]
pub(crate) fn hex_decode(text: &[u8]) -> (r: Result<Vec<u8>, HexError>)
    ensures
        hex_decode_outcome(text@, r),
{
    match hex::decode(text) {
        Ok(bytes) => Ok(bytes),
        Err(hex::FromHexError::InvalidHexCharacter { c, index }) => Err(
            HexError::InvalidHexCharacter { c, index },
        ),
        Err(hex::FromHexError::OddLength) => Err(HexError::OddLength),
        Err(hex::FromHexError::InvalidStringLength) => Err(HexError::InvalidStringLength),
    }
}

/// The hexadecimal text of `data` has two characters for each byte.
pub proof fn lemma_hex_encode_len(data: Seq<u8>)
    ensures
        spec_hex_encode(data).len() == 2 * data.len(),
{
}

} // verus!
