//! Hexadecimal text of byte strings, through the `hex` crate.

use vstd::prelude::*;
use vstd::utf8::*;
use crate::text::{decimal, push_decimal};

verus! {

/// The lowercase hex digit of a value below 16.
pub open spec fn hex_digit(v: nat) -> char
    recommends
        v < 16,
{
    if v < 10 {
        (48 + v) as char
    } else {
        (87 + v) as char
    }
}

/// Lowercase hex text of `bytes`: two digits per byte, high nibble first.
pub open spec fn hex_text(bytes: Seq<u8>) -> Seq<char> {
    Seq::new(
        2 * bytes.len(),
        |i: int|
            if i % 2 == 0 {
                hex_digit((bytes[i / 2] / 16) as nat)
            } else {
                hex_digit((bytes[i / 2] % 16) as nat)
            },
    )
}

/// The value of one hex digit byte, in either case.
pub open spec fn hex_value(c: u8) -> Option<u8> {
    if 48 <= c <= 57 {
        Some((c - 48) as u8)
    } else if 97 <= c <= 102 {
        Some((c - 87) as u8)
    } else if 65 <= c <= 70 {
        Some((c - 55) as u8)
    } else {
        None
    }
}

/// Whether every byte of `text` is a hex digit.
pub open spec fn all_hex_digits(text: Seq<u8>) -> bool {
    forall|i: int| 0 <= i < text.len() ==> (#[trigger] hex_value(text[i])) is Some
}

/// The bytes that an even-length run of hex digits denotes.
pub open spec fn hex_bytes(text: Seq<u8>) -> Seq<u8> {
    Seq::new(
        text.len() / 2,
        |i: int| (hex_value(text[2 * i]).unwrap() * 16 + hex_value(text[2 * i + 1]).unwrap()) as u8,
    )
}

/// Why a hex text could not be decoded.
#[derive(Clone, Copy, Debug, PartialEq, Eq)]
pub enum HexError {
    InvalidHexCharacter { c: char, index: usize },
    OddLength,
    InvalidStringLength,
}

/// What `hex::decode` returns on the bytes `text`: the decoded bytes when the
/// length is even and every byte is a hex digit; otherwise `OddLength` for an odd
/// length, or else the first byte that is not a hex digit.
pub open spec fn hex_decode_result(text: Seq<u8>, r: Result<Seq<u8>, HexError>) -> bool {
    &&& (r is Ok) <==> (text.len() % 2 == 0 && all_hex_digits(text))
    &&& r matches Ok(v) ==> v == hex_bytes(text)
    &&& (r == Err::<Seq<u8>, HexError>(HexError::OddLength)) <==> text.len() % 2 == 1
    &&& r matches Err(HexError::InvalidHexCharacter { c, index }) ==> {
        &&& text.len() % 2 == 0
        &&& index < text.len()
        &&& hex_value(text[index as int]) is None
        &&& c == text[index as int] as char
        &&& forall|j: int| 0 <= j < index ==> (#[trigger] hex_value(text[j])) is Some
    }
    &&& r != Err::<Seq<u8>, HexError>(HexError::InvalidStringLength)
}

/// `hex::encode`: the lowercase hex text of `data`.
#[verifier::external_body]
pub fn hex_encode(data: &[u8]) -> (res: String)
    ensures
        res@ == hex_text(data@),
{
    hex::encode(data)
}

pub open spec fn view_hex_result(r: Result<Vec<u8>, HexError>) -> Result<Seq<u8>, HexError> {
    match r {
        Ok(v) => Ok(v@),
        Err(e) => Err(e),
    }
}

/// `hex::decode` on the UTF-8 bytes of `text`: even length and hex digits of
/// either case give the bytes; otherwise the error that `hex::decode` reports
/// (odd length first, else the first byte that is no hex digit).
#[verifier::external_body]
pub fn hex_decode(text: &str) -> (res: Result<Vec<u8>, HexError>)
    ensures
        hex_decode_result(encode_utf8(text@), view_hex_result(res)),
{
    match hex::decode(text) {
        Ok(v) => Ok(v),
        Err(hex::FromHexError::InvalidHexCharacter { c, index }) => Err(
            HexError::InvalidHexCharacter { c, index },
        ),
        Err(hex::FromHexError::OddLength) => Err(HexError::OddLength),
        Err(hex::FromHexError::InvalidStringLength) => Err(HexError::InvalidStringLength),
    }
}

/// What `{:?}` prints for a character.
pub uninterp spec fn spec_char_debug(c: char) -> Seq<char>;

/// The `Debug` text of a character (`format!("{:?}", c)`), named by
/// `spec_char_debug`.
#[verifier::external_body]
pub fn char_debug(c: char) -> (res: String)
    ensures
        res@ == spec_char_debug(c),
{
    format!("{:?}", c)
}

/// The text that the `Display` impl of `hex::FromHexError` writes.
pub open spec fn hex_error_text(e: HexError) -> Seq<char> {
    match e {
        HexError::InvalidHexCharacter { c, index } => "Invalid character "@ + spec_char_debug(c)
            + " at position "@ + decimal(index as nat),
        HexError::OddLength => "Odd number of digits"@,
        HexError::InvalidStringLength => "Invalid string length"@,
    }
}

impl HexError {
    /// The message of this error, as the `hex` crate displays it.
    pub fn message(&self) -> (res: String)
        ensures
            res@ == hex_error_text(*self),
    {
        match self {
            HexError::InvalidHexCharacter { c, index } => {
                let mut out = String::from_str("Invalid character ");
                let d = char_debug(*c);
                out.append(d.as_str());
                out.append(" at position ");
                push_decimal(&mut out, *index as u64);
                out
            },
            HexError::OddLength => String::from_str("Odd number of digits"),
            HexError::InvalidStringLength => String::from_str("Invalid string length"),
        }
    }
}

/// The hex text of any bytes is ASCII, so its UTF-8 bytes are its characters.
pub proof fn lemma_hex_text_bytes(bytes: Seq<u8>)
    ensures
        encode_utf8(hex_text(bytes)).len() == 2 * bytes.len(),
        forall|i: int|
            0 <= i < 2 * bytes.len() ==> #[trigger] encode_utf8(hex_text(bytes))[i]
                == hex_text(bytes)[i] as u8,
{
    let t = hex_text(bytes);
    assert forall|i: int| 0 <= i < t.len() implies '\0' <= #[trigger] t[i] <= '\u{7f}' by {
        let b = bytes[i / 2];
        assert(b / 16 < 16 && b % 16 < 16);
    }
    assert(is_ascii_chars(t));
    is_ascii_chars_encode_utf8(t);
}

/// Decoding the hex text of `bytes` gives back `bytes`.
pub proof fn lemma_hex_roundtrip(bytes: Seq<u8>)
    ensures
        encode_utf8(hex_text(bytes)).len() % 2 == 0,
        all_hex_digits(encode_utf8(hex_text(bytes))),
        hex_bytes(encode_utf8(hex_text(bytes))) == bytes,
{
    lemma_hex_text_bytes(bytes);
    let t = encode_utf8(hex_text(bytes));
    assert forall|i: int| 0 <= i < t.len() implies (#[trigger] hex_value(t[i])) is Some by {
        let b = bytes[i / 2];
        assert(b / 16 < 16 && b % 16 < 16);
    }
    assert forall|k: int| 0 <= k < bytes.len() implies #[trigger] hex_bytes(t)[k] == bytes[k] by {
        let b = bytes[k];
        assert((2 * k) / 2 == k);
        assert((2 * k + 1) / 2 == k);
        assert((2 * k) % 2 == 0);
        assert((2 * k + 1) % 2 == 1);
        assert(t[2 * k] == hex_digit((b / 16) as nat) as u8);
        assert(t[2 * k + 1] == hex_digit((b % 16) as nat) as u8);
        assert(hex_value(t[2 * k]) == Some((b / 16) as u8));
        assert(hex_value(t[2 * k + 1]) == Some((b % 16) as u8));
        assert((b / 16) * 16 + b % 16 == b);
    }
    assert(hex_bytes(t) =~= bytes);
}

} // verus!
