use knockd_client::text::{replace_all, starts_with};
use knockd_client::hexcodec::{hex_decode, hex_encode, HexError};
use knockd_client::text::{
    concat2, concat3, contains, i64_to_decimal, str_eq, string_from_utf8, to_lowercase, u64_to_decimal,
};

#[test]
fn decimal_rendering_of_unsigned_numbers() {
    assert_eq!(u64_to_decimal(0), "0");
    assert_eq!(u64_to_decimal(7), "7");
    assert_eq!(u64_to_decimal(1234), "1234");
    assert_eq!(u64_to_decimal(u64::MAX), "18446744073709551615");
}

#[test]
fn decimal_rendering_of_signed_numbers() {
    assert_eq!(i64_to_decimal(-42), "-42");
    assert_eq!(i64_to_decimal(0), "0");
    assert_eq!(i64_to_decimal(1700000000), "1700000000");
    assert_eq!(i64_to_decimal(i64::MIN), "-9223372036854775808");
}

#[test]
fn string_helpers() {
    assert_eq!(concat2("ab", "cd"), "abcd");
    assert_eq!(concat3("a", " | ", "b"), "a | b");
    assert!(str_eq("udp", "udp"));
    assert!(!str_eq("udp", "ud"));
    assert!(!str_eq("udp", "tcp"));
    assert!(contains("c:/tools/putty.exe", "putty"));
    assert!(contains("abc", ""));
    assert!(!contains("kit", "kitty"));
    assert_eq!(to_lowercase("UdP"), "udp");
}

#[test]
fn utf8_decoding() {
    assert_eq!(string_from_utf8(vec![104, 105]), Ok("hi".to_string()));
    let err = string_from_utf8(vec![0xff]).unwrap_err();
    assert_eq!(err, String::from_utf8(vec![0xff]).unwrap_err().to_string());
}

#[test]
fn hex_encoding_is_lowercase_two_digits_per_byte() {
    assert_eq!(hex_encode(&[0xde, 0xad, 0x00, 0x0f]), "dead000f");
    assert_eq!(hex_encode(&[]), "");
}

#[test]
fn hex_decoding_accepts_both_cases() {
    assert_eq!(hex_decode("DEad000F"), Ok(vec![0xde, 0xad, 0x00, 0x0f]));
    assert_eq!(hex_decode(""), Ok(vec![]));
}

#[test]
fn hex_decoding_errors() {
    assert_eq!(hex_decode("abc"), Err(HexError::OddLength));
    assert_eq!(hex_decode("0g"), Err(HexError::InvalidHexCharacter { c: 'g', index: 1 }));
    assert_eq!(hex_decode("zz"), Err(HexError::InvalidHexCharacter { c: 'z', index: 0 }));
}

#[test]
fn hex_error_messages() {
    assert_eq!(HexError::OddLength.message(), "Odd number of digits");
    assert_eq!(HexError::InvalidStringLength.message(), "Invalid string length");
    assert_eq!(
        HexError::InvalidHexCharacter { c: 'z', index: 4 }.message(),
        "Invalid character 'z' at position 4"
    );
    assert_eq!(
        HexError::InvalidHexCharacter { c: '\n', index: 5 }.message(),
        "Invalid character '\\n' at position 5"
    );
}

#[test]
fn hex_roundtrip_on_all_byte_values() {
    let bytes: Vec<u8> = (0..=255u8).collect();
    let text = hex_encode(&bytes);
    assert_eq!(text.len(), 512);
    assert_eq!(hex_decode(&text), Ok(bytes));
}

#[test]
fn replacing_and_prefixes() {
    assert_eq!(replace_all("%A%\\x\\%A%", "%A%", "C:"), "C:\\x\\C:");
    assert_eq!(replace_all("aaa", "aa", "b"), "ba");
    assert_eq!(replace_all("abc", "zz", "y"), "abc");
    assert_eq!(replace_all("aaa", "aa", "b"), "aaa".replace("aa", "b"));
    assert!(starts_with("chrome-extension://abc/", "chrome-extension://"));
    assert!(!starts_with("chrome", "chrome-extension://"));
}
