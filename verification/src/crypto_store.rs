//! Values stored at rest, sealed with AES-256-GCM under a key derived from the
//! device fingerprint, and kept as hex text (`iv || ciphertext`).

use vstd::prelude::*;
use vstd::utf8::*;
use crate::crypto::{
    aes_gcm_decrypt, aes_gcm_encrypt, aes_gcm_max_plain, draw_random, random_failure, sha256, spec_aes_gcm_open,
    spec_aes_gcm_seal, spec_sha256, AeadFailure,
};
use crate::hexcodec::{
    all_hex_digits, hex_bytes, hex_decode, hex_encode, hex_error_text, hex_text, hex_value,
    lemma_hex_roundtrip, HexError,
};
use crate::text::{concat2, spec_utf8_error_text, str_eq, string_from_utf8};

verus! {

broadcast use {encode_utf8_valid_utf8, encode_utf8_decode_utf8};

/// The text hashed into the device key: `"{fingerprint}|knockd-client-v1-master-key"`.
pub open spec fn device_key_material(fingerprint: Seq<char>) -> Seq<char> {
    fingerprint + "|knockd-client-v1-master-key"@
}

/// The AES-256 key of a device: the SHA-256 digest of its key material.
pub open spec fn device_key(fingerprint: Seq<char>) -> Seq<u8> {
    spec_sha256(encode_utf8(device_key_material(fingerprint)))
}

/// The database key of a device: hex of SHA-256 of `"{fingerprint}|knockd-sqlcipher-v1"`.
pub open spec fn db_key(fingerprint: Seq<char>) -> Seq<char> {
    hex_text(spec_sha256(encode_utf8(fingerprint + "|knockd-sqlcipher-v1"@)))
}

/// What `encrypt_value` gives for `plain` on the device `fingerprint` with the
/// 12-byte initialization vector `iv`.
pub open spec fn sealed_value(plain: Seq<char>, fingerprint: Seq<char>, iv: Seq<u8>) -> Result<Seq<char>, Seq<char>> {
    let bytes = encode_utf8(plain);
    if bytes.len() > aes_gcm_max_plain() {
        Err("encrypt: aead::Error"@)
    } else {
        Ok(hex_text(iv + spec_aes_gcm_seal(device_key(fingerprint), iv, bytes)))
    }
}

/// The error that `hex::decode` reports for bytes that are not an even run of hex digits.
pub open spec fn hex_failure(text: Seq<u8>) -> HexError {
    if text.len() % 2 == 1 {
        HexError::OddLength
    } else {
        let k = choose|k: int|
            0 <= k < text.len() && hex_value(text[k]) is None && forall|j: int|
                0 <= j < k ==> (#[trigger] hex_value(text[j])) is Some;
        HexError::InvalidHexCharacter { c: text[k] as char, index: k as usize }
    }
}

/// What `decrypt_value` gives for the stored text `stored` on the device `fingerprint`.
pub open spec fn opened_value(stored: Seq<char>, fingerprint: Seq<char>) -> Result<Seq<char>, Seq<char>> {
    let text = encode_utf8(stored);
    if !(text.len() % 2 == 0 && all_hex_digits(text)) {
        Err("hex: "@ + hex_error_text(hex_failure(text)))
    } else {
        let data = hex_bytes(text);
        if data.len() < 13 {
            Err("too short"@)
        } else {
            match spec_aes_gcm_open(device_key(fingerprint), data.subrange(0, 12), data.subrange(12, data.len() as int)) {
                None => Err("decrypt: aead::Error"@),
                Some(p) => if valid_utf8(p) {
                    Ok(decode_utf8(p))
                } else {
                    Err("utf8: "@ + spec_utf8_error_text(p))
                },
            }
        }
    }
}

pub open spec fn view_text_result(r: Result<String, String>) -> Result<Seq<char>, Seq<char>> {
    match r {
        Ok(s) => Ok(s@),
        Err(e) => Err(e@),
    }
}

/// The 32-byte AES key of the device with the given fingerprint.
pub fn derive_key(fingerprint: &str) -> (res: Vec<u8>)
    ensures
        res@ == device_key(fingerprint@),
        res@.len() == 32,
{
    let material = concat2(fingerprint, "|knockd-client-v1-master-key");
    sha256(material.as_str().as_bytes())
}

/// The hex key under which the connection database is opened.
pub fn derive_db_key(fingerprint: &str) -> (res: String)
    ensures
        res@ == db_key(fingerprint@),
        res@.len() == 64,
{
    let material = concat2(fingerprint, "|knockd-sqlcipher-v1");
    let digest = sha256(material.as_str().as_bytes());
    hex_encode(digest.as_slice())
}

/// Seals `plaintext` for this device with a fresh random initialization vector,
/// or reports that the random source failed.
pub fn encrypt_value(plaintext: &str, fingerprint: &str) -> (res: Result<String, String>)
    ensures
        encode_utf8(plaintext@).len() > aes_gcm_max_plain() ==> res is Err,
        res matches Err(e) ==> random_failure(e@) || (e@ == "encrypt: aead::Error"@ && encode_utf8(plaintext@).len()
            > aes_gcm_max_plain()),
        res matches Ok(h) ==> opened_value(h@, fingerprint@) == Ok::<Seq<char>, Seq<char>>(plaintext@),
        res matches Ok(h) ==> h@.len() == 2 * (12 + encode_utf8(plaintext@).len() + 16),
        res matches Ok(h) ==> exists|iv: Seq<u8>|
            iv.len() == 12 && #[trigger] sealed_value(plaintext@, fingerprint@, iv) == Ok::<Seq<char>, Seq<char>>(h@),
{
    let iv = match draw_random(12) {
        Ok(v) => v,
        Err(e) => return Err(e),
    };
    encrypt_value_with_iv(plaintext, fingerprint, iv.as_slice())
}

/// Seals `plaintext` for this device under the 12-byte initialization vector `iv`:
/// the hex text of `iv` followed by the AES-256-GCM ciphertext. Whatever it
/// returns, `decrypt_value` on the same device gives `plaintext` back.
pub fn encrypt_value_with_iv(plaintext: &str, fingerprint: &str, iv: &[u8]) -> (res: Result<String, String>)
    requires
        iv@.len() == 12,
    ensures
        view_text_result(res) == sealed_value(plaintext@, fingerprint@, iv@),
        res is Ok <==> encode_utf8(plaintext@).len() <= aes_gcm_max_plain(),
        res matches Ok(h) ==> opened_value(h@, fingerprint@) == Ok::<Seq<char>, Seq<char>>(plaintext@),
        res matches Ok(h) ==> h@.len() == 2 * (12 + encode_utf8(plaintext@).len() + 16),
{
    let key = derive_key(fingerprint);
    let bytes = plaintext.as_bytes();
    match aes_gcm_encrypt(key.as_slice(), iv, bytes) {
        Err(AeadFailure::KeyLength) => Err(String::from_str("AES")),
        Err(AeadFailure::Aead) => Err(String::from_str("encrypt: aead::Error")),
        Ok(sealed) => {
            let mut out: Vec<u8> = Vec::new();
            out.extend_from_slice(iv);
            out.extend_from_slice(sealed.as_slice());
            assert(bytes@ == encode_utf8(plaintext@));
            assert(out@ == iv@ + sealed@);
            let h = hex_encode(out.as_slice());
            assert(h@ == hex_text(iv@ + sealed@));
            proof {
                lemma_sealed_opens(plaintext@, fingerprint@, iv@, sealed@);
            }
            Ok(h)
        },
    }
}

/// Opening the hex text of `iv || sealed` gives `plain` back when `sealed` opens to
/// the UTF-8 bytes of `plain`.
proof fn lemma_sealed_opens(plain: Seq<char>, fingerprint: Seq<char>, iv: Seq<u8>, sealed: Seq<u8>)
    requires
        iv.len() == 12,
        sealed.len() == encode_utf8(plain).len() + 16,
        spec_aes_gcm_open(device_key(fingerprint), iv, sealed) == Some(encode_utf8(plain)),
    ensures
        opened_value(hex_text(iv + sealed), fingerprint) == Ok::<Seq<char>, Seq<char>>(plain),
{
    let data = iv + sealed;
    lemma_hex_roundtrip(data);
    let text = encode_utf8(hex_text(data));
    assert(hex_bytes(text) == data);
    assert(data.subrange(0, 12) =~= iv);
    assert(data.subrange(12, data.len() as int) =~= sealed);
}

/// Opens a value sealed by `encrypt_value` on this device.
pub fn decrypt_value(encrypted_hex: &str, fingerprint: &str) -> (res: Result<String, String>)
    ensures
        view_text_result(res) == opened_value(encrypted_hex@, fingerprint@),
{
    let key = derive_key(fingerprint);
    let data = match hex_decode(encrypted_hex) {
        Ok(d) => d,
        Err(e) => {
            let msg = e.message();
            proof {
                let text = encode_utf8(encrypted_hex@);
                if text.len() % 2 == 0 {
                    assert(e matches HexError::InvalidHexCharacter { .. });
                    let k = choose|k: int|
                        0 <= k < text.len() && hex_value(text[k]) is None && forall|j: int|
                            0 <= j < k ==> (#[trigger] hex_value(text[j])) is Some;
                    if let HexError::InvalidHexCharacter { c, index } = e {
                        if k < index {
                        } else if index < k {
                            assert(hex_value(text[index as int]) is Some);
                        }
                        assert(k == index);
                    }
                }
            }
            return Err(concat2("hex: ", msg.as_str()));
        },
    };
    if data.len() < 13 {
        return Err(String::from_str("too short"));
    }
    let iv = &data.as_slice()[0..12];
    let sealed = &data.as_slice()[12..data.len()];
    proof {
        assert(iv@ =~= data@.subrange(0, 12));
        assert(sealed@ =~= data@.subrange(12, data@.len() as int));
    }
    match aes_gcm_decrypt(key.as_slice(), iv, sealed) {
        Err(AeadFailure::KeyLength) => Err(String::from_str("AES")),
        Err(AeadFailure::Aead) => Err(String::from_str("decrypt: aead::Error")),
        Ok(plain) => match string_from_utf8(plain) {
            Ok(s) => Ok(s),
            Err(e) => Err(concat2("utf8: ", e.as_str())),
        },
    }
}

/// What `decrypt_ports` gives: empty text and `[]` as they are; otherwise the
/// opened value, or the stored text itself when it does not open.
pub open spec fn ports_text(raw: Seq<char>, fingerprint: Seq<char>) -> Seq<char> {
    if raw.len() == 0 || raw == "[]"@ {
        raw
    } else {
        match opened_value(raw, fingerprint) {
            Ok(p) => p,
            Err(_) => raw,
        }
    }
}

/// The knock port list of a stored connection, opened when it was stored sealed.
pub fn decrypt_ports(raw: String, fingerprint: &str) -> (res: String)
    ensures
        res@ == ports_text(raw@, fingerprint@),
{
    if raw.as_str().unicode_len() == 0 || str_eq(raw.as_str(), "[]") {
        return raw;
    }
    match decrypt_value(raw.as_str(), fingerprint) {
        Ok(p) => p,
        Err(_) => raw,
    }
}

} // verus!
