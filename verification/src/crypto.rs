//! The cryptographic primitives the client relies on: SHA-256, HMAC-SHA256,
//! AES-256-GCM and operating-system randomness. Each result is named by a spec
//! function, tied to every argument it depends on.

use vstd::prelude::*;
use aes_gcm::aead::{Aead, KeyInit};
use aes_gcm::{Aes256Gcm, Nonce};
use rand::RngCore;
use sha2::{Digest, Sha256};
use crate::text::concat2;

verus! {

/// The SHA-256 digest of `data`.
pub uninterp spec fn spec_sha256(data: Seq<u8>) -> Seq<u8>;

/// The HMAC-SHA256 tag of `msg` under `key`.
pub uninterp spec fn spec_hmac_sha256(key: Seq<u8>, msg: Seq<u8>) -> Seq<u8>;

/// The AES-256-GCM ciphertext (with its tag appended) of `plain` under `key` and `nonce`.
pub uninterp spec fn spec_aes_gcm_seal(key: Seq<u8>, nonce: Seq<u8>, plain: Seq<u8>) -> Seq<u8>;

/// The plaintext that AES-256-GCM recovers from `sealed` under `key` and `nonce`,
/// or `None` when the tag does not authenticate.
pub uninterp spec fn spec_aes_gcm_open(key: Seq<u8>, nonce: Seq<u8>, sealed: Seq<u8>) -> Option<Seq<u8>>;

/// The largest plaintext (in bytes) that AES-GCM encrypts (`aes_gcm::P_MAX`, 2^36).
pub open spec fn aes_gcm_max_plain() -> int {
    0x10_0000_0000
}

/// Why an AES-256-GCM operation failed.
#[derive(Clone, Copy, Debug, PartialEq, Eq)]
pub enum AeadFailure {
    /// The key is not 32 bytes long (`Aes256Gcm::new_from_slice` refused it).
    KeyLength,
    /// The AEAD operation itself reported `aead::Error`.
    Aead,
}

/// `sha2::Sha256::digest`: the 32-byte SHA-256 digest of `data`.
#[verifier::external_body]
pub fn sha256(data: &[u8]) -> (res: Vec<u8>)
    ensures
        res@ == spec_sha256(data@),
        res@.len() == 32,
{
    Sha256::digest(data).to_vec()
}

/// `hmac::Hmac<Sha256>`: keyed with `key` (any length is accepted), fed `msg`,
/// finalized to its 32-byte tag.
#[verifier::external_body]
pub fn hmac_sha256(key: &[u8], msg: &[u8]) -> (res: Vec<u8>)
    ensures
        res@ == spec_hmac_sha256(key@, msg@),
        res@.len() == 32,
{
    let mut mac = <hmac::Hmac<Sha256> as KeyInit>::new_from_slice(key)
        .expect("HMAC accepts keys of any length");
    hmac::Mac::update(&mut mac, msg);
    hmac::Mac::finalize(mac).into_bytes().to_vec()
}

/// `Aes256Gcm::new_from_slice(key)` then `Aead::encrypt(nonce, plain)`.
/// A key of another length than 32 bytes is refused; the plaintext is refused when
/// longer than `P_MAX`; otherwise the result is the ciphertext with the 16-byte tag
/// appended, which `decrypt` under the same key and nonce opens back to `plain`.
#[verifier::external_body]
pub fn aes_gcm_encrypt(key: &[u8], nonce: &[u8], plain: &[u8]) -> (res: Result<Vec<u8>, AeadFailure>)
    requires
        nonce@.len() == 12,
    ensures
        (res == Err::<Vec<u8>, AeadFailure>(AeadFailure::KeyLength)) <==> key@.len() != 32,
        (res == Err::<Vec<u8>, AeadFailure>(AeadFailure::Aead)) <==> (key@.len() == 32
            && plain@.len() > aes_gcm_max_plain()),
        res matches Ok(c) ==> {
            &&& c@ == spec_aes_gcm_seal(key@, nonce@, plain@)
            &&& c@.len() == plain@.len() + 16
            &&& spec_aes_gcm_open(key@, nonce@, c@) == Some(plain@)
        },
{
    let cipher = Aes256Gcm::new_from_slice(key).map_err(|_| AeadFailure::KeyLength)?;
    cipher.encrypt(Nonce::from_slice(nonce), plain).map_err(|_| AeadFailure::Aead)
}

/// `Aes256Gcm::new_from_slice(key)` then `Aead::decrypt(nonce, sealed)`.
/// A key of another length than 32 bytes is refused; otherwise the result is the
/// authenticated plaintext, or `aead::Error` when the tag does not authenticate.
#[verifier::external_body]
pub fn aes_gcm_decrypt(key: &[u8], nonce: &[u8], sealed: &[u8]) -> (res: Result<Vec<u8>, AeadFailure>)
    requires
        nonce@.len() == 12,
    ensures
        (res == Err::<Vec<u8>, AeadFailure>(AeadFailure::KeyLength)) <==> key@.len() != 32,
        key@.len() == 32 ==> (res is Ok <==> spec_aes_gcm_open(key@, nonce@, sealed@) is Some),
        res matches Ok(p) ==> spec_aes_gcm_open(key@, nonce@, sealed@) == Some(p@),
        key@.len() == 32 ==> ((res == Err::<Vec<u8>, AeadFailure>(AeadFailure::Aead))
            <==> spec_aes_gcm_open(key@, nonce@, sealed@) is None),
{
    let cipher = Aes256Gcm::new_from_slice(key).map_err(|_| AeadFailure::KeyLength)?;
    cipher.decrypt(Nonce::from_slice(nonce), sealed).map_err(|_| AeadFailure::Aead)
}

/// `rand::rngs::OsRng::try_fill_bytes` on `n` zero bytes: `n` bytes from the
/// operating system's random source, or the `Display` text of the error it
/// reported. Nothing is stated of the bytes' values, which rest on chance, nor of
/// when the source fails or with which text, which rest on the operating system.
#[verifier::external_body]
pub fn random_bytes(n: usize) -> (res: Result<Vec<u8>, String>)
    ensures
        res matches Ok(v) ==> v@.len() == n,
{
    let mut buf = vec![0u8; n];
    match rand::rngs::OsRng.try_fill_bytes(&mut buf) {
        Ok(()) => Ok(buf),
        Err(e) => Err(e.to_string()),
    }
}

/// Whether `e` reports that the random source failed.
pub open spec fn random_failure(e: Seq<char>) -> bool {
    exists|t: Seq<char>| e == "random: "@ + t
}

/// `n` random bytes, or the report that the random source failed: `random: `
/// followed by the source's own error text.
pub fn draw_random(n: usize) -> (res: Result<Vec<u8>, String>)
    ensures
        res matches Ok(v) ==> v@.len() == n,
        res matches Err(e) ==> random_failure(e@),
{
    match random_bytes(n) {
        Ok(v) => Ok(v),
        Err(t) => {
            let e = concat2("random: ", t.as_str());
            assert(e@ == "random: "@ + t@);
            Err(e)
        },
    }
}

/// The current time in whole seconds since the Unix epoch, as a signed count
/// (`SystemTime::now().duration_since(UNIX_EPOCH)`, zero before the epoch).
/// Nothing is stated of the value, which rests on the clock.
#[verifier::external_body]
pub fn unix_time_secs() -> (res: i64) {
    std::time::SystemTime::now()
        .duration_since(std::time::UNIX_EPOCH)
        .unwrap_or_default()
        .as_secs() as i64
}

} // verus!
