use knockd_client::crypto::{
    aes_gcm_decrypt, aes_gcm_encrypt, draw_random, hmac_sha256, random_bytes, sha256, AeadFailure,
};
use knockd_client::hexcodec::hex_encode;

#[test]
fn sha256_of_abc() {
    assert_eq!(
        hex_encode(&sha256(b"abc")),
        "ba7816bf8f01cfea414140de5dae2223b00361a396177a9cb410ff61f20015ad"
    );
}

#[test]
fn hmac_sha256_rfc4231_case_2() {
    assert_eq!(
        hex_encode(&hmac_sha256(b"Jefe", b"what do ya want for nothing?")),
        "5bdcc146bf60754e6a042426089575c75a003f089d2739839dec58b964ec3843"
    );
}

#[test]
fn aes_gcm_seals_and_opens() {
    let key = [7u8; 32];
    let nonce = [1u8; 12];
    let sealed = aes_gcm_encrypt(&key, &nonce, b"hello").unwrap();
    assert_eq!(sealed.len(), 5 + 16);
    assert_ne!(&sealed[..5], b"hello");
    assert_eq!(aes_gcm_decrypt(&key, &nonce, &sealed), Ok(b"hello".to_vec()));
}

#[test]
fn aes_gcm_refuses_tampering_and_bad_keys() {
    let key = [7u8; 32];
    let nonce = [1u8; 12];
    let mut sealed = aes_gcm_encrypt(&key, &nonce, b"hello").unwrap();
    sealed[0] ^= 1;
    assert_eq!(aes_gcm_decrypt(&key, &nonce, &sealed), Err(AeadFailure::Aead));
    assert_eq!(aes_gcm_decrypt(&key, &nonce, &[1, 2, 3]), Err(AeadFailure::Aead));
    assert_eq!(aes_gcm_encrypt(&[0u8; 16], &nonce, b"x"), Err(AeadFailure::KeyLength));
    assert_eq!(aes_gcm_decrypt(&[0u8; 16], &nonce, b"x"), Err(AeadFailure::KeyLength));
}

#[test]
fn random_bytes_have_the_asked_length() {
    assert_eq!(random_bytes(12).unwrap().len(), 12);
    assert_eq!(random_bytes(0).unwrap().len(), 0);
    assert_ne!(random_bytes(32).unwrap(), random_bytes(32).unwrap());
    assert_eq!(draw_random(16).unwrap().len(), 16);
}
