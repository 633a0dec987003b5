use knockd_client::crypto::{aes_gcm_encrypt, sha256};
use knockd_client::crypto_store::{
    decrypt_ports, decrypt_value, derive_db_key, derive_key, encrypt_value, encrypt_value_with_iv,
};
use knockd_client::hexcodec::hex_encode;

#[test]
fn device_key_is_sha256_of_fingerprint_and_pepper() {
    assert_eq!(derive_key("abc"), sha256(b"abc|knockd-client-v1-master-key"));
}

#[test]
fn database_key_is_hex_sha256_of_fingerprint_and_pepper() {
    assert_eq!(derive_db_key("abc"), hex_encode(&sha256(b"abc|knockd-sqlcipher-v1")));
    assert_eq!(derive_db_key("abc").len(), 64);
}

#[test]
fn encrypted_value_layout() {
    let iv = [3u8; 12];
    let stored = encrypt_value_with_iv("secret ports", "fp", &iv).unwrap();
    let key = derive_key("fp");
    let sealed = aes_gcm_encrypt(&key, &iv, b"secret ports").unwrap();
    let mut expected = iv.to_vec();
    expected.extend_from_slice(&sealed);
    assert_eq!(stored, hex_encode(&expected));
}

#[test]
fn decrypt_value_inverts_encrypt_value() {
    for plain in ["", "[{\"protocol\":\"udp\",\"port\":7000}]", "héllo ✓"] {
        let stored = encrypt_value(plain, "device-1").unwrap();
        assert_eq!(decrypt_value(&stored, "device-1"), Ok(plain.to_string()));
    }
}

#[test]
fn decrypt_value_errors() {
    assert_eq!(decrypt_value("abc", "fp"), Err("hex: Odd number of digits".to_string()));
    assert_eq!(
        decrypt_value("zz", "fp"),
        Err("hex: Invalid character 'z' at position 0".to_string())
    );
    assert_eq!(decrypt_value(&"00".repeat(12), "fp"), Err("too short".to_string()));
    let stored = encrypt_value("x", "device-1").unwrap();
    assert_eq!(decrypt_value(&stored, "device-2"), Err("decrypt: aead::Error".to_string()));
    let iv = [0u8; 12];
    let sealed = aes_gcm_encrypt(&derive_key("fp"), &iv, &[0xff, 0xfe]).unwrap();
    let mut data = iv.to_vec();
    data.extend_from_slice(&sealed);
    let expected = format!("utf8: {}", String::from_utf8(vec![0xff, 0xfe]).unwrap_err());
    assert_eq!(decrypt_value(&hex_encode(&data), "fp"), Err(expected));
}

#[test]
fn stored_ports_are_opened_when_sealed() {
    assert_eq!(decrypt_ports(String::new(), "fp"), "");
    assert_eq!(decrypt_ports("[]".to_string(), "fp"), "[]");
    assert_eq!(decrypt_ports("[{\"port\":1}]".to_string(), "fp"), "[{\"port\":1}]");
    let stored = encrypt_value("[{\"protocol\":\"tcp\",\"port\":22}]", "fp").unwrap();
    assert_eq!(decrypt_ports(stored, "fp"), "[{\"protocol\":\"tcp\",\"port\":22}]");
}

#[test]
fn encrypted_value_length() {
    let stored = encrypt_value("secret ports", "fp").unwrap();
    assert_eq!(stored.len(), 2 * (12 + "secret ports".len() + 16));
    let stored = encrypt_value("é", "fp").unwrap();
    assert_eq!(stored.len(), 2 * (12 + 2 + 16));
    assert_eq!(derive_db_key("").len(), 64);
}
