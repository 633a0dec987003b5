use knockd_client::crypto::{aes_gcm_decrypt, hmac_sha256, sha256};
use knockd_client::hexcodec::hex_encode;
use knockd_client::json::auth_packet_json;
use knockd_client::knockpass::{
    aes_enc, aes_enc_with_iv, auth_reply, authenticate_site, dispatch, dyn_port, dyn_port_at, find_site,
    fingerprint_from_parts, secret_entry_name, sign_hmac, site_datagram, spa_datagram, spa_host, spa_knock,
    spa_packet, BrowserRequest, Dispatch, SiteMapping,
};

fn mapping(target: &str) -> SiteMapping {
    SiteMapping {
        site_id: "site-a".to_string(),
        user: "alice".to_string(),
        target: target.to_string(),
        credential: "cred".to_string(),
        public_key: "pk".to_string(),
        x25519_public_key: String::new(),
    }
}

fn request(action: &str) -> BrowserRequest {
    BrowserRequest {
        action: action.to_string(),
        site_id: "site-a".to_string(),
        name: String::new(),
        url: String::new(),
        target: String::new(),
        secret: String::new(),
    }
}

#[test]
fn hmac_signature_is_lowercase_hex() {
    assert_eq!(
        sign_hmac("what do ya want for nothing?", "Jefe"),
        "5bdcc146bf60754e6a042426089575c75a003f089d2739839dec58b964ec3843"
    );
}

#[test]
fn rotating_port_formula() {
    let key = sha256(b"s3cret");
    let tag = hmac_sha256(&key, b"site-a:28333333");
    let v = u32::from_be_bytes([tag[0], tag[1], tag[2], tag[3]]);
    let expected = (v % 40000 + 20000) as u16;
    assert_eq!(dyn_port_at("site-a", "s3cret", 1700000000), expected);
    let tag = hmac_sha256(&key, b"site-a:-1");
    let v = u32::from_be_bytes([tag[0], tag[1], tag[2], tag[3]]);
    assert_eq!(dyn_port_at("site-a", "s3cret", -61), (v % 40000 + 20000) as u16);
    let tag = hmac_sha256(&key, b"site-a:0");
    let v = u32::from_be_bytes([tag[0], tag[1], tag[2], tag[3]]);
    assert_eq!(dyn_port_at("site-a", "s3cret", -59), (v % 40000 + 20000) as u16);
}

#[test]
fn rotating_port_is_stable_within_a_minute_and_in_range() {
    let a = dyn_port_at("site-a", "s3cret", 1700000040);
    let b = dyn_port_at("site-a", "s3cret", 1700000099);
    assert_eq!(a, b);
    for t in [0i64, 60, 120, 1700000000, 1700000060] {
        let p = dyn_port_at("site-a", "s3cret", t);
        assert!((20000..60000).contains(&p));
    }
    let p = dyn_port("site-a", "s3cret");
    assert!((20000..60000).contains(&p));
}

#[test]
fn json_packet_text() {
    let text = auth_packet_json("s\"1", -5, "ab", "u\n", "t\\", "\u{1}x");
    assert_eq!(
        text,
        "{\"version\":1,\"site_id\":\"s\\\"1\",\"timestamp\":-5,\"nonce\":\"ab\",\"user\":\"u\\n\",\"target\":\"t\\\\\",\"signature\":\"\\u0001x\"}"
    );
    let awkward = "\u{8}\u{c}\r\t\u{1f}\u{7f}é";
    let text = auth_packet_json(awkward, 0, "", "", "", "");
    let expected_site = serde_json::to_string(awkward).unwrap();
    assert!(text.starts_with(&format!("{{\"version\":1,\"site_id\":{},", expected_site)));
}

#[test]
fn spa_packet_opens_to_the_signed_json() {
    let nonce = [0xabu8; 16];
    let iv = [9u8; 12];
    let payload = spa_packet("site-a", "alice", "host.example", "s3cret", 1700000000, &nonce, &iv).unwrap();
    assert_eq!(&payload[..12], &iv);
    let key = sha256(b"s3cret");
    let plain = aes_gcm_decrypt(&key, &iv, &payload[12..]).unwrap();
    let nonce_hex = hex_encode(&nonce);
    let sig = sign_hmac(&format!("1700000000{}alicehost.example", nonce_hex), "s3cret");
    let expected = auth_packet_json("site-a", 1700000000, &nonce_hex, "alice", "host.example", &sig);
    assert_eq!(String::from_utf8(plain).unwrap(), expected);
}

#[test]
fn aes_enc_layout() {
    let iv = [4u8; 12];
    let out = aes_enc_with_iv(b"data", "mat", &iv).unwrap();
    assert_eq!(out.len(), 12 + 4 + 16);
    assert_eq!(aes_gcm_decrypt(&sha256(b"mat"), &iv, &out[12..]), Ok(b"data".to_vec()));
    assert_eq!(aes_enc(b"data", "mat").unwrap().len(), 32);
}

#[test]
fn target_host_extraction() {
    assert_eq!(spa_host("https://example.com:8443/path"), "example.com");
    assert_eq!(spa_host("http://10.0.0.1"), "10.0.0.1");
    assert_eq!(spa_host("https://https://a.b"), "a.b");
    assert_eq!(spa_host("https://http://a.b:1"), "a.b");
    assert_eq!(spa_host("plainhost"), "plainhost");
    assert_eq!(spa_host(":22"), "");
    assert_eq!(spa_host(""), "");
}

#[test]
fn spa_datagram_for_a_fixed_port() {
    let nonce = [1u8; 16];
    let iv = [2u8; 12];
    let d = spa_datagram("gw.example", 6200, "site-a", "s3cret", "bob", "gw.example", 1700000000, &nonce, &iv)
        .unwrap();
    assert_eq!(d.port, 6200);
    assert_eq!(d.host, "gw.example");
    assert_eq!(d.address, "gw.example:6200");
    assert_eq!(d.message, "SPA sent to gw.example:6200");
    assert_eq!(
        d.payload,
        spa_packet("site-a", "bob", "gw.example", "s3cret", 1700000000, &nonce, &iv).unwrap()
    );
}

#[test]
fn spa_datagram_uses_the_rotating_port_when_none_is_set() {
    let nonce = [1u8; 16];
    let iv = [2u8; 12];
    let d = spa_datagram("gw", 0, "site-a", "s3cret", "bob", "gw", 1700000000, &nonce, &iv).unwrap();
    assert_eq!(d.port, dyn_port_at("site-a", "s3cret", 1700000000));
    assert_eq!(d.address, format!("gw:{}", d.port));
}

#[test]
fn spa_knock_falls_back_to_the_credential() {
    let d = spa_knock("gw", 7777, "site-a", "cred", "bob", "gw", Err("no entry".to_string())).unwrap();
    assert_eq!(d.port, 7777);
    let key = sha256(b"cred");
    assert!(aes_gcm_decrypt(&key, &d.payload[..12], &d.payload[12..]).is_ok());
    let d = spa_knock("gw", 7777, "site-a", "cred", "bob", "gw", Ok("kept".to_string())).unwrap();
    let key = sha256(b"kept");
    assert!(aes_gcm_decrypt(&key, &d.payload[..12], &d.payload[12..]).is_ok());
}

#[test]
fn site_authentication_datagram() {
    let m = mapping("https://vpn.example:443");
    let nonce = [5u8; 16];
    let iv = [6u8; 12];
    let d = site_datagram("site-a", &m, "s3cret", 1700000000, &nonce, &iv).unwrap();
    let port = dyn_port_at("site-a", "s3cret", 1700000000);
    assert_eq!(d.host, "vpn.example");
    assert_eq!(d.port, port);
    assert_eq!(d.message, format!("SPA sent to vpn.example:{} for site-a", port));
    assert_eq!(
        d.payload,
        spa_packet("site-a", "alice", "https://vpn.example:443", "s3cret", 1700000000, &nonce, &iv).unwrap()
    );
    let d = authenticate_site("site-a", &m, "s3cret").unwrap();
    assert_eq!(d.host, "vpn.example");
    assert!((20000..60000).contains(&d.port));
}

#[test]
fn site_lookup() {
    let store = vec![("one".to_string(), mapping("a")), ("two".to_string(), mapping("b"))];
    assert_eq!(find_site(&store, "two"), Ok(1));
    assert_eq!(find_site(&store, "three"), Err("site three not found".to_string()));
    assert_eq!(find_site(&vec![], "x"), Err("site x not found".to_string()));
}

#[test]
fn browser_requests() {
    match dispatch(&request("auth")) {
        Dispatch::Authenticate { site_id } => assert_eq!(site_id, "site-a"),
        other => panic!("unexpected {:?}", other),
    }
    match dispatch(&request("list")) {
        Dispatch::Reply(r) => {
            assert!(!r.success);
            assert_eq!(r.message, "Unknown: list");
        },
        other => panic!("unexpected {:?}", other),
    }
    let ok = auth_reply(Ok("sent".to_string()));
    assert!(ok.success);
    assert_eq!(ok.message, "sent");
    let err = auth_reply(Err("site x not found".to_string()));
    assert!(!err.success);
    assert_eq!(err.message, "site x not found");
}

#[test]
fn device_fingerprint_from_identifiers() {
    assert_eq!(fingerprint_from_parts(&vec![]), Err("no hardware ids".to_string()));
    let parts = vec!["machine-id".to_string(), "host".to_string()];
    assert_eq!(fingerprint_from_parts(&parts), Ok(hex_encode(&sha256(b"machine-id|host"))));
    assert_eq!(fingerprint_from_parts(&vec!["one".to_string()]), Ok(hex_encode(&sha256(b"one"))));
}

#[test]
fn keyring_entry_name() {
    assert_eq!(secret_entry_name("admin"), "admin_priv");
}

#[test]
fn site_lookup_finds_the_first_entry() {
    let store = vec![("one".to_string(), mapping("a")), ("one".to_string(), mapping("b"))];
    assert_eq!(find_site(&store, "one"), Ok(0));
}

#[test]
fn fingerprint_has_64_hex_characters() {
    let f = fingerprint_from_parts(&vec!["a".to_string(), "b".to_string(), "c".to_string()]).unwrap();
    assert_eq!(f.len(), 64);
    assert!(f.chars().all(|c| c.is_ascii_hexdigit() && !c.is_ascii_uppercase()));
}

#[test]
fn spa_knock_and_site_authentication_succeed_on_ordinary_input() {
    let d = spa_knock("gw.example", 0, "site-a", "cred", "alice", "https://gw.example:8443", Err("none".to_string()))
        .unwrap();
    assert!((20000..60000).contains(&d.port));
    assert!(d.payload.len() > 12 + 16);
    let d = authenticate_site("site-a", &mapping("http://vpn.example:443"), "s3cret").unwrap();
    assert_eq!(d.host, "vpn.example");
}
