//! KnockPass single packet authorization: the signed, encrypted packet, the
//! time-based port, the target host, site lookup and browser requests.

use vstd::prelude::*;
use vstd::utf8::encode_utf8;
use crate::crypto::{
    aes_gcm_encrypt, aes_gcm_max_plain, draw_random, hmac_sha256, random_failure, sha256, spec_aes_gcm_open, spec_aes_gcm_seal,
    spec_hmac_sha256, spec_sha256, unix_time_secs, AeadFailure,
};
use crate::hexcodec::{hex_encode, hex_text};
use crate::json::{auth_packet_json, auth_packet_text, json_quoted, lemma_auth_packet_text_len};
use crate::text::{
    chars_of, concat2, contains_text, decimal, decimal_signed, i64_to_decimal, lemma_decimal_len, lemma_encode_utf8_len,
    matches_at, push_decimal, starts_with_text, str_eq, string_from_chars, string_push,
};

verus! {

/// A request from the browser extension.
#[derive(Debug)]
pub struct BrowserRequest {
    pub action: String,
    pub site_id: String,
    pub name: String,
    pub url: String,
    pub target: String,
    pub secret: String,
}

/// The answer to a browser request.
#[derive(Debug)]
pub struct BrowserResponse {
    pub success: bool,
    pub message: String,
}

/// What the client knows of a KnockPass site.
#[derive(Debug)]
pub struct SiteMapping {
    pub site_id: String,
    pub user: String,
    pub target: String,
    pub credential: String,
    pub public_key: String,
    pub x25519_public_key: String,
}

/// A UDP datagram ready to send: where to, what, and what to report once sent.
#[derive(Debug)]
pub struct SpaDatagram {
    pub host: String,
    pub port: u16,
    /// `host:port`
    pub address: String,
    pub payload: Vec<u8>,
    pub message: String,
}

/// The hex HMAC-SHA256 signature of `msg` under `secret`.
pub open spec fn signature_text(msg: Seq<char>, secret: Seq<char>) -> Seq<char> {
    hex_text(spec_hmac_sha256(encode_utf8(secret), encode_utf8(msg)))
}

/// Signs `msg` with HMAC-SHA256 under `secret`, as lowercase hex.
pub fn sign_hmac(msg: &str, secret: &str) -> (res: String)
    ensures
        res@ == signature_text(msg@, secret@),
        res@.len() == 64,
{
    let tag = hmac_sha256(secret.as_bytes(), msg.as_bytes());
    hex_encode(tag.as_slice())
}

/// The packet sealed under the SHA-256 of `material` with `iv`: `iv` followed by
/// the AES-256-GCM ciphertext.
pub open spec fn sealed_packet(plain: Seq<u8>, material: Seq<char>, iv: Seq<u8>) -> Result<Seq<u8>, Seq<char>> {
    if plain.len() > aes_gcm_max_plain() {
        Err("encrypt: aead::Error"@)
    } else {
        Ok(iv + spec_aes_gcm_seal(spec_sha256(encode_utf8(material)), iv, plain))
    }
}

pub open spec fn view_bytes_result(r: Result<Vec<u8>, String>) -> Result<Seq<u8>, Seq<char>> {
    match r {
        Ok(v) => Ok(v@),
        Err(e) => Err(e@),
    }
}

/// Seals `plain` under the SHA-256 of `material` with the 12-byte `iv`.
pub fn aes_enc_with_iv(plain: &[u8], material: &str, iv: &[u8]) -> (res: Result<Vec<u8>, String>)
    requires
        iv@.len() == 12,
    ensures
        view_bytes_result(res) == sealed_packet(plain@, material@, iv@),
        res matches Ok(c) ==> c@.len() == 12 + plain@.len() + 16,
        res matches Ok(c) ==> spec_aes_gcm_open(
            spec_sha256(encode_utf8(material@)),
            c@.subrange(0, 12),
            c@.subrange(12, c@.len() as int),
        ) == Some(plain@),
{
    let material_bytes = material.as_bytes();
    assert(material_bytes@ == encode_utf8(material@));
    let key = sha256(material_bytes);
    match aes_gcm_encrypt(key.as_slice(), iv, plain) {
        Err(AeadFailure::KeyLength) => Err(String::from_str("AES")),
        Err(AeadFailure::Aead) => Err(String::from_str("encrypt: aead::Error")),
        Ok(sealed) => {
            let mut out: Vec<u8> = Vec::new();
            out.extend_from_slice(iv);
            out.extend_from_slice(sealed.as_slice());
            assert(out@ == iv@ + sealed@);
            assert(out@.subrange(0, 12) =~= iv@);
            assert(out@.subrange(12, out@.len() as int) =~= sealed@);
            Ok(out)
        },
    }
}

/// Seals `plain` under the SHA-256 of `material` with a fresh random IV, or
/// reports that the random source failed.
pub fn aes_enc(plain: &[u8], material: &str) -> (res: Result<Vec<u8>, String>)
    ensures
        plain@.len() > aes_gcm_max_plain() ==> res is Err,
        res matches Err(e) ==> random_failure(e@) || (e@ == "encrypt: aead::Error"@ && plain@.len()
            > aes_gcm_max_plain()),
        res matches Ok(c) ==> c@.len() == 12 + plain@.len() + 16,
        res matches Ok(c) ==> spec_aes_gcm_open(
            spec_sha256(encode_utf8(material@)),
            c@.subrange(0, 12),
            c@.subrange(12, c@.len() as int),
        ) == Some(plain@),
{
    let iv = match draw_random(12) {
        Ok(v) => v,
        Err(e) => return Err(e),
    };
    aes_enc_with_iv(plain, material, iv.as_slice())
}

/// The minute slot of a Unix time (division rounding toward zero).
pub open spec fn time_slot(now: int) -> int {
    if now >= 0 {
        now / 60
    } else {
        -((-now) / 60)
    }
}

/// The big-endian value of the first four bytes.
pub open spec fn be_u32(r: Seq<u8>) -> int {
    r[0] * 16777216 + r[1] * 65536 + r[2] * 256 + r[3]
}

/// The UDP port of a site during the minute that holds `now`: HMAC-SHA256 of
/// `"{site_id}:{slot}"` keyed by SHA-256 of the secret, its first four bytes
/// big-endian, reduced into `20000..60000`.
pub open spec fn dynamic_port(site_id: Seq<char>, secret: Seq<char>, now: int) -> int {
    let msg = site_id + ":"@ + decimal_signed(time_slot(now));
    let tag = spec_hmac_sha256(spec_sha256(encode_utf8(secret)), encode_utf8(msg));
    be_u32(tag) % 40000 + 20000
}

/// The rotating UDP port of a site at the Unix time `now`.
pub fn dyn_port_at(site_id: &str, secret: &str, now: i64) -> (res: u16)
    ensures
        res == dynamic_port(site_id@, secret@, now as int),
        20000 <= res < 60000,
{
    let slot: i64 = if now >= 0 {
        (now as u64 / 60) as i64
    } else {
        let m: u64 = (0i128 - now as i128) as u64;
        0i64 - ((m / 60) as i64)
    };
    assert(slot == time_slot(now as int));
    let mut msg = String::from_str(site_id);
    msg.append(":");
    let slot_text = i64_to_decimal(slot);
    msg.append(slot_text.as_str());
    let key = sha256(secret.as_bytes());
    let tag = hmac_sha256(key.as_slice(), msg.as_str().as_bytes());
    let v: u32 = (tag[0] as u32) * 16777216 + (tag[1] as u32) * 65536 + (tag[2] as u32) * 256 + (tag[3] as u32);
    ((v % 40000) + 20000) as u16
}

/// The rotating port stays the same for the whole minute: two times in the same
/// minute slot give the same port.
pub proof fn lemma_port_constant_within_minute(site_id: Seq<char>, secret: Seq<char>, t1: int, t2: int)
    requires
        time_slot(t1) == time_slot(t2),
    ensures
        dynamic_port(site_id, secret, t1) == dynamic_port(site_id, secret, t2),
{
}

/// The rotating port always lies in `20000..60000`.
pub proof fn lemma_port_in_range(site_id: Seq<char>, secret: Seq<char>, now: int)
    ensures
        20000 <= dynamic_port(site_id, secret, now) < 60000,
{
}

/// For a time `now` in seconds since the epoch, the rotating port is taken from the
/// minute count `now / 60`: the HMAC-SHA256, keyed by the SHA-256 of the secret,
/// of `site_id:minutes`, its first four bytes read big-endian, reduced into
/// `20000..60000`. Two times of the same minute give the same port.
pub proof fn lemma_port_of_the_minute(site_id: Seq<char>, secret: Seq<char>, now: int, later: int)
    requires
        now >= 0,
    ensures
        ({
            let tag = spec_hmac_sha256(
                spec_sha256(encode_utf8(secret)),
                encode_utf8(site_id + ":"@ + decimal((now / 60) as nat)),
            );
            dynamic_port(site_id, secret, now) == (tag[0] * 16777216 + tag[1] * 65536 + tag[2] * 256 + tag[3])
                % 40000 + 20000
        }),
        later >= 0 && later / 60 == now / 60 ==> dynamic_port(site_id, secret, later) == dynamic_port(
            site_id,
            secret,
            now,
        ),
{
}

/// The rotating UDP port of a site now.
pub fn dyn_port(site_id: &str, secret: &str) -> (res: u16)
    ensures
        20000 <= res < 60000,
        exists|now: i64| res == #[trigger] dynamic_port(site_id@, secret@, now as int),
{
    let now = unix_time_secs();
    dyn_port_at(site_id, secret, now)
}

/// The text that is signed: time, nonce, user and target, run together.
pub open spec fn auth_message_text(now: int, nonce: Seq<char>, user: Seq<char>, target: Seq<char>) -> Seq<char> {
    decimal_signed(now) + nonce + user + target
}

/// The sealed authorization packet of `user` for `target` at `now`, with the
/// 16-byte `nonce` and the 12-byte `iv`.
pub open spec fn spa_payload(
    site_id: Seq<char>,
    user: Seq<char>,
    target: Seq<char>,
    secret: Seq<char>,
    now: int,
    nonce: Seq<u8>,
    iv: Seq<u8>,
) -> Result<Seq<u8>, Seq<char>> {
    let nonce_hex = hex_text(nonce);
    let sig = signature_text(auth_message_text(now, nonce_hex, user, target), secret);
    let text = auth_packet_text(site_id, now, nonce_hex, user, target, sig);
    sealed_packet(encode_utf8(text), secret, iv)
}

/// A sealed packet carries the time it was built at: once opened under the key
/// of the secret it is the JSON text whose `timestamp` is `now` in decimal, and
/// whose signature is the HMAC of a message that begins with that same decimal
/// time, followed by the hex nonce, the user and the target.
pub proof fn lemma_packet_carries_its_time(
    site_id: Seq<char>,
    user: Seq<char>,
    target: Seq<char>,
    secret: Seq<char>,
    now: int,
    nonce: Seq<u8>,
    iv: Seq<u8>,
)
    ensures
        spa_payload(site_id, user, target, secret, now, nonce, iv) matches Ok(c) ==> exists|text: Seq<char>|
            {
                &&& c == iv + spec_aes_gcm_seal(spec_sha256(encode_utf8(secret)), iv, encode_utf8(text))
                &&& #[trigger] contains_text(text, ",\"timestamp\":"@ + decimal_signed(now) + ",\"nonce\":"@)
                &&& contains_text(
                    text,
                    "\"signature\":"@ + json_quoted(
                        signature_text(decimal_signed(now) + hex_text(nonce) + user + target, secret),
                    ),
                )
            },
{
    let nonce_hex = hex_text(nonce);
    let sig = signature_text(auth_message_text(now, nonce_hex, user, target), secret);
    let text = auth_packet_text(site_id, now, nonce_hex, user, target, sig);
    let a = "{\"version\":1,\"site_id\":"@ + json_quoted(site_id);
    let pat = ",\"timestamp\":"@ + decimal_signed(now) + ",\"nonce\":"@;
    let i = a.len() as int;
    assert(text.subrange(i, i + pat.len()) =~= pat);
    let b = a + ",\"timestamp\":"@ + decimal_signed(now) + ",\"nonce\":"@ + json_quoted(nonce_hex) + ",\"user\":"@
        + json_quoted(user) + ",\"target\":"@ + json_quoted(target) + ",\"signature\":"@;
    let sig_pat = "\"signature\":"@ + json_quoted(sig);
    let j = b.len() - "\"signature\":"@.len();
    reveal_strlit(",\"signature\":");
    reveal_strlit("\"signature\":");
    assert(",\"signature\":"@ =~= seq![','] + "\"signature\":"@);
    assert(text.subrange(j, j + sig_pat.len()) =~= sig_pat);
    assert(contains_text(text, pat));
    assert(contains_text(text, sig_pat));
}

/// Whether a packet's text fields leave it short enough to be sealed: the site,
/// user and target (in characters) and the nonce (in bytes) together at most 2^30.
pub open spec fn packet_fits(site_id: Seq<char>, user: Seq<char>, target: Seq<char>, nonce_len: int) -> bool {
    site_id.len() + user.len() + target.len() + nonce_len <= 0x4000_0000
}

/// Builds the sealed authorization packet.
pub fn spa_packet(
    site_id: &str,
    user: &str,
    target: &str,
    secret: &str,
    now: i64,
    nonce: &[u8],
    iv: &[u8],
) -> (res: Result<Vec<u8>, String>)
    requires
        iv@.len() == 12,
    ensures
        view_bytes_result(res) == spa_payload(site_id@, user@, target@, secret@, now as int, nonce@, iv@),
        packet_fits(site_id@, user@, target@, nonce@.len() as int) ==> res is Ok,
{
    let nonce_hex = hex_encode(nonce);
    let mut msg = i64_to_decimal(now);
    msg.append(nonce_hex.as_str());
    msg.append(user);
    msg.append(target);
    let sig = sign_hmac(msg.as_str(), secret);
    let text = auth_packet_json(site_id, now, nonce_hex.as_str(), user, target, sig.as_str());
    proof {
        if packet_fits(site_id@, user@, target@, nonce@.len() as int) {
            lemma_auth_packet_text_len(site_id@, now as int, nonce_hex@, user@, target@, sig@);
            lemma_encode_utf8_len(text@);
            if now < 0 {
                lemma_decimal_len((-now) as nat);
            } else {
                lemma_decimal_len(now as nat);
            }
            assert(decimal_signed(now as int).len() <= 21);
            assert(encode_utf8(text@).len() <= aes_gcm_max_plain());
        }
    }
    aes_enc_with_iv(text.as_str().as_bytes(), secret, iv)
}

/// `s` with every leading repetition of the non-empty `prefix` removed
/// (`str::trim_start_matches`).
pub open spec fn strip_prefixes(s: Seq<char>, prefix: Seq<char>) -> Seq<char>
    decreases s.len(),
{
    if prefix.len() > 0 && prefix.len() <= s.len() && s.subrange(0, prefix.len() as int) == prefix {
        strip_prefixes(s.subrange(prefix.len() as int, s.len() as int), prefix)
    } else {
        s
    }
}

/// The part of `s` before its first `:` (all of `s` when it has none).
pub open spec fn before_colon(s: Seq<char>) -> Seq<char>
    decreases s.len(),
{
    if s.len() == 0 {
        s
    } else if s[0] == ':' {
        seq![]
    } else {
        seq![s[0]] + before_colon(s.drop_first())
    }
}

/// The host that an SPA packet for `target` goes to: without `https://` and
/// `http://` prefixes and without a port.
pub open spec fn target_host(target: Seq<char>) -> Seq<char> {
    before_colon(strip_prefixes(strip_prefixes(target, "https://"@), "http://"@))
}

/// Skips every leading repetition of `prefix` in `cs` from `start`.
fn skip_prefixes(cs: &Vec<char>, start: usize, prefix: &Vec<char>) -> (res: usize)
    requires
        start <= cs@.len(),
    ensures
        start <= res <= cs@.len(),
        cs@.subrange(res as int, cs@.len() as int) == strip_prefixes(
            cs@.subrange(start as int, cs@.len() as int),
            prefix@,
        ),
{
    let n = cs.len();
    let mut pos = start;
    loop
        invariant
            n == cs@.len(),
            start <= pos <= cs@.len(),
            strip_prefixes(cs@.subrange(pos as int, cs@.len() as int), prefix@) == strip_prefixes(
                cs@.subrange(start as int, cs@.len() as int),
                prefix@,
            ),
        ensures
            start <= pos <= cs@.len(),
            cs@.subrange(pos as int, cs@.len() as int) == strip_prefixes(
                cs@.subrange(start as int, cs@.len() as int),
                prefix@,
            ),
        decreases cs@.len() - pos,
    {
        if prefix.len() == 0 || !matches_at(cs, pos, prefix) {
            proof {
                let rest = cs@.subrange(pos as int, cs@.len() as int);
                if prefix@.len() > 0 && prefix@.len() <= rest.len() {
                    assert(rest.subrange(0, prefix@.len() as int) =~= cs@.subrange(pos as int, pos + prefix@.len()));
                }
            }
            break;
        }
        proof {
            let rest = cs@.subrange(pos as int, cs@.len() as int);
            assert(rest.subrange(0, prefix@.len() as int) =~= cs@.subrange(pos as int, pos + prefix@.len()));
            assert(rest.subrange(prefix@.len() as int, rest.len() as int) =~= cs@.subrange(
                pos + prefix@.len(),
                cs@.len() as int,
            ));
        }
        pos = pos + prefix.len();
    }
    pos
}

proof fn lemma_before_colon_prefix(s: Seq<char>, i: int)
    requires
        0 <= i <= s.len(),
        forall|j: int| 0 <= j < i ==> s[j] != ':',
    ensures
        before_colon(s) == s.subrange(0, i) + before_colon(s.subrange(i, s.len() as int)),
    decreases i,
{
    if i > 0 {
        lemma_before_colon_prefix(s.drop_first(), i - 1);
        assert(s.drop_first().subrange(0, i - 1) =~= s.subrange(1, i));
        assert(s.drop_first().subrange(i - 1, s.len() - 1) =~= s.subrange(i, s.len() as int));
        assert(seq![s[0]] + s.subrange(1, i) =~= s.subrange(0, i));
    } else {
        assert(s.subrange(0, 0) =~= Seq::<char>::empty());
        assert(s.subrange(0, s.len() as int) =~= s);
    }
}

/// The host of a site's target address.
pub fn spa_host(target: &str) -> (res: String)
    ensures
        res@ == target_host(target@),
{
    let cs = chars_of(target);
    let https = chars_of("https://");
    let http = chars_of("http://");
    let a = skip_prefixes(&cs, 0, &https);
    proof {
        assert(cs@.subrange(0, cs@.len() as int) =~= target@);
    }
    let b = skip_prefixes(&cs, a, &http);
    let ghost rest = cs@.subrange(b as int, cs@.len() as int);
    assert(rest == strip_prefixes(strip_prefixes(target@, "https://"@), "http://"@));
    let mut out: Vec<char> = Vec::new();
    let mut i: usize = b;
    while i < cs.len() && cs[i] != ':'
        invariant
            b <= i <= cs@.len(),
            rest == cs@.subrange(b as int, cs@.len() as int),
            out@ == cs@.subrange(b as int, i as int),
            forall|j: int| b <= j < i ==> cs@[j] != ':',
        decreases cs@.len() - i,
    {
        out.push(cs[i]);
        i = i + 1;
    }
    proof {
        let k = i - b;
        assert forall|j: int| 0 <= j < k implies rest[j] != ':' by {
            assert(rest[j] == cs@[b + j]);
        }
        lemma_before_colon_prefix(rest, k);
        assert(rest.subrange(0, k) =~= out@);
        let tail = rest.subrange(k, rest.len() as int);
        if tail.len() > 0 {
            assert(tail[0] == cs@[i as int]);
        }
        assert(before_colon(tail) =~= Seq::<char>::empty());
        assert(out@ + Seq::<char>::empty() =~= out@);
    }
    string_from_chars(out.as_slice())
}

/// The packet, port, address and report of an SPA knock on `host`: the given UDP
/// port when it is non-zero, else the rotating port of the site.
pub open spec fn spa_knock_datagram(
    host: Seq<char>,
    udp_port: u16,
    site_id: Seq<char>,
    secret: Seq<char>,
    user: Seq<char>,
    target: Seq<char>,
    now: int,
    nonce: Seq<u8>,
    iv: Seq<u8>,
    d: SpaDatagram,
) -> bool {
    let port = if udp_port > 0 { udp_port as int } else { dynamic_port(site_id, secret, now) };
    &&& d.host@ == host
    &&& d.port == port
    &&& d.address@ == host + ":"@ + decimal(port as nat)
    &&& spa_payload(site_id, user, target, secret, now, nonce, iv) == Ok::<Seq<u8>, Seq<char>>(d.payload@)
    &&& d.message@ == "SPA sent to "@ + host + ":"@ + decimal(port as nat)
}

fn address_of(host: &str, port: u16) -> (res: String)
    ensures
        res@ == host@ + ":"@ + decimal(port as nat),
{
    let mut out = String::from_str(host);
    out.append(":");
    push_decimal(&mut out, port as u64);
    out
}

/// The datagram of an SPA knock, for the given time, nonce and IV.
pub fn spa_datagram(
    host: &str,
    udp_port: u16,
    site_id: &str,
    secret: &str,
    user: &str,
    target: &str,
    now: i64,
    nonce: &[u8],
    iv: &[u8],
) -> (res: Result<SpaDatagram, String>)
    requires
        iv@.len() == 12,
    ensures
        match res {
            Ok(d) => spa_knock_datagram(host@, udp_port, site_id@, secret@, user@, target@, now as int, nonce@, iv@, d),
            Err(e) => spa_payload(site_id@, user@, target@, secret@, now as int, nonce@, iv@) == Err::<Seq<u8>, Seq<char>>(e@),
        },
        packet_fits(site_id@, user@, target@, nonce@.len() as int) ==> res is Ok,
        res matches Ok(d) ==> d.host@ == host@ && d.address@ == d.host@ + ":"@ + decimal(d.port as nat)
            && d.message@ == "SPA sent to "@ + d.address@,
{
    let payload = spa_packet(site_id, user, target, secret, now, nonce, iv)?;
    let port: u16 = if udp_port > 0 { udp_port } else { dyn_port_at(site_id, secret, now) };
    let address = address_of(host, port);
    let message = concat2("SPA sent to ", address.as_str());
    assert(message@ =~= "SPA sent to "@ + host@ + ":"@ + decimal(port as nat));
    Ok(SpaDatagram { host: String::from_str(host), port, address, payload, message })
}

/// The name under which a credential's secret is kept in the keyring.
pub fn secret_entry_name(credential: &str) -> (res: String)
    ensures
        res@ == credential@ + "_priv"@,
{
    concat2(credential, "_priv")
}

/// The secret an SPA knock signs with: the one kept in the keyring, else the
/// credential itself.
pub open spec fn chosen_secret(stored: Result<String, String>, credential: Seq<char>) -> Seq<char> {
    match stored {
        Ok(s) => s@,
        Err(_) => credential,
    }
}

/// Prepares an SPA knock: the keyring secret of the credential, or the credential
/// itself when the keyring has none, signs and seals a fresh packet (random nonce
/// and IV, current time) for the given or the rotating port. Fails when the random
/// source fails, or when the packet is too long to seal.
pub fn spa_knock(
    host: &str,
    udp_port: u16,
    site_id: &str,
    credential: &str,
    user: &str,
    target: &str,
    stored_secret: Result<String, String>,
) -> (res: Result<SpaDatagram, String>)
    ensures
        packet_fits(site_id@, user@, target@, 16) ==> (res matches Err(e) ==> random_failure(e@)),
        res matches Ok(d) ==> d.host@ == host@ && d.address@ == d.host@ + ":"@ + decimal(d.port as nat)
            && d.message@ == "SPA sent to "@ + d.address@,
        res matches Ok(d) ==> exists|now: i64, nonce: Seq<u8>, iv: Seq<u8>|
            nonce.len() == 16 && iv.len() == 12 && #[trigger] spa_knock_datagram(
                host@,
                udp_port,
                site_id@,
                chosen_secret(stored_secret, credential@),
                user@,
                target@,
                now as int,
                nonce,
                iv,
                d,
            ),
        res matches Err(e) ==> random_failure(e@) || exists|now: i64, nonce: Seq<u8>, iv: Seq<u8>|
            nonce.len() == 16 && iv.len() == 12 && #[trigger] spa_payload(
                site_id@,
                user@,
                target@,
                chosen_secret(stored_secret, credential@),
                now as int,
                nonce,
                iv,
            ) == Err::<Seq<u8>, Seq<char>>(e@),
{
    let nonce = match draw_random(16) {
        Ok(v) => v,
        Err(e) => return Err(e),
    };
    let now = unix_time_secs();
    let ghost chosen = chosen_secret(stored_secret, credential@);
    let secret = match stored_secret {
        Ok(s) => s,
        Err(_) => String::from_str(credential),
    };
    assert(secret@ == chosen);
    let iv = match draw_random(12) {
        Ok(v) => v,
        Err(e) => return Err(e),
    };
    let res = spa_datagram(host, udp_port, site_id, secret.as_str(), user, target, now, nonce.as_slice(), iv.as_slice());
    proof {
        if res is Ok {
            let d = res->Ok_0;
            assert(spa_knock_datagram(host@, udp_port, site_id@, secret@, user@, target@, now as int, nonce@, iv@, d));
        } else {
            let e = res->Err_0;
            assert(spa_payload(site_id@, user@, target@, secret@, now as int, nonce@, iv@) == Err::<Seq<u8>, Seq<char>>(e@));
        }
    }
    res
}

/// No two sites of the store are kept under the same identifier (as in a map
/// keyed by identifier).
pub open spec fn site_keys_distinct(store: Seq<(String, SiteMapping)>) -> bool {
    forall|i: int, j: int| 0 <= i < j < store.len() ==> (#[trigger] store[i]).0@ != (#[trigger] store[j]).0@
}

/// The index of the site stored under `site_id`, or the message that it is unknown.
/// The first site under that identifier is found; in a store without repeated
/// identifiers it is the only one.
pub fn find_site(store: &Vec<(String, SiteMapping)>, site_id: &str) -> (res: Result<usize, String>)
    ensures
        res matches Ok(i) ==> i < store@.len() && store@[i as int].0@ == site_id@,
        res matches Ok(i) ==> forall|j: int| 0 <= j < i ==> (#[trigger] store@[j]).0@ != site_id@,
        site_keys_distinct(store@) ==> (res matches Ok(i) ==> forall|j: int|
            0 <= j < store@.len() && j != i ==> (#[trigger] store@[j]).0@ != site_id@),
        res is Err <==> forall|i: int| 0 <= i < store@.len() ==> (#[trigger] store@[i]).0@ != site_id@,
        res matches Err(m) ==> m@ == "site "@ + site_id@ + " not found"@,
{
    let mut i: usize = 0;
    while i < store.len()
        invariant
            i <= store@.len(),
            forall|j: int| 0 <= j < i ==> (#[trigger] store@[j]).0@ != site_id@,
        decreases store@.len() - i,
    {
        if str_eq(store[i].0.as_str(), site_id) {
            return Ok(i);
        }
        i = i + 1;
    }
    let mut m = String::from_str("site ");
    m.append(site_id);
    m.append(" not found");
    Err(m)
}

/// The datagram that authenticates to a site: sent to the host of the site's
/// target on the site's rotating port, signed as the site's user.
pub open spec fn site_auth_datagram(
    site_id: Seq<char>,
    m: SiteMapping,
    secret: Seq<char>,
    now: int,
    nonce: Seq<u8>,
    iv: Seq<u8>,
    d: SpaDatagram,
) -> bool {
    let host = target_host(m.target@);
    let port = dynamic_port(site_id, secret, now);
    &&& d.host@ == host
    &&& d.port == port
    &&& d.address@ == host + ":"@ + decimal(port as nat)
    &&& spa_payload(site_id, m.user@, m.target@, secret, now, nonce, iv) == Ok::<Seq<u8>, Seq<char>>(d.payload@)
    &&& d.message@ == "SPA sent to "@ + host + ":"@ + decimal(port as nat) + " for "@ + site_id
}

/// The datagram that authenticates to a site, for the given time, nonce and IV.
pub fn site_datagram(
    site_id: &str,
    mapping: &SiteMapping,
    secret: &str,
    now: i64,
    nonce: &[u8],
    iv: &[u8],
) -> (res: Result<SpaDatagram, String>)
    requires
        iv@.len() == 12,
    ensures
        match res {
            Ok(d) => site_auth_datagram(site_id@, *mapping, secret@, now as int, nonce@, iv@, d),
            Err(e) => spa_payload(site_id@, mapping.user@, mapping.target@, secret@, now as int, nonce@, iv@)
                == Err::<Seq<u8>, Seq<char>>(e@),
        },
        packet_fits(site_id@, mapping.user@, mapping.target@, nonce@.len() as int) ==> res is Ok,
        res matches Ok(d) ==> d.host@ == target_host(mapping.target@) && d.address@ == d.host@ + ":"@ + decimal(
            d.port as nat,
        ) && d.message@ == "SPA sent to "@ + d.address@ + " for "@ + site_id@,
{
    let payload = spa_packet(
        site_id,
        mapping.user.as_str(),
        mapping.target.as_str(),
        secret,
        now,
        nonce,
        iv,
    )?;
    let port = dyn_port_at(site_id, secret, now);
    let host = spa_host(mapping.target.as_str());
    let address = address_of(host.as_str(), port);
    let mut message = concat2("SPA sent to ", address.as_str());
    message.append(" for ");
    message.append(site_id);
    assert(message@ =~= "SPA sent to "@ + host@ + ":"@ + decimal(port as nat) + " for "@ + site_id@);
    Ok(SpaDatagram { host, port, address, payload, message })
}

/// The host of a target never holds a `:`: whatever port the target names is cut
/// off.
pub proof fn lemma_target_host_has_no_colon(target: Seq<char>)
    ensures
        !target_host(target).contains(':'),
{
    lemma_before_colon_has_no_colon(strip_prefixes(strip_prefixes(target, "https://"@), "http://"@));
}

proof fn lemma_before_colon_has_no_colon(s: Seq<char>)
    ensures
        !before_colon(s).contains(':'),
    decreases s.len(),
{
    if s.len() > 0 && s[0] != ':' {
        lemma_before_colon_has_no_colon(s.drop_first());
        let r = before_colon(s.drop_first());
        assert forall|i: int| 0 <= i < before_colon(s).len() implies before_colon(s)[i] != ':' by {
            if i > 0 {
                assert(before_colon(s)[i] == r[i - 1]);
            }
        }
    }
}

proof fn lemma_before_colon_of_plain(h: Seq<char>, rest: Seq<char>)
    requires
        !h.contains(':'),
    ensures
        before_colon(h) == h,
        before_colon(h + seq![':'] + rest) == h,
    decreases h.len(),
{
    if h.len() > 0 {
        assert(!h.drop_first().contains(':')) by {
            assert forall|i: int| 0 <= i < h.drop_first().len() implies h.drop_first()[i] != ':' by {
                assert(h.drop_first()[i] == h[i + 1]);
            }
        }
        lemma_before_colon_of_plain(h.drop_first(), rest);
        assert((h + seq![':'] + rest).drop_first() =~= h.drop_first() + seq![':'] + rest);
        assert(seq![h[0]] + h.drop_first() =~= h);
    } else {
        assert(h + seq![':'] + rest =~= seq![':'] + rest);
    }
}

proof fn lemma_strip_absent_prefix(s: Seq<char>, prefix: Seq<char>)
    requires
        !starts_with_text(s, prefix),
    ensures
        strip_prefixes(s, prefix) == s,
{
}

/// The host of a target is the target with an `https://` or `http://` scheme and a
/// `:port` suffix taken off: for a host name `h` (no `:`, no scheme of its own),
/// `h`, `https://h`, `http://h`, `https://h:port` and `http://h:port` all have the
/// host `h` (for any `port` text that does not begin with `/`).
pub proof fn lemma_target_host_strips_scheme_and_port(h: Seq<char>, rest: Seq<char>)
    requires
        !h.contains(':'),
        !starts_with_text(h, "https://"@),
        !starts_with_text(h, "http://"@),
        rest.len() == 0 || rest[0] != '/',
    ensures
        target_host(h) == h,
        target_host("https://"@ + h) == h,
        target_host("http://"@ + h) == h,
        target_host("https://"@ + h + ":"@ + rest) == h,
        target_host("http://"@ + h + ":"@ + rest) == h,
{
    reveal_strlit("https://");
    reveal_strlit("http://");
    reveal_strlit(":");
    lemma_before_colon_of_plain(h, rest);
    assert(":"@ =~= seq![':']);
    let hr = h + ":"@ + rest;
    assert(!starts_with_text(hr, "https://"@)) by {
        if "https://"@.len() <= hr.len() && hr.subrange(0, 8) == "https://"@ {
            if h.len() >= 8 {
                assert(h.subrange(0, 8) =~= hr.subrange(0, 8));
            } else {
                assert(hr[h.len() as int] == ':');
                assert(hr.subrange(0, 8)[h.len() as int] == "https://"@[h.len() as int]);
                assert(hr.subrange(0, 8)[h.len() + 1int] == "https://"@[h.len() + 1int]);
                assert(hr[h.len() + 1int] == rest[0]);
                assert(h.subrange(0, h.len() as int) =~= hr.subrange(0, 8).subrange(0, h.len() as int));
            }
        }
    }
    assert(!starts_with_text(hr, "http://"@)) by {
        if "http://"@.len() <= hr.len() && hr.subrange(0, 7) == "http://"@ {
            if h.len() >= 7 {
                assert(h.subrange(0, 7) =~= hr.subrange(0, 7));
            } else {
                assert(hr[h.len() as int] == ':');
                assert(hr.subrange(0, 7)[h.len() as int] == "http://"@[h.len() as int]);
                assert(hr.subrange(0, 7)[h.len() + 1int] == "http://"@[h.len() + 1int]);
                assert(hr[h.len() + 1int] == rest[0]);
                assert(h.subrange(0, h.len() as int) =~= hr.subrange(0, 7).subrange(0, h.len() as int));
            }
        }
    }
    lemma_strip_absent_prefix(h, "https://"@);
    lemma_strip_absent_prefix(h, "http://"@);
    lemma_strip_absent_prefix(hr, "https://"@);
    lemma_strip_absent_prefix(hr, "http://"@);
    let a = "https://"@ + h;
    assert(a.subrange(0, 8) =~= "https://"@);
    assert(a.subrange(8, a.len() as int) =~= h);
    let b = "http://"@ + h;
    assert(b.subrange(0, 7) =~= "http://"@);
    assert(b.subrange(7, b.len() as int) =~= h);
    assert(!starts_with_text(b, "https://"@)) by {
        if b.len() >= 8 && b.subrange(0, 8) == "https://"@ {
            assert(b.subrange(0, 8)[4] == "https://"@[4]);
        }
    }
    let c = "https://"@ + hr;
    assert(c == "https://"@ + h + ":"@ + rest) by {
        assert(c =~= "https://"@ + h + ":"@ + rest);
    }
    assert(c.subrange(0, 8) =~= "https://"@);
    assert(c.subrange(8, c.len() as int) =~= hr);
    let d = "http://"@ + hr;
    assert(d =~= "http://"@ + h + ":"@ + rest);
    assert(d.subrange(0, 7) =~= "http://"@);
    assert(d.subrange(7, d.len() as int) =~= hr);
    assert(!starts_with_text(d, "https://"@)) by {
        if d.len() >= 8 && d.subrange(0, 8) == "https://"@ {
            assert(d.subrange(0, 8)[4] == "https://"@[4]);
        }
    }
    assert(hr =~= h + seq![':'] + rest);
}

/// A site-authentication datagram is sent to the host of the site's target (its
/// `https://` and `http://` prefixes and its port removed), on the rotating port of
/// the site at that time, and its report names that same address: the address
/// holds exactly one `:`, the one before the port.
pub proof fn lemma_site_datagram_goes_to_target_host(
    site_id: Seq<char>,
    m: SiteMapping,
    secret: Seq<char>,
    now: int,
    nonce: Seq<u8>,
    iv: Seq<u8>,
    d: SpaDatagram,
)
    requires
        site_auth_datagram(site_id, m, secret, now, nonce, iv, d),
    ensures
        d.address@ == target_host(m.target@) + ":"@ + decimal(d.port as nat),
        d.port == dynamic_port(site_id, secret, now),
        d.address@.subrange(0, target_host(m.target@).len() as int) == d.host@,
        !d.host@.contains(':'),
        d.message@ == "SPA sent to "@ + d.address@ + " for "@ + site_id,
{
    lemma_target_host_has_no_colon(m.target@);
    assert(d.address@.subrange(0, target_host(m.target@).len() as int) =~= target_host(m.target@));
}

/// An SPA datagram is sent to the connection's host on the given port when it is
/// not zero, else on the rotating port of the site at that time, and its report
/// names that same address.
pub proof fn lemma_spa_datagram_goes_to_host(
    host: Seq<char>,
    udp_port: u16,
    site_id: Seq<char>,
    secret: Seq<char>,
    user: Seq<char>,
    target: Seq<char>,
    now: int,
    nonce: Seq<u8>,
    iv: Seq<u8>,
    d: SpaDatagram,
)
    requires
        spa_knock_datagram(host, udp_port, site_id, secret, user, target, now, nonce, iv, d),
    ensures
        d.host@ == host,
        d.address@ == host + ":"@ + decimal(d.port as nat),
        udp_port != 0 ==> d.port == udp_port,
        udp_port == 0 ==> d.port == dynamic_port(site_id, secret, now),
        d.message@ == "SPA sent to "@ + d.address@,
{
}

/// Prepares the authentication of a site with its secret: a fresh packet (random
/// nonce and IV, current time) for the site's rotating port. Fails when the random
/// source fails, or when the packet is too long to seal.
pub fn authenticate_site(site_id: &str, mapping: &SiteMapping, secret: &str) -> (res: Result<SpaDatagram, String>)
    ensures
        packet_fits(site_id@, mapping.user@, mapping.target@, 16) ==> (res matches Err(e) ==> random_failure(e@)),
        res matches Ok(d) ==> d.host@ == target_host(mapping.target@) && d.address@ == d.host@ + ":"@ + decimal(
            d.port as nat,
        ) && d.message@ == "SPA sent to "@ + d.address@ + " for "@ + site_id@,
        res matches Ok(d) ==> exists|now: i64, nonce: Seq<u8>, iv: Seq<u8>|
            nonce.len() == 16 && iv.len() == 12 && #[trigger] site_auth_datagram(
                site_id@,
                *mapping,
                secret@,
                now as int,
                nonce,
                iv,
                d,
            ),
        res matches Err(e) ==> random_failure(e@) || exists|now: i64, nonce: Seq<u8>, iv: Seq<u8>|
            nonce.len() == 16 && iv.len() == 12 && #[trigger] spa_payload(
                site_id@,
                mapping.user@,
                mapping.target@,
                secret@,
                now as int,
                nonce,
                iv,
            ) == Err::<Seq<u8>, Seq<char>>(e@),
{
    let nonce = match draw_random(16) {
        Ok(v) => v,
        Err(e) => return Err(e),
    };
    let now = unix_time_secs();
    let iv = match draw_random(12) {
        Ok(v) => v,
        Err(e) => return Err(e),
    };
    let res = site_datagram(site_id, mapping, secret, now, nonce.as_slice(), iv.as_slice());
    proof {
        if res is Ok {
            let d = res->Ok_0;
            assert(site_auth_datagram(site_id@, *mapping, secret@, now as int, nonce@, iv@, d));
        } else {
            let e = res->Err_0;
            assert(spa_payload(site_id@, mapping.user@, mapping.target@, secret@, now as int, nonce@, iv@)
                == Err::<Seq<u8>, Seq<char>>(e@));
        }
    }
    res
}

/// What to do with a browser request.
#[derive(Debug)]
pub enum Dispatch {
    /// Authenticate to the site with this identifier, then answer with `auth_reply`.
    Authenticate { site_id: String },
    /// Answer at once.
    Reply(BrowserResponse),
}

/// Decides what a browser request asks for: `auth` authenticates to its site;
/// any other action is answered as unknown.
pub fn dispatch(req: &BrowserRequest) -> (res: Dispatch)
    ensures
        req.action@ == "auth"@ ==> (res matches Dispatch::Authenticate { site_id } && site_id@ == req.site_id@),
        req.action@ != "auth"@ ==> (res matches Dispatch::Reply(r) && !r.success && r.message@ == "Unknown: "@ + req.action@),
{
    if str_eq(req.action.as_str(), "auth") {
        Dispatch::Authenticate { site_id: req.site_id.clone() }
    } else {
        Dispatch::Reply(BrowserResponse { success: false, message: concat2("Unknown: ", req.action.as_str()) })
    }
}

/// The answer to an `auth` request, from the outcome of the authentication.
pub fn auth_reply(outcome: Result<String, String>) -> (res: BrowserResponse)
    ensures
        match outcome {
            Ok(m) => res.success && res.message@ == m@,
            Err(e) => !res.success && res.message@ == e@,
        },
{
    match outcome {
        Ok(m) => BrowserResponse { success: true, message: m },
        Err(e) => BrowserResponse { success: false, message: e },
    }
}

/// The identifiers joined with `|`.
pub open spec fn joined(parts: Seq<Seq<char>>) -> Seq<char>
    decreases parts.len(),
{
    if parts.len() == 0 {
        seq![]
    } else if parts.len() == 1 {
        parts[0]
    } else {
        joined(parts.drop_last()) + seq!['|'] + parts.last()
    }
}

pub open spec fn texts(parts: Seq<String>) -> Seq<Seq<char>> {
    parts.map_values(|s: String| s@)
}

/// The device fingerprint from its hardware identifiers: hex SHA-256 of the
/// identifiers joined with `|`; an error when there are none.
pub fn fingerprint_from_parts(parts: &Vec<String>) -> (res: Result<String, String>)
    ensures
        parts@.len() == 0 <==> res is Err,
        res matches Err(e) ==> e@ == "no hardware ids"@,
        res matches Ok(f) ==> f@ == hex_text(spec_sha256(encode_utf8(joined(texts(parts@))))),
        res matches Ok(f) ==> f@.len() == 64,
{
    if parts.len() == 0 {
        return Err(String::from_str("no hardware ids"));
    }
    let mut all = parts[0].clone();
    let mut i: usize = 1;
    proof {
        assert(texts(parts@).subrange(0, 1) =~= seq![parts@[0]@]);
    }
    while i < parts.len()
        invariant
            1 <= i <= parts@.len(),
            all@ == joined(texts(parts@).subrange(0, i as int)),
        decreases parts@.len() - i,
    {
        string_push(&mut all, '|');
        all.append(parts[i].as_str());
        proof {
            let t = texts(parts@);
            assert(t.subrange(0, i + 1).drop_last() =~= t.subrange(0, i as int));
        }
        i = i + 1;
    }
    proof {
        assert(texts(parts@).subrange(0, parts@.len() as int) =~= texts(parts@));
    }
    let digest = sha256(all.as_str().as_bytes());
    Ok(hex_encode(digest.as_slice()))
}

} // verus!
