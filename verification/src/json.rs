//! JSON text of the authorization packet: strings escaped as `serde_json`
//! writes them, fields in declaration order, no whitespace.

use vstd::prelude::*;
use crate::hexcodec::hex_digit;
use crate::text::{chars_of, decimal_signed, i64_to_decimal, string_push};

verus! {

/// How one character is written inside a JSON string: `"` and `\` escaped with a
/// backslash; backspace, tab, newline, form feed and carriage return as `\b \t \n
/// \f \r`; other control characters below 0x20 as `\u00XX` (lowercase hex); every
/// other character as itself.
pub open spec fn json_escape_char(c: char) -> Seq<char> {
    if c == '"' {
        seq!['\\', '"']
    } else if c == '\\' {
        seq!['\\', '\\']
    } else if c == '\u{8}' {
        seq!['\\', 'b']
    } else if c == '\t' {
        seq!['\\', 't']
    } else if c == '\n' {
        seq!['\\', 'n']
    } else if c == '\u{c}' {
        seq!['\\', 'f']
    } else if c == '\r' {
        seq!['\\', 'r']
    } else if (c as u32) < 0x20 {
        seq!['\\', 'u', '0', '0', hex_digit(((c as u32) / 16) as nat), hex_digit(((c as u32) % 16) as nat)]
    } else {
        seq![c]
    }
}

/// The escaped contents of a JSON string.
pub open spec fn json_escaped(s: Seq<char>) -> Seq<char>
    decreases s.len(),
{
    if s.len() == 0 {
        seq![]
    } else {
        json_escaped(s.drop_last()) + json_escape_char(s.last())
    }
}

/// A JSON string literal holding `s`.
pub open spec fn json_quoted(s: Seq<char>) -> Seq<char> {
    seq!['"'] + json_escaped(s) + seq!['"']
}

fn push_hex_digit(out: &mut String, v: u32)
    requires
        v < 16,
    ensures
        final(out)@ == old(out)@.push(hex_digit(v as nat)),
{
    let b: u8 = v as u8;
    if b < 10 {
        string_push(out, (48u8 + b) as char);
    } else {
        string_push(out, (87u8 + b) as char);
    }
}

/// Appends one character as it is written inside a JSON string.
fn push_json_char(out: &mut String, c: char)
    ensures
        final(out)@ == old(out)@ + json_escape_char(c),
{
    let ghost start = out@;
    if c == '"' {
        string_push(out, '\\');
        string_push(out, '"');
    } else if c == '\\' {
        string_push(out, '\\');
        string_push(out, '\\');
    } else if c == '\u{8}' {
        string_push(out, '\\');
        string_push(out, 'b');
    } else if c == '\t' {
        string_push(out, '\\');
        string_push(out, 't');
    } else if c == '\n' {
        string_push(out, '\\');
        string_push(out, 'n');
    } else if c == '\u{c}' {
        string_push(out, '\\');
        string_push(out, 'f');
    } else if c == '\r' {
        string_push(out, '\\');
        string_push(out, 'r');
    } else if (c as u32) < 0x20 {
        let v = c as u32;
        string_push(out, '\\');
        string_push(out, 'u');
        string_push(out, '0');
        string_push(out, '0');
        push_hex_digit(out, v / 16);
        push_hex_digit(out, v % 16);
    } else {
        string_push(out, c);
    }
    assert(out@ =~= start + json_escape_char(c));
}

/// Appends `s` as a JSON string literal.
pub fn push_json_string(out: &mut String, s: &str)
    ensures
        final(out)@ == old(out)@ + json_quoted(s@),
{
    let ghost start = out@;
    let cs = chars_of(s);
    string_push(out, '"');
    let mut i: usize = 0;
    while i < cs.len()
        invariant
            cs@ == s@,
            i <= cs@.len(),
            out@ == start + seq!['"'] + json_escaped(cs@.subrange(0, i as int)),
        decreases cs@.len() - i,
    {
        push_json_char(out, cs[i]);
        proof {
            assert(cs@.subrange(0, i + 1).drop_last() =~= cs@.subrange(0, i as int));
        }
        i = i + 1;
    }
    string_push(out, '"');
    proof {
        assert(cs@.subrange(0, cs@.len() as int) =~= s@);
        assert(out@ =~= start + json_quoted(s@));
    }
}

/// The JSON text of an authorization packet (version 1).
pub open spec fn auth_packet_text(
    site_id: Seq<char>,
    timestamp: int,
    nonce: Seq<char>,
    user: Seq<char>,
    target: Seq<char>,
    signature: Seq<char>,
) -> Seq<char> {
    "{\"version\":1,\"site_id\":"@ + json_quoted(site_id) + ",\"timestamp\":"@ + decimal_signed(timestamp)
        + ",\"nonce\":"@ + json_quoted(nonce) + ",\"user\":"@ + json_quoted(user) + ",\"target\":"@
        + json_quoted(target) + ",\"signature\":"@ + json_quoted(signature) + "}"@
}

/// The JSON text of an authorization packet: version 1, the site, the time, the
/// nonce, the user, the target and the signature, in this order.
pub fn auth_packet_json(
    site_id: &str,
    timestamp: i64,
    nonce: &str,
    user: &str,
    target: &str,
    signature: &str,
) -> (res: String)
    ensures
        res@ == auth_packet_text(site_id@, timestamp as int, nonce@, user@, target@, signature@),
{
    let mut out = String::from_str("{\"version\":1,\"site_id\":");
    push_json_string(&mut out, site_id);
    out.append(",\"timestamp\":");
    let ts = i64_to_decimal(timestamp);
    out.append(ts.as_str());
    out.append(",\"nonce\":");
    push_json_string(&mut out, nonce);
    out.append(",\"user\":");
    push_json_string(&mut out, user);
    out.append(",\"target\":");
    push_json_string(&mut out, target);
    out.append(",\"signature\":");
    push_json_string(&mut out, signature);
    out.append("}");
    out
}

/// Each character takes at most six characters inside a JSON string.
pub proof fn lemma_json_escaped_len(s: Seq<char>)
    ensures
        json_escaped(s).len() <= 6 * s.len(),
    decreases s.len(),
{
    if s.len() > 0 {
        lemma_json_escaped_len(s.drop_last());
    }
}

/// The packet text is at most a fixed overhead, six characters per character of
/// its text fields, and the digits of the time.
pub proof fn lemma_auth_packet_text_len(
    site_id: Seq<char>,
    timestamp: int,
    nonce: Seq<char>,
    user: Seq<char>,
    target: Seq<char>,
    signature: Seq<char>,
)
    ensures
        auth_packet_text(site_id, timestamp, nonce, user, target, signature).len() <= 200 + 6 * (site_id.len()
            + nonce.len() + user.len() + target.len() + signature.len()) + decimal_signed(timestamp).len(),
{
    reveal_strlit("{\"version\":1,\"site_id\":");
    reveal_strlit(",\"timestamp\":");
    reveal_strlit(",\"nonce\":");
    reveal_strlit(",\"user\":");
    reveal_strlit(",\"target\":");
    reveal_strlit(",\"signature\":");
    reveal_strlit("}");
    lemma_json_escaped_len(site_id);
    lemma_json_escaped_len(nonce);
    lemma_json_escaped_len(user);
    lemma_json_escaped_len(target);
    lemma_json_escaped_len(signature);
}

} // verus!
