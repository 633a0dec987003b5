//! Framing of the browser's native messaging: a 32-bit length in the machine's
//! byte order, then the JSON message.

use vstd::prelude::*;
use crate::text::{starts_with, starts_with_text, str_eq};

verus! {

/// The largest message accepted from the browser, in bytes (1 MiB).
pub const MAX_MESSAGE_LEN: u32 = 1048576;

/// The four bytes of `n`, least significant first.
pub open spec fn le_bytes(n: u32) -> Seq<u8> {
    seq![(n % 256) as u8, ((n / 256) % 256) as u8, ((n / 65536) % 256) as u8, (n / 16777216) as u8]
}

/// The four bytes of `n`, most significant first.
pub open spec fn be_bytes(n: u32) -> Seq<u8> {
    seq![(n / 16777216) as u8, ((n / 65536) % 256) as u8, ((n / 256) % 256) as u8, (n % 256) as u8]
}

/// Whether `h` holds `n` in one of the two byte orders a machine can have.
pub open spec fn length_header(h: Seq<u8>, n: u32) -> bool {
    h == le_bytes(n) || h == be_bytes(n)
}

/// `u32::to_ne_bytes`: the four bytes of `n` in the machine's native byte order,
/// which is little-endian or big-endian; which of the two is left unsaid, as it
/// depends on the machine.
#[verifier::external_body]
pub fn u32_to_ne_bytes(n: u32) -> (res: Vec<u8>)
    ensures
        res@.len() == 4,
        length_header(res@, n),
{
    n.to_ne_bytes().to_vec()
}

/// `u32::from_ne_bytes`: the value of four bytes read in the machine's native
/// byte order, which is little-endian or big-endian; which of the two is left
/// unsaid, as it depends on the machine.
#[verifier::external_body]
pub fn u32_from_ne_bytes(bytes: [u8; 4]) -> (res: u32)
    ensures
        length_header(bytes@, res),
{
    u32::from_ne_bytes(bytes)
}

/// The length announced by the four-byte header of a message from the browser
/// (in the machine's byte order), or the message that it is too long. Which
/// reading of the bytes applies is the machine's; when both readings are within
/// the limit the length is accepted.
pub fn message_length(header: [u8; 4]) -> (res: Result<usize, String>)
    ensures
        res matches Ok(n) ==> n <= MAX_MESSAGE_LEN && length_header(header@, n as u32),
        res matches Err(m) ==> m@ == "msg too large"@ && exists|n: u32| #[trigger] length_header(header@, n) && n
            > MAX_MESSAGE_LEN,
        (forall|n: u32| #[trigger] length_header(header@, n) ==> n <= MAX_MESSAGE_LEN) ==> res is Ok,
{
    let n = u32_from_ne_bytes(header);
    check_message_length(n)
}

/// The length announced by a message header, or the message that it is too long.
pub fn check_message_length(len: u32) -> (res: Result<usize, String>)
    ensures
        len <= MAX_MESSAGE_LEN ==> res == Ok::<usize, String>(len as usize),
        len > MAX_MESSAGE_LEN ==> (res matches Err(m) && m@ == "msg too large"@),
{
    if len > MAX_MESSAGE_LEN {
        Err(String::from_str("msg too large"))
    } else {
        Ok(len as usize)
    }
}

/// The frame of a reply: the length of `data` (truncated to 32 bits) in the
/// machine's byte order, then `data`.
pub fn frame_message(data: &[u8]) -> (res: Vec<u8>)
    ensures
        res@.len() == 4 + data@.len(),
        length_header(res@.subrange(0, 4), data@.len() as u32),
        res@.subrange(4, res@.len() as int) == data@,
{
    let len: u32 = data.len() as u32;
    let mut out = u32_to_ne_bytes(len);
    let ghost header = out@;
    out.extend_from_slice(data);
    proof {
        assert(out@.subrange(0, 4) =~= header);
        assert(out@.subrange(4, out@.len() as int) =~= data@);
    }
    out
}

/// How the program was started.
#[derive(Debug, Clone, Copy, PartialEq, Eq)]
pub enum LaunchMode {
    /// `--activate` as first argument: print the device fingerprint.
    Activate,
    /// Started by the browser (an argument names a `chrome-extension://` origin):
    /// serve native messaging.
    NativeHost,
    /// The desktop interface.
    Gui,
}

pub open spec fn is_activation(args: Seq<String>) -> bool {
    args.len() > 1 && args[1]@ == "--activate"@
}

pub open spec fn from_browser(args: Seq<String>) -> bool {
    exists|i: int| 0 <= i < args.len() && starts_with_text(#[trigger] args[i]@, "chrome-extension://"@)
}

/// The mode the command-line arguments ask for (the program's name first).
pub fn launch_mode(args: &Vec<String>) -> (res: LaunchMode)
    ensures
        is_activation(args@) ==> res == LaunchMode::Activate,
        !is_activation(args@) && from_browser(args@) ==> res == LaunchMode::NativeHost,
        !is_activation(args@) && !from_browser(args@) ==> res == LaunchMode::Gui,
{
    if args.len() > 1 && str_eq(args[1].as_str(), "--activate") {
        return LaunchMode::Activate;
    }
    let mut i: usize = 0;
    while i < args.len()
        invariant
            i <= args@.len(),
            !is_activation(args@),
            forall|j: int| 0 <= j < i ==> !starts_with_text(#[trigger] args@[j]@, "chrome-extension://"@),
        decreases args@.len() - i,
    {
        if starts_with(args[i].as_str(), "chrome-extension://") {
            return LaunchMode::NativeHost;
        }
        i = i + 1;
    }
    LaunchMode::Gui
}

} // verus!
