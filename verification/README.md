# knockd_client

Client logic for opening firewalled services before connecting to them, either
with a port-knock sequence (UDP/TCP packets in order) or with a KnockPass single
packet authorization (an HMAC-signed JSON packet sealed with AES-256-GCM and sent
to a port that rotates every minute), then launching an SSH client or a browser.

Layout:

- `src/` — the library, verified with Verus.
  - `knock.rs`: checking port lists and planning knock sequences.
  - `knockpass.rs`, `json.rs`: the SPA packet, the rotating port, the target host,
    site lookup and browser requests.
  - `crypto_store.rs`: values sealed at rest under a device-derived key.
  - `launcher.rs`, `commands.rs`: which SSH clients are offered and which command
    opens a session or a URL; the decisions of "knock and connect".
  - `native.rs`: native messaging framing and start-up modes.
  - `crypto.rs`, `hexcodec.rs`, `text.rs`: the primitives the above build on
    (SHA-256, HMAC, AES-GCM, randomness, hex, decimal text, string helpers).
- `app/` — the program around it: the SQLite database, the keyring, files,
  sockets, processes and the native messaging loop.
- `tests/` — tests of the library on concrete values.
