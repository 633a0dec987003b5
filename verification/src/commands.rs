//! The decisions of "knock and connect": how a connection's port is opened, what
//! is launched afterwards, and which command opens an SSH session with a custom
//! client.

use vstd::prelude::*;
use crate::knock::KnockResult;
use crate::launcher::{
    clients_view, command_view, empty_args, launch_ssh, port_text, push_arg, ssh_command, texts, ClientPaths,
    Launch, LaunchCommand, LinuxTerminals, Platform,
};
use crate::models::{Connection, SshClient};
use crate::text::{
    concat2, concat3, contains, contains_text, decimal, lowercase_text, push_decimal, starts_with_text, str_eq,
    to_lowercase,
};

verus! {

/// The text of an optional string, empty when absent.
pub open spec fn opt_text(o: Option<String>) -> Seq<char> {
    match o {
        Some(s) => s@,
        None => seq![],
    }
}

fn opt_str(o: &Option<String>) -> (res: String)
    ensures
        res@ == opt_text(*o),
{
    match o {
        Some(s) => s.clone(),
        None => String::new(),
    }
}

/// How the port of a connection is opened.
#[derive(Debug)]
pub enum ConnectRoute {
    /// A KnockPass SPA packet to `host` (on `udp_port`, or the rotating port when 0).
    Spa { host: String, udp_port: u16, site_id: String, credential: String, user: String, target: String },
    /// A knock sequence on `host`.
    Knock { host: String, ports_json: String, protocol: String, delay_ms: u64 },
}

/// The route of a connection: KnockPass SPA when its authentication method is
/// `knockpass` (which needs a site and a credential), else a knock sequence.
pub fn connect_route(conn: &Connection) -> (res: Result<ConnectRoute, String>)
    ensures
        conn.auth_method@ == "knockpass"@ ==> match res {
            Err(m) => (opt_text(conn.spa_site_id).len() == 0 || opt_text(conn.spa_credential).len() == 0)
                && m@ == "KnockPass SPA requires site_id and credential"@,
            Ok(ConnectRoute::Spa { host, udp_port, site_id, credential, user, target }) => {
                &&& opt_text(conn.spa_site_id).len() != 0 && opt_text(conn.spa_credential).len() != 0
                &&& host@ == conn.host@ && target@ == conn.host@
                &&& udp_port == (match conn.spa_udp_port { Some(p) => p, None => 0u16 })
                &&& site_id@ == opt_text(conn.spa_site_id) && credential@ == opt_text(conn.spa_credential)
                &&& user@ == opt_text(conn.username)
            },
            Ok(_) => false,
        },
        conn.auth_method@ != "knockpass"@ ==> match res {
            Ok(ConnectRoute::Knock { host, ports_json, protocol, delay_ms }) => {
                &&& host@ == conn.host@ && ports_json@ == conn.knock_ports@ && protocol@ == conn.knock_protocol@
                &&& delay_ms == conn.knock_delay_ms as u64
            },
            _ => false,
        },
{
    if str_eq(conn.auth_method.as_str(), "knockpass") {
        let site_id = opt_str(&conn.spa_site_id);
        let credential = opt_str(&conn.spa_credential);
        if site_id.as_str().unicode_len() == 0 || credential.as_str().unicode_len() == 0 {
            return Err(String::from_str("KnockPass SPA requires site_id and credential"));
        }
        let udp_port: u16 = match conn.spa_udp_port {
            Some(p) => p,
            None => 0,
        };
        Ok(ConnectRoute::Spa {
            host: conn.host.clone(),
            udp_port,
            site_id,
            credential,
            user: opt_str(&conn.username),
            target: conn.host.clone(),
        })
    } else {
        Ok(ConnectRoute::Knock {
            host: conn.host.clone(),
            ports_json: conn.knock_ports.clone(),
            protocol: conn.knock_protocol.clone(),
            delay_ms: conn.knock_delay_ms as u64,
        })
    }
}

/// What follows once the port is open.
#[derive(Debug)]
pub enum NextStep {
    /// Nothing more: report this.
    Finish(String),
    /// Open `url`; the report is `prefix`, ` | ` and the launch report.
    OpenUrl { url: String, prefix: String },
    /// Open an SSH session with `client`; the report is the knock report, ` | ` and
    /// the launch report.
    LaunchSsh { client: String, knock_message: String },
}

/// After an SPA knock that reported `spa_message`: an SSH connection launches its
/// client (`auto` when none is set), a web connection opens its launch URI (else
/// its host); any other connection is done.
pub fn after_spa(conn: &Connection, spa_message: String) -> (res: NextStep)
    ensures
        conn.conn_type@ == "ssh"@ ==> (res matches NextStep::LaunchSsh { client, knock_message }
            && knock_message@ == spa_message@
            && client@ == (match conn.ssh_client { Some(c) => c@, None => "auto"@ })),
        conn.conn_type@ == "web"@ ==> (res matches NextStep::OpenUrl { url, prefix } && prefix@ == spa_message@
            && url@ == (match conn.launch_uri { Some(u) => u@, None => conn.host@ })),
        conn.conn_type@ != "ssh"@ && conn.conn_type@ != "web"@ ==> (res matches NextStep::Finish(m)
            && m@ == spa_message@),
{
    proof {
        reveal_strlit("ssh");
        reveal_strlit("web");
        assert("ssh"@[0] != "web"@[0]);
        assert("ssh"@ != "web"@);
    }
    if str_eq(conn.conn_type.as_str(), "ssh") {
        let client = match &conn.ssh_client {
            Some(c) => c.clone(),
            None => String::from_str("auto"),
        };
        NextStep::LaunchSsh { client, knock_message: spa_message }
    } else if str_eq(conn.conn_type.as_str(), "web") {
        let url = match &conn.launch_uri {
            Some(u) => u.clone(),
            None => conn.host.clone(),
        };
        NextStep::OpenUrl { url, prefix: spa_message }
    } else {
        NextStep::Finish(spa_message)
    }
}

/// The URL a web connection opens after a knock: its launch URI, else
/// `https://host` with `:port` when it has one.
pub open spec fn knocked_web_url(conn: Connection) -> Seq<char> {
    match conn.launch_uri {
        Some(u) => u@,
        None => match conn.port {
            Some(p) => "https://"@ + conn.host@ + ":"@ + port_text(p),
            None => "https://"@ + conn.host@,
        },
    }
}

/// A web connection opened after a knock goes to its launch URI, exactly, when it
/// has one; only without one does it go to `https://` and its host, followed by
/// `:` and its port when it has one.
pub proof fn lemma_knocked_web_url_prefers_launch_uri(conn: Connection)
    ensures
        conn.launch_uri matches Some(u) ==> knocked_web_url(conn) == u@,
        conn.launch_uri is None ==> starts_with_text(knocked_web_url(conn), "https://"@ + conn.host@),
        conn.launch_uri is None && conn.port is None ==> knocked_web_url(conn) == "https://"@ + conn.host@,
        conn.launch_uri is None ==> (conn.port matches Some(p) ==> knocked_web_url(conn) == "https://"@ + conn.host@
            + ":"@ + decimal(p as nat)),
{
    if conn.launch_uri is None {
        let h = "https://"@ + conn.host@;
        let u = knocked_web_url(conn);
        assert(u.subrange(0, h.len() as int) =~= h);
    }
}

/// After a knock: a failed knock is reported as the error; an SSH connection
/// launches its client (`auto` when none is set); a web connection opens its URL;
/// any other type is an error.
pub fn after_knock(conn: &Connection, result: KnockResult) -> (res: Result<NextStep, String>)
    ensures
        !result.success ==> (res matches Err(m) && m@ == result.message@),
        result.success && conn.conn_type@ == "ssh"@ ==> (res matches Ok(NextStep::LaunchSsh { client, knock_message })
            && knock_message@ == result.message@
            && client@ == (match conn.ssh_client { Some(c) => c@, None => "auto"@ })),
        result.success && conn.conn_type@ == "web"@ ==> (res matches Ok(NextStep::OpenUrl { url, prefix })
            && prefix@ == result.message@ && url@ == knocked_web_url(*conn)),
        result.success && conn.conn_type@ == "web"@ ==> (res matches Ok(NextStep::OpenUrl { url, .. }) && (
        match conn.launch_uri {
            Some(u) => url@ == u@,
            None => starts_with_text(url@, "https://"@ + conn.host@),
        })),
        result.success && conn.conn_type@ != "ssh"@ && conn.conn_type@ != "web"@ ==> (res matches Err(m)
            && m@ == "Unknown connection type: "@ + conn.conn_type@),
{
    proof {
        reveal_strlit("ssh");
        reveal_strlit("web");
        assert("ssh"@[0] != "web"@[0]);
        assert("ssh"@ != "web"@);
    }
    if !result.success {
        return Err(result.message);
    }
    if str_eq(conn.conn_type.as_str(), "ssh") {
        let client = match &conn.ssh_client {
            Some(c) => c.clone(),
            None => String::from_str("auto"),
        };
        Ok(NextStep::LaunchSsh { client, knock_message: result.message })
    } else if str_eq(conn.conn_type.as_str(), "web") {
        let url = match &conn.launch_uri {
            Some(u) => u.clone(),
            None => match conn.port {
                Some(p) => {
                    let mut s = concat3("https://", conn.host.as_str(), ":");
                    push_decimal(&mut s, p as u64);
                    s
                },
                None => concat2("https://", conn.host.as_str()),
            },
        };
        assert(url@ == knocked_web_url(*conn));
        proof {
            lemma_knocked_web_url_prefers_launch_uri(*conn);
        }
        Ok(NextStep::OpenUrl { url, prefix: result.message })
    } else {
        Err(concat2("Unknown connection type: ", conn.conn_type.as_str()))
    }
}

/// Two reports joined with ` | `.
pub fn join_report(first: &str, second: &str) -> (res: String)
    ensures
        res@ == first@ + " | "@ + second@,
{
    concat3(first, " | ", second)
}

/// The path of the custom client named `client`, the first one by that name.
pub fn custom_client_path(custom: &Vec<SshClient>, client: &str) -> (res: Option<String>)
    ensures
        res is None <==> forall|i: int| 0 <= i < custom@.len() ==> (#[trigger] custom@[i]).name@ != client@,
        res matches Some(p) ==> exists|i: int| {
            &&& 0 <= i < custom@.len()
            &&& (#[trigger] custom@[i]).name@ == client@
            &&& p@ == custom@[i].path@
            &&& forall|j: int| 0 <= j < i ==> (#[trigger] custom@[j]).name@ != client@
        },
{
    let mut i: usize = 0;
    while i < custom.len()
        invariant
            i <= custom@.len(),
            forall|j: int| 0 <= j < i ==> (#[trigger] custom@[j]).name@ != client@,
        decreases custom@.len() - i,
    {
        if str_eq(custom[i].name.as_str(), client) {
            let p = custom[i].path.clone();
            proof {
                assert(custom@[i as int].name@ == client@);
            }
            return Some(p);
        }
        i = i + 1;
    }
    None
}

/// The arguments a custom client gets, chosen by what its lowercased file stem
/// contains: PuTTY/KiTTY style, Xshell/NxShell and MobaXterm URLs, SecureCRT,
/// Bitvise and Termius options, else the `ssh://` URL alone.
pub open spec fn custom_args(stem: Seq<char>, conn: Connection) -> Seq<Seq<char>> {
    let user_host = match conn.username {
        Some(u) => u@ + "@"@ + conn.host@,
        None => conn.host@,
    };
    let port = port_text(match conn.port { Some(p) => p, None => 22u16 });
    let url = "ssh://"@ + user_host + ":"@ + port;
    let user = opt_text(conn.username);
    if contains_text(stem, "putty"@) || contains_text(stem, "kitty"@) {
        seq!["-ssh"@, user_host, "-P"@, port]
    } else if contains_text(stem, "xshell"@) || contains_text(stem, "nxshell"@) {
        seq!["-url"@, url]
    } else if contains_text(stem, "mobaxterm"@) {
        seq!["-newtab"@, url]
    } else if contains_text(stem, "securecrt"@) {
        seq!["/SSH2"@, "/L"@, user, conn.host@, "/P"@, port]
    } else if contains_text(stem, "bitvise"@) {
        seq!["-host"@, conn.host@, "-port"@, port, "-user"@, user]
    } else if contains_text(stem, "termius"@) {
        seq!["ssh"@, user_host]
    } else {
        seq![url]
    }
}

/// `user@host` as a custom client is given it (the host alone without a user).
pub open spec fn custom_user_host(conn: Connection) -> Seq<char> {
    match conn.username {
        Some(u) => u@ + "@"@ + conn.host@,
        None => conn.host@,
    }
}

/// The connection's port in decimal, 22 when it has none.
pub open spec fn custom_port(conn: Connection) -> Seq<char> {
    match conn.port {
        Some(p) => decimal(p as nat),
        None => "22"@,
    }
}

/// `ssh://user@host:port` for a connection.
pub open spec fn custom_url(conn: Connection) -> Seq<char> {
    "ssh://"@ + custom_user_host(conn) + ":"@ + custom_port(conn)
}

/// A custom client's arguments follow the first client family its lowercased
/// file stem names, in the order PuTTY or KiTTY, Xshell (NxShell included),
/// MobaXterm, SecureCRT, Bitvise, Termius; a stem naming none of them gets the
/// `ssh://user@host:port` URL alone.
pub proof fn lemma_custom_args_follow_the_stem(stem: Seq<char>, conn: Connection)
    ensures
        contains_text(stem, "putty"@) || contains_text(stem, "kitty"@) ==> custom_args(stem, conn) == seq![
            "-ssh"@,
            custom_user_host(conn),
            "-P"@,
            custom_port(conn),
        ],
        !contains_text(stem, "putty"@) && !contains_text(stem, "kitty"@) && contains_text(stem, "xshell"@)
            ==> custom_args(stem, conn) == seq!["-url"@, custom_url(conn)],
        !contains_text(stem, "putty"@) && !contains_text(stem, "kitty"@) && !contains_text(stem, "xshell"@)
            && contains_text(stem, "mobaxterm"@) ==> custom_args(stem, conn) == seq!["-newtab"@, custom_url(conn)],
        !contains_text(stem, "putty"@) && !contains_text(stem, "kitty"@) && !contains_text(stem, "xshell"@)
            && !contains_text(stem, "mobaxterm"@) && contains_text(stem, "securecrt"@) ==> custom_args(stem, conn)
            == seq!["/SSH2"@, "/L"@, opt_text(conn.username), conn.host@, "/P"@, custom_port(conn)],
        !contains_text(stem, "putty"@) && !contains_text(stem, "kitty"@) && !contains_text(stem, "xshell"@)
            && !contains_text(stem, "mobaxterm"@) && !contains_text(stem, "securecrt"@) && contains_text(
            stem,
            "bitvise"@,
        ) ==> custom_args(stem, conn) == seq![
            "-host"@,
            conn.host@,
            "-port"@,
            custom_port(conn),
            "-user"@,
            opt_text(conn.username),
        ],
        !contains_text(stem, "putty"@) && !contains_text(stem, "kitty"@) && !contains_text(stem, "xshell"@)
            && !contains_text(stem, "mobaxterm"@) && !contains_text(stem, "securecrt"@) && !contains_text(
            stem,
            "bitvise"@,
        ) && contains_text(stem, "termius"@) ==> custom_args(stem, conn) == seq!["ssh"@, custom_user_host(conn)],
        !contains_text(stem, "putty"@) && !contains_text(stem, "kitty"@) && !contains_text(stem, "xshell"@)
            && !contains_text(stem, "mobaxterm"@) && !contains_text(stem, "securecrt"@) && !contains_text(
            stem,
            "bitvise"@,
        ) && !contains_text(stem, "termius"@) ==> custom_args(stem, conn) == seq![custom_url(conn)],
{
    lemma_nxshell_names_xshell(stem);
    if conn.port is None {
        assert(decimal(22) =~= "22"@) by {
            reveal_strlit("22");
            assert(decimal(2) == seq!['2']);
        }
    }
}

/// A stem that names NxShell names Xshell too.
proof fn lemma_nxshell_names_xshell(stem: Seq<char>)
    ensures
        contains_text(stem, "nxshell"@) ==> contains_text(stem, "xshell"@),
{
    if contains_text(stem, "nxshell"@) {
        reveal_strlit("nxshell");
        reveal_strlit("xshell");
        let i = choose|i: int| 0 <= i && i + "nxshell"@.len() <= stem.len() && #[trigger] stem.subrange(i, i + "nxshell"@.len()) == "nxshell"@;
        assert(stem.subrange(i + 1, i + 1 + "xshell"@.len()) =~= "xshell"@) by {
            assert forall|k: int| 0 <= k < 6 implies stem.subrange(i + 1, i + 7)[k] == "xshell"@[k] by {
                assert(stem.subrange(i, i + 7)[k + 1] == "nxshell"@[k + 1]);
            }
        }
    }
}

/// The launch of the custom client `client` at `path`, whose file stem is `stem`.
pub fn custom_ssh_launch(client: &str, path: &str, stem: &str, conn: &Connection) -> (res: Launch)
    ensures
        command_view(res.command) == (path@, custom_args(lowercase_text(stem@), *conn), "Failed to launch "@ + client@ + ": "@, false),
        res.message@ == "Launched "@ + client@ + " (custom)"@,
{
    let name = to_lowercase(stem);
    let n = name.as_str();
    let user_host = match &conn.username {
        Some(u) => concat3(u.as_str(), "@", conn.host.as_str()),
        None => conn.host.clone(),
    };
    let port_num: u16 = match conn.port {
        Some(p) => p,
        None => 22,
    };
    let mut port = String::new();
    push_decimal(&mut port, port_num as u64);
    let mut url = concat3("ssh://", user_host.as_str(), ":");
    url.append(port.as_str());
    let user = opt_str(&conn.username);
    let ghost expected = custom_args(lowercase_text(stem@), *conn);
    let mut args = empty_args();
    if contains(n, "putty") || contains(n, "kitty") {
        push_arg(&mut args, String::from_str("-ssh"));
        push_arg(&mut args, user_host);
        push_arg(&mut args, String::from_str("-P"));
        push_arg(&mut args, port);
    } else if contains(n, "xshell") || contains(n, "nxshell") {
        push_arg(&mut args, String::from_str("-url"));
        push_arg(&mut args, url);
    } else if contains(n, "mobaxterm") {
        push_arg(&mut args, String::from_str("-newtab"));
        push_arg(&mut args, url);
    } else if contains(n, "securecrt") {
        push_arg(&mut args, String::from_str("/SSH2"));
        push_arg(&mut args, String::from_str("/L"));
        push_arg(&mut args, user);
        push_arg(&mut args, conn.host.clone());
        push_arg(&mut args, String::from_str("/P"));
        push_arg(&mut args, port);
    } else if contains(n, "bitvise") {
        push_arg(&mut args, String::from_str("-host"));
        push_arg(&mut args, conn.host.clone());
        push_arg(&mut args, String::from_str("-port"));
        push_arg(&mut args, port);
        push_arg(&mut args, String::from_str("-user"));
        push_arg(&mut args, user);
    } else if contains(n, "termius") {
        push_arg(&mut args, String::from_str("ssh"));
        push_arg(&mut args, user_host);
    } else {
        push_arg(&mut args, url);
    }
    assert(texts(args@) =~~= expected);
    let mut prefix = concat3("Failed to launch ", client, ": ");
    let command = LaunchCommand { program: String::from_str(path), args, error_prefix: prefix, no_window: false };
    Launch { command, message: concat3("Launched ", client, " (custom)") }
}

/// Whether `c` separates path components: `/` everywhere, and `\` too when
/// `windows`.
pub open spec fn is_path_sep(c: char, windows: bool) -> bool {
    c == '/' || (windows && c == '\\')
}

/// The part of `path` after its last separator (all of it when it has none).
pub open spec fn last_segment(path: Seq<char>, windows: bool) -> Seq<char>
    decreases path.len(),
{
    if path.len() == 0 {
        path
    } else if is_path_sep(path.last(), windows) {
        seq![]
    } else {
        last_segment(path.drop_last(), windows).push(path.last())
    }
}

/// The final component of `path` when it is a name (`Path::file_name`): the last
/// segment between separators once empty segments (repeated or trailing
/// separators) and `.` segments are passed over; none when there is no segment
/// left or the last one is `..`.
pub open spec fn final_name(path: Seq<char>, windows: bool) -> Option<Seq<char>>
    decreases path.len(),
{
    let seg = last_segment(path, windows);
    if path.len() == 0 {
        None
    } else if seg.len() == 0 || seg == "."@ {
        if seg.len() < path.len() {
            final_name(path.subrange(0, path.len() - seg.len() - 1), windows)
        } else {
            None
        }
    } else if seg == ".."@ {
        None
    } else {
        Some(seg)
    }
}

/// `path` without a leading drive prefix (an ASCII letter and `:`).
pub open spec fn without_drive(path: Seq<char>) -> Seq<char> {
    if path.len() >= 2 && path[1] == ':' && (('a' <= path[0] <= 'z') || ('A' <= path[0] <= 'Z')) {
        path.subrange(2, path.len() as int)
    } else {
        path
    }
}

/// Whether `path` begins with two separators, as Windows UNC, device and verbatim
/// prefixes do.
pub open spec fn double_sep_prefix(path: Seq<char>) -> bool {
    path.len() >= 2 && is_path_sep(path[0], true) && is_path_sep(path[1], true)
}

/// The index of the last `.` in `name`, or -1 when it has none.
pub open spec fn last_dot(name: Seq<char>) -> int
    decreases name.len(),
{
    if name.len() == 0 {
        -1
    } else if name.last() == '.' {
        name.len() - 1
    } else {
        last_dot(name.drop_last())
    }
}

/// The stem of a file name as `Path::file_stem` documents it: the whole name when
/// it has no `.` or only a leading one, else the part before its last `.`.
pub open spec fn name_stem(name: Seq<char>) -> Seq<char> {
    if last_dot(name) >= 1 {
        name.subrange(0, last_dot(name))
    } else {
        name
    }
}

/// The stem of an optional file name, empty when there is none.
pub open spec fn stem_of(name: Option<Seq<char>>) -> Seq<char> {
    match name {
        Some(n) => name_stem(n),
        None => seq![],
    }
}

/// The file stem of `path` on Unix: components separated by `/` only.
pub open spec fn unix_file_stem(path: Seq<char>) -> Seq<char> {
    stem_of(final_name(path, false))
}

/// The file stem of `path` on Windows, for a path without a two-separator prefix:
/// an optional drive prefix, then components separated by `/` or `\`.
pub open spec fn windows_file_stem(path: Seq<char>) -> Seq<char> {
    stem_of(final_name(without_drive(path), true))
}

/// What `Path::file_stem` may give for `path`: a part of the path that is its Unix
/// reading or its Windows reading (the latter left open when the path begins with
/// two separators).
pub open spec fn possible_file_stem(path: Seq<char>, stem: Seq<char>) -> bool {
    &&& contains_text(path, stem)
    &&& (stem == unix_file_stem(path) || double_sep_prefix(path) || stem == windows_file_stem(path))
}

/// The file stem of a path (`Path::file_stem`, empty when it has none). Per the
/// `std::path` documentation, a path splits at `/` on Unix and at `/` or `\` on
/// Windows, where it may first carry a prefix (a drive such as `C:`, or one that
/// begins with two separators); `Path::file_name` is the final component once
/// repeated separators, `.` components and a trailing separator are normalized
/// away, none for `..`; `file_stem` is that name's stem. The stem is one of the
/// two readings, which one depending on the platform the program was built for.
/// For a path that begins with two separators, the Windows reading (UNC, device
/// and verbatim prefixes) is left unsaid beyond the stem being a part of the path.
#[verifier::external_body]
pub fn file_stem_of(path: &str) -> (res: String)
    ensures
        possible_file_stem(path@, res@),
{
    std::path::Path::new(path).file_stem().and_then(|s| s.to_str()).unwrap_or("").to_string()
}

/// Opens an SSH session for a knocked connection: with the custom client of that
/// name when one is configured, else with the built-in launcher on port 22 unless
/// the connection has its own port.
pub fn launch_ssh_or_custom(
    platform: Platform,
    client: &str,
    conn: &Connection,
    custom: &Vec<SshClient>,
    paths: &ClientPaths,
    terms: LinuxTerminals,
) -> (res: Result<Launch, String>)
    ensures
        (forall|i: int| 0 <= i < custom@.len() ==> (#[trigger] custom@[i]).name@ != client@) ==> match res {
            Ok(l) => ssh_command(platform, client@, conn.host@, match conn.port { Some(p) => p, None => 22u16 }, opt_text(conn.username), *paths, terms)
                == Ok::<(Seq<char>, Seq<Seq<char>>, Seq<char>, bool), Seq<char>>(command_view(l.command))
                && l.message@ == "Launched "@ + client@ + " connection to "@ + conn.host@,
            Err(m) => ssh_command(platform, client@, conn.host@, match conn.port { Some(p) => p, None => 22u16 }, opt_text(conn.username), *paths, terms)
                == Err::<(Seq<char>, Seq<Seq<char>>, Seq<char>, bool), Seq<char>>(m@),
        },
        (exists|i: int| 0 <= i < custom@.len() && (#[trigger] custom@[i]).name@ == client@) ==> (res matches Ok(l) && exists|i: int, stem: Seq<char>|
            #![trigger custom@[i], lowercase_text(stem)]
            {
            &&& 0 <= i < custom@.len()
            &&& custom@[i].name@ == client@
            &&& possible_file_stem(custom@[i].path@, stem)
            &&& forall|j: int| 0 <= j < i ==> (#[trigger] custom@[j]).name@ != client@
            &&& command_view(l.command) == (custom@[i].path@, custom_args(lowercase_text(stem), *conn), "Failed to launch "@ + client@ + ": "@, false)
            &&& l.message@ == "Launched "@ + client@ + " (custom)"@
        }),
{
    match custom_client_path(custom, client) {
        Some(path) => {
            let stem = file_stem_of(path.as_str());
            let l = custom_ssh_launch(client, path.as_str(), stem.as_str(), conn);
            proof {
                let i = choose|i: int| {
                    &&& 0 <= i < custom@.len()
                    &&& (#[trigger] custom@[i]).name@ == client@
                    &&& path@ == custom@[i].path@
                    &&& forall|j: int| 0 <= j < i ==> (#[trigger] custom@[j]).name@ != client@
                };
                assert(command_view(l.command) == (custom@[i].path@, custom_args(lowercase_text(stem@), *conn), "Failed to launch "@ + client@ + ": "@, false));
            }
            Ok(l)
        },
        None => {
            let port: u16 = match conn.port {
                Some(p) => p,
                None => 22,
            };
            let user = opt_str(&conn.username);
            launch_ssh(platform, client, conn.host.as_str(), port, user.as_str(), paths, terms)
        },
    }
}

pub open spec fn installed_custom(c: SshClient, exists: bool) -> (Seq<char>, Seq<char>, bool) {
    (c.name@, c.path@, c.path@.len() != 0 && exists)
}

/// The detected clients followed by the custom ones, each custom client marked
/// installed when its path is non-empty and exists (`exists[i]`).
pub fn merge_custom_clients(detected: Vec<SshClient>, custom: Vec<SshClient>, exists: &Vec<bool>) -> (res: Vec<SshClient>)
    requires
        exists@.len() == custom@.len(),
    ensures
        clients_view(res@) == clients_view(detected@) + Seq::new(
            custom@.len(),
            |i: int| installed_custom(custom@[i], exists@[i]),
        ),
{
    let mut out = detected;
    let ghost start = clients_view(out@);
    let mut i: usize = 0;
    while i < custom.len()
        invariant
            exists@.len() == custom@.len(),
            i <= custom@.len(),
            clients_view(out@) == start + Seq::new(i as nat, |k: int| installed_custom(custom@[k], exists@[k])),
        decreases custom@.len() - i,
    {
        let c = &custom[i];
        let installed = c.path.as_str().unicode_len() != 0 && exists[i];
        let ghost before = out@;
        out.push(SshClient { name: c.name.clone(), path: c.path.clone(), installed });
        proof {
            assert(clients_view(out@) =~= clients_view(before).push(installed_custom(custom@[i as int], exists@[i as int])));
            assert(Seq::new((i + 1) as nat, |k: int| installed_custom(custom@[k], exists@[k])) =~= Seq::new(
                i as nat,
                |k: int| installed_custom(custom@[k], exists@[k]),
            ).push(installed_custom(custom@[i as int], exists@[i as int])));
        }
        i = i + 1;
    }
    out
}

} // verus!
