//! SSH clients and browsers: which clients are offered, and which program with
//! which arguments opens an SSH session or a URL.

use vstd::prelude::*;
use crate::models::SshClient;
use crate::text::{
    ascii_lowercase, concat2, concat3, decimal, is_ascii_text, lowercase_text, push_decimal, replace_all, replaced,
    str_eq, to_lowercase,
};

verus! {

/// The operating system the client runs on.
#[derive(Debug, Clone, Copy, PartialEq, Eq)]
pub enum Platform {
    Linux,
    MacOs,
    Windows,
}

/// What the installation probes found, per platform: whether a program is on the
/// search path (or installed), or the path of its executable (empty when absent).
#[derive(Debug)]
pub enum ClientProbe {
    Windows {
        wt: bool,
        ssh: bool,
        putty: bool,
        kitty: String,
        mobaxterm: String,
        xshell: String,
        nxshell: String,
        bitvise: String,
        securecrt: String,
        termius: bool,
    },
    MacOs { iterm: bool, termius: bool },
    Linux { ssh: bool, putty: bool, termius: bool },
}

pub open spec fn client_view(c: SshClient) -> (Seq<char>, Seq<char>, bool) {
    (c.name@, c.path@, c.installed)
}

pub open spec fn clients_view(v: Seq<SshClient>) -> Seq<(Seq<char>, Seq<char>, bool)> {
    v.map_values(|c: SshClient| client_view(c))
}

/// The SSH clients offered on each platform, in order: `(name, path, installed)`.
pub open spec fn offered_clients(probe: ClientProbe) -> Seq<(Seq<char>, Seq<char>, bool)> {
    match probe {
        ClientProbe::Windows { wt, ssh, putty, kitty, mobaxterm, xshell, nxshell, bitvise, securecrt, termius } => seq![
            ("Windows Terminal"@, "wt"@, wt),
            ("OpenSSH (ssh)"@, "ssh"@, ssh),
            ("PuTTY"@, "putty"@, putty),
            ("KiTTY"@, kitty@, kitty@.len() != 0),
            ("MobaXterm"@, mobaxterm@, mobaxterm@.len() != 0),
            ("Xshell"@, xshell@, xshell@.len() != 0),
            ("NxShell"@, nxshell@, nxshell@.len() != 0),
            ("Bitvise SSH"@, bitvise@, bitvise@.len() != 0),
            ("SecureCRT"@, securecrt@, securecrt@.len() != 0),
            ("Termius"@, "termius"@, termius),
        ],
        ClientProbe::MacOs { iterm, termius } => seq![
            ("Terminal + ssh"@, "ssh"@, true),
            ("iTerm2"@, "iterm2"@, iterm),
            ("Termius"@, "termius"@, termius),
        ],
        ClientProbe::Linux { ssh, putty, termius } => seq![
            ("OpenSSH (ssh)"@, "ssh"@, ssh),
            ("PuTTY"@, "putty"@, putty),
            ("Termius"@, "termius"@, termius),
        ],
    }
}

/// The clients offered on each platform, by name and in order: on Windows,
/// Windows Terminal, OpenSSH, PuTTY, KiTTY, MobaXterm, Xshell, NxShell, Bitvise SSH,
/// SecureCRT and Termius; on macOS, Terminal with ssh (always there), iTerm2 and
/// Termius; on Linux, OpenSSH, PuTTY and Termius. A client that is found by the
/// path of its executable is installed exactly when that path is not empty, and
/// is offered with that path.
pub proof fn lemma_offered_clients(probe: ClientProbe)
    ensures
        ({
            let v = offered_clients(probe);
            match probe {
                ClientProbe::Windows { wt, ssh, putty, kitty, mobaxterm, xshell, nxshell, bitvise, securecrt, termius } => {
                    &&& v.len() == 10
                    &&& v.map_values(|c: (Seq<char>, Seq<char>, bool)| c.0) == seq![
                        "Windows Terminal"@,
                        "OpenSSH (ssh)"@,
                        "PuTTY"@,
                        "KiTTY"@,
                        "MobaXterm"@,
                        "Xshell"@,
                        "NxShell"@,
                        "Bitvise SSH"@,
                        "SecureCRT"@,
                        "Termius"@,
                    ]
                    &&& v[0].2 == wt && v[1].2 == ssh && v[2].2 == putty && v[9].2 == termius
                    &&& forall|i: int| 3 <= i < 9 ==> (#[trigger] v[i]).2 == (v[i].1.len() != 0)
                    &&& v[3].1 == kitty@ && v[4].1 == mobaxterm@ && v[5].1 == xshell@ && v[6].1 == nxshell@
                        && v[7].1 == bitvise@ && v[8].1 == securecrt@
                },
                ClientProbe::MacOs { iterm, termius } => {
                    &&& v.len() == 3
                    &&& v.map_values(|c: (Seq<char>, Seq<char>, bool)| c.0) == seq!["Terminal + ssh"@, "iTerm2"@, "Termius"@]
                    &&& v[0].2 && v[1].2 == iterm && v[2].2 == termius
                },
                ClientProbe::Linux { ssh, putty, termius } => {
                    &&& v.len() == 3
                    &&& v.map_values(|c: (Seq<char>, Seq<char>, bool)| c.0) == seq!["OpenSSH (ssh)"@, "PuTTY"@, "Termius"@]
                    &&& v[0].2 == ssh && v[1].2 == putty && v[2].2 == termius
                },
            }
        }),
{
    let v = offered_clients(probe);
    assert(v.map_values(|c: (Seq<char>, Seq<char>, bool)| c.0) =~= match probe {
        ClientProbe::Windows { .. } => seq![
            "Windows Terminal"@,
            "OpenSSH (ssh)"@,
            "PuTTY"@,
            "KiTTY"@,
            "MobaXterm"@,
            "Xshell"@,
            "NxShell"@,
            "Bitvise SSH"@,
            "SecureCRT"@,
            "Termius"@,
        ],
        ClientProbe::MacOs { .. } => seq!["Terminal + ssh"@, "iTerm2"@, "Termius"@],
        ClientProbe::Linux { .. } => seq!["OpenSSH (ssh)"@, "PuTTY"@, "Termius"@],
    });
}

fn push_client(v: &mut Vec<SshClient>, name: &str, path: &str, installed: bool)
    ensures
        clients_view(final(v)@) == clients_view(old(v)@).push((name@, path@, installed)),
{
    let ghost before = v@;
    v.push(SshClient { name: String::from_str(name), path: String::from_str(path), installed });
    proof {
        assert(clients_view(v@) =~= clients_view(before).push((name@, path@, installed)));
    }
}

/// The SSH clients of this platform, with what the probes found of each.
pub fn detect_ssh_clients(probe: &ClientProbe) -> (res: Vec<SshClient>)
    ensures
        clients_view(res@) == offered_clients(*probe),
{
    let mut v: Vec<SshClient> = Vec::new();
    proof {
        assert(clients_view(v@) =~= Seq::empty());
    }
    match probe {
        ClientProbe::Windows { wt, ssh, putty, kitty, mobaxterm, xshell, nxshell, bitvise, securecrt, termius } => {
            push_client(&mut v, "Windows Terminal", "wt", *wt);
            push_client(&mut v, "OpenSSH (ssh)", "ssh", *ssh);
            push_client(&mut v, "PuTTY", "putty", *putty);
            push_client(&mut v, "KiTTY", kitty.as_str(), kitty.as_str().unicode_len() != 0);
            push_client(&mut v, "MobaXterm", mobaxterm.as_str(), mobaxterm.as_str().unicode_len() != 0);
            push_client(&mut v, "Xshell", xshell.as_str(), xshell.as_str().unicode_len() != 0);
            push_client(&mut v, "NxShell", nxshell.as_str(), nxshell.as_str().unicode_len() != 0);
            push_client(&mut v, "Bitvise SSH", bitvise.as_str(), bitvise.as_str().unicode_len() != 0);
            push_client(&mut v, "SecureCRT", securecrt.as_str(), securecrt.as_str().unicode_len() != 0);
            push_client(&mut v, "Termius", "termius", *termius);
        },
        ClientProbe::MacOs { iterm, termius } => {
            push_client(&mut v, "Terminal + ssh", "ssh", true);
            push_client(&mut v, "iTerm2", "iterm2", *iterm);
            push_client(&mut v, "Termius", "termius", *termius);
        },
        ClientProbe::Linux { ssh, putty, termius } => {
            push_client(&mut v, "OpenSSH (ssh)", "ssh", *ssh);
            push_client(&mut v, "PuTTY", "putty", *putty);
            push_client(&mut v, "Termius", "termius", *termius);
        },
    }
    proof {
        assert(clients_view(v@) =~= offered_clients(*probe));
    }
    v
}

/// A program to start: its path or name, its arguments, the prefix of the error
/// reported when it does not start, and whether it must start without a window.
#[derive(Debug)]
pub struct LaunchCommand {
    pub program: String,
    pub args: Vec<String>,
    pub error_prefix: String,
    pub no_window: bool,
}

pub open spec fn texts(v: Seq<String>) -> Seq<Seq<char>> {
    v.map_values(|s: String| s@)
}

/// A command as plain text: program, arguments, error prefix, windowless.
pub open spec fn command_view(c: LaunchCommand) -> (Seq<char>, Seq<Seq<char>>, Seq<char>, bool) {
    (c.program@, texts(c.args@), c.error_prefix@, c.no_window)
}

pub fn push_arg(v: &mut Vec<String>, s: String)
    ensures
        texts(final(v)@) == texts(old(v)@).push(s@),
{
    let ghost before = v@;
    v.push(s);
    proof {
        assert(texts(v@) =~= texts(before).push(s@));
    }
}

pub fn empty_args() -> (res: Vec<String>)
    ensures
        texts(res@) == Seq::<Seq<char>>::empty(),
{
    let v: Vec<String> = Vec::new();
    proof {
        assert(texts(v@) =~= Seq::<Seq<char>>::empty());
    }
    v
}

/// Which terminal emulators are installed on Linux.
#[derive(Debug, Clone, Copy)]
pub struct LinuxTerminals {
    pub gnome_terminal: bool,
    pub konsole: bool,
    pub xfce4_terminal: bool,
    pub x_terminal_emulator: bool,
}

pub open spec fn port_text(port: u16) -> Seq<char> {
    decimal(port as nat)
}

/// How `ssh` is run in a terminal when no particular client was chosen: on Linux in
/// the first installed of gnome-terminal, konsole, xfce4-terminal and
/// x-terminal-emulator (else `ssh` itself), on macOS in Terminal through
/// `osascript`, on Windows `ssh` itself.
pub open spec fn terminal_command(platform: Platform, user_host: Seq<char>, port: u16, terms: LinuxTerminals) -> (Seq<char>, Seq<Seq<char>>, Seq<char>, bool) {
    let p = port_text(port);
    match platform {
        Platform::Linux => if terms.gnome_terminal {
            ("gnome-terminal"@, seq!["--"@, "ssh"@, user_host, "-p"@, p], "Failed: "@, false)
        } else if terms.konsole {
            ("konsole"@, seq!["-e"@, "ssh"@, user_host, "-p"@, p], "Failed: "@, false)
        } else if terms.xfce4_terminal {
            ("xfce4-terminal"@, seq!["-e"@, "ssh"@, user_host, "-p"@, p], "Failed: "@, false)
        } else if terms.x_terminal_emulator {
            ("x-terminal-emulator"@, seq!["-e"@, "ssh"@, user_host, "-p"@, p], "Failed: "@, false)
        } else {
            ("ssh"@, seq![user_host, "-p"@, p], "Failed: "@, false)
        },
        Platform::MacOs => (
            "osascript"@,
            seq!["-e"@, "tell application \"Terminal\" to do script \"ssh "@ + user_host + " -p "@ + p + "\""@],
            "Failed: "@,
            false,
        ),
        Platform::Windows => ("ssh"@, seq![user_host, "-p"@, p], "Failed: "@, false),
    }
}

/// The terminals an SSH session is opened in on Linux, in the order they are tried.
pub open spec fn linux_terminal_names() -> Seq<Seq<char>> {
    seq!["gnome-terminal"@, "konsole"@, "xfce4-terminal"@, "x-terminal-emulator"@]
}

/// Which of those terminals are installed, in the same order.
pub open spec fn linux_terminals_installed(terms: LinuxTerminals) -> Seq<bool> {
    seq![terms.gnome_terminal, terms.konsole, terms.xfce4_terminal, terms.x_terminal_emulator]
}

/// On Linux an SSH session runs in the first installed terminal of the order
/// gnome-terminal, konsole, xfce4-terminal, x-terminal-emulator, which is given
/// `ssh user_host -p port` to run (after `--` for gnome-terminal, `-e` for the
/// others); bare `ssh` is started only when none of them is installed. On Windows
/// `ssh` itself is started; on macOS, Terminal through `osascript`.
pub proof fn lemma_linux_session_in_first_installed_terminal(user_host: Seq<char>, port: u16, terms: LinuxTerminals)
    ensures
        forall|i: int|
            #![trigger first_true(linux_terminals_installed(terms), i)]
            first_true(linux_terminals_installed(terms), i) ==> {
                let c = terminal_command(Platform::Linux, user_host, port, terms);
                &&& c.0 == linux_terminal_names()[i]
                &&& c.1 == seq![if i == 0 { "--"@ } else { "-e"@ }, "ssh"@, user_host, "-p"@, decimal(port as nat)]
            },
        (forall|i: int| 0 <= i < 4 ==> !(#[trigger] linux_terminals_installed(terms)[i])) ==> terminal_command(
            Platform::Linux,
            user_host,
            port,
            terms,
        ) == ("ssh"@, seq![user_host, "-p"@, decimal(port as nat)], "Failed: "@, false),
        terminal_command(Platform::Windows, user_host, port, terms) == ("ssh"@, seq![user_host, "-p"@, decimal(port as nat)], "Failed: "@, false),
        terminal_command(Platform::MacOs, user_host, port, terms).0 == "osascript"@,
{
    let inst = linux_terminals_installed(terms);
    assert forall|i: int| #![trigger first_true(inst, i)] first_true(inst, i) implies {
        let c = terminal_command(Platform::Linux, user_host, port, terms);
        &&& c.0 == linux_terminal_names()[i]
        &&& c.1 == seq![if i == 0 { "--"@ } else { "-e"@ }, "ssh"@, user_host, "-p"@, decimal(port as nat)]
    } by {
        if i >= 1 {
            assert(!inst[0]);
        }
        if i >= 2 {
            assert(!inst[1]);
        }
        if i >= 3 {
            assert(!inst[2]);
        }
        assert(terminal_command(Platform::Linux, user_host, port, terms).1 =~= seq![
            if i == 0 { "--"@ } else { "-e"@ },
            "ssh"@,
            user_host,
            "-p"@,
            decimal(port as nat),
        ]);
    }
    if forall|i: int| 0 <= i < 4 ==> !(#[trigger] inst[i]) {
        assert(!inst[0] && !inst[1] && !inst[2] && !inst[3]);
    }
}

fn port_string(port: u16) -> (res: String)
    ensures
        res@ == port_text(port),
{
    let mut s = String::new();
    push_decimal(&mut s, port as u64);
    s
}

/// The terminal command that runs `ssh user_host -p port`.
pub fn launch_terminal_ssh(platform: Platform, user_host: &str, port: u16, terms: LinuxTerminals) -> (res: LaunchCommand)
    ensures
        command_view(res) == terminal_command(platform, user_host@, port, terms),
{
    let mut args = empty_args();
    let program;
    match platform {
        Platform::Linux => {
            if terms.gnome_terminal {
                program = String::from_str("gnome-terminal");
                push_arg(&mut args, String::from_str("--"));
                push_arg(&mut args, String::from_str("ssh"));
            } else {
                program = if terms.konsole {
                    String::from_str("konsole")
                } else if terms.xfce4_terminal {
                    String::from_str("xfce4-terminal")
                } else if terms.x_terminal_emulator {
                    String::from_str("x-terminal-emulator")
                } else {
                    String::from_str("ssh")
                };
                if terms.konsole || terms.xfce4_terminal || terms.x_terminal_emulator {
                    push_arg(&mut args, String::from_str("-e"));
                    push_arg(&mut args, String::from_str("ssh"));
                }
            }
            push_arg(&mut args, String::from_str(user_host));
            push_arg(&mut args, String::from_str("-p"));
            push_arg(&mut args, port_string(port));
        },
        Platform::MacOs => {
            program = String::from_str("osascript");
            push_arg(&mut args, String::from_str("-e"));
            let mut script = concat2("tell application \"Terminal\" to do script \"ssh ", user_host);
            script.append(" -p ");
            script.append(port_string(port).as_str());
            script.append("\"");
            push_arg(&mut args, script);
        },
        Platform::Windows => {
            program = String::from_str("ssh");
            push_arg(&mut args, String::from_str(user_host));
            push_arg(&mut args, String::from_str("-p"));
            push_arg(&mut args, port_string(port));
        },
    }
    let cmd = LaunchCommand { program, args, error_prefix: String::from_str("Failed: "), no_window: false };
    proof {
        assert(command_view(cmd) =~~= terminal_command(platform, user_host@, port, terms));
    }
    cmd
}

/// A program to start and what to report once it started.
#[derive(Debug)]
pub struct Launch {
    pub command: LaunchCommand,
    pub message: String,
}

/// Where the clients that are found by path live (empty when not found).
#[derive(Debug)]
pub struct ClientPaths {
    pub kitty: String,
    pub xshell: String,
    pub mobaxterm: String,
    pub nxshell: String,
    pub bitvise: String,
    pub securecrt: String,
}

/// `user@host`, or the host alone when there is no user name.
pub open spec fn user_at_host(username: Seq<char>, host: Seq<char>) -> Seq<char> {
    if username.len() == 0 {
        host
    } else {
        username + "@"@ + host
    }
}

/// `ssh://{user_host}:{port}`
pub open spec fn ssh_url(user_host: Seq<char>, port: u16) -> Seq<char> {
    "ssh://"@ + user_host + ":"@ + port_text(port)
}

/// A client found by path: its command, or the message that it was not found.
pub open spec fn found_client(path: Seq<char>, missing: Seq<char>, args: Seq<Seq<char>>, prefix: Seq<char>) -> Result<(Seq<char>, Seq<Seq<char>>, Seq<char>, bool), Seq<char>> {
    if path.len() == 0 {
        Err(missing)
    } else {
        Ok((path, args, prefix, false))
    }
}

/// The command that opens an SSH session with the named client (compared
/// lowercased); any other name runs `ssh` in a terminal.
pub open spec fn ssh_command(
    platform: Platform,
    client: Seq<char>,
    host: Seq<char>,
    port: u16,
    username: Seq<char>,
    paths: ClientPaths,
    terms: LinuxTerminals,
) -> Result<(Seq<char>, Seq<Seq<char>>, Seq<char>, bool), Seq<char>> {
    let uh = user_at_host(username, host);
    let p = port_text(port);
    let l = lowercase_text(client);
    if l == "putty"@ {
        Ok(("putty"@, seq!["-ssh"@, uh, "-P"@, p], "Failed to launch PuTTY: "@, false))
    } else if l == "kitty"@ {
        found_client(paths.kitty@, "KiTTY not found"@, seq!["-ssh"@, uh, "-P"@, p], "Failed to launch KiTTY: "@)
    } else if l == "xshell"@ {
        found_client(paths.xshell@, "Xshell not found"@, seq!["-url"@, ssh_url(uh, port)], "Failed to launch Xshell: "@)
    } else if l == "mobaxterm"@ {
        found_client(paths.mobaxterm@, "MobaXterm not found"@, seq!["-newtab"@, ssh_url(uh, port)], "Failed to launch MobaXterm: "@)
    } else if l == "nxshell"@ {
        found_client(paths.nxshell@, "NxShell not found"@, seq![ssh_url(uh, port)], "Failed to launch NxShell: "@)
    } else if l == "bitvise ssh"@ || l == "bitvise"@ {
        found_client(
            paths.bitvise@,
            "Bitvise SSH not found"@,
            seq!["-host="@ + host, "-port="@ + p, "-user="@ + username],
            "Failed to launch Bitvise: "@,
        )
    } else if l == "securecrt"@ {
        found_client(
            paths.securecrt@,
            "SecureCRT not found"@,
            seq!["/SSH2"@, "/L"@, username, host, "/P"@, p],
            "Failed to launch SecureCRT: "@,
        )
    } else if l == "termius"@ {
        Ok(("termius"@, seq!["ssh"@, uh], "Failed to launch Termius: "@, false))
    } else if l == "windows terminal"@ || l == "wt"@ {
        Ok(("wt"@, seq!["ssh"@, uh, "-p"@, p], "Failed to launch Windows Terminal: "@, false))
    } else {
        Ok(terminal_command(platform, uh, port, terms))
    }
}

/// Client names are matched without regard to case: two names with the same
/// lowercase mapping give the same command, or the same error.
pub proof fn lemma_same_lowercase_same_command(
    platform: Platform,
    c1: Seq<char>,
    c2: Seq<char>,
    host: Seq<char>,
    port: u16,
    username: Seq<char>,
    paths: ClientPaths,
    terms: LinuxTerminals,
)
    requires
        lowercase_text(c1) == lowercase_text(c2),
    ensures
        ssh_command(platform, c1, host, port, username, paths, terms) == ssh_command(
            platform,
            c2,
            host,
            port,
            username,
            paths,
            terms,
        ),
{
}

/// An ASCII client name and its lowercase give the same command, or the same
/// error: lowercasing ASCII text a second time changes nothing.
pub proof fn lemma_lowercase_name_same_command(
    platform: Platform,
    client: Seq<char>,
    host: Seq<char>,
    port: u16,
    username: Seq<char>,
    paths: ClientPaths,
    terms: LinuxTerminals,
)
    requires
        is_ascii_text(client),
    ensures
        ssh_command(platform, lowercase_text(client), host, port, username, paths, terms) == ssh_command(
            platform,
            client,
            host,
            port,
            username,
            paths,
            terms,
        ),
{
    let l = ascii_lowercase(client);
    assert forall|i: int| 0 <= i < l.len() implies (l[i] as u32) < 128 by {
        assert((client[i] as u32) < 128);
    }
    assert(ascii_lowercase(l) =~= l);
    lemma_same_lowercase_same_command(platform, lowercase_text(client), client, host, port, username, paths, terms);
}

/// Whether `i` is the first index at which `s` holds.
pub open spec fn first_true(s: Seq<bool>, i: int) -> bool {
    0 <= i < s.len() && s[i] && forall|j: int| 0 <= j < i ==> !(#[trigger] s[j])
}

/// Whether `i` is the first index at which `s` holds a value.
pub open spec fn first_some(s: Seq<Option<String>>, i: int) -> bool {
    0 <= i < s.len() && s[i] is Some && forall|j: int| 0 <= j < i ==> (#[trigger] s[j]) is None
}

/// Where a client is found among its candidate paths: the first candidate (with
/// its environment variables expanded, `expanded[i]`) that exists (`exists[i]`);
/// else the first match of a wildcard candidate (`matches[i]`, the first path that
/// candidate matched, when it has a wildcard); else empty.
pub fn found_path(expanded: &Vec<String>, exists: &Vec<bool>, matches: &Vec<Option<String>>) -> (res: String)
    requires
        exists@.len() == expanded@.len(),
        matches@.len() == expanded@.len(),
    ensures
        forall|i: int| first_true(exists@, i) ==> res@ == expanded@[i]@,
        (forall|i: int| 0 <= i < exists@.len() ==> !(#[trigger] exists@[i])) ==> forall|i: int|
            first_some(matches@, i) ==> res@ == matches@[i]->Some_0@,
        (forall|i: int| 0 <= i < exists@.len() ==> !(#[trigger] exists@[i])) && (forall|i: int|
            0 <= i < matches@.len() ==> (#[trigger] matches@[i]) is None) ==> res@.len() == 0,
{
    let mut i: usize = 0;
    while i < exists.len()
        invariant
            i <= exists@.len(),
            exists@.len() == expanded@.len(),
            forall|j: int| 0 <= j < i ==> !(#[trigger] exists@[j]),
        decreases exists@.len() - i,
    {
        if exists[i] {
            return expanded[i].clone();
        }
        i = i + 1;
    }
    let mut k: usize = 0;
    while k < matches.len()
        invariant
            k <= matches@.len(),
            forall|j: int| 0 <= j < exists@.len() ==> !(#[trigger] exists@[j]),
            forall|j: int| 0 <= j < k ==> (#[trigger] matches@[j]) is None,
        decreases matches@.len() - k,
    {
        match &matches[k] {
            Some(p) => {
                return p.clone();
            },
            None => {},
        }
        k = k + 1;
    }
    String::new()
}

/// The session a named client opens, by the client's lowercased name: PuTTY and
/// Termius and Windows Terminal (`wt`) are started by name; KiTTY, Xshell,
/// MobaXterm, NxShell, Bitvise and SecureCRT are started from the path they were
/// found at and fail with `<name> not found` when they were not found; each gets
/// its own way of naming user, host and port. Any other name runs `ssh` in a
/// terminal.
pub proof fn lemma_named_client_sessions(
    platform: Platform,
    client: Seq<char>,
    host: Seq<char>,
    port: u16,
    username: Seq<char>,
    paths: ClientPaths,
    terms: LinuxTerminals,
)
    ensures
        ({
            let r = ssh_command(platform, client, host, port, username, paths, terms);
            let l = lowercase_text(client);
            let uh = user_at_host(username, host);
            let p = decimal(port as nat);
            let url = "ssh://"@ + uh + ":"@ + p;
            &&& l == "putty"@ ==> r == Ok::<_, Seq<char>>(("putty"@, seq!["-ssh"@, uh, "-P"@, p], "Failed to launch PuTTY: "@, false))
            &&& l == "termius"@ ==> r == Ok::<_, Seq<char>>(("termius"@, seq!["ssh"@, uh], "Failed to launch Termius: "@, false))
            &&& (l == "windows terminal"@ || l == "wt"@) ==> r == Ok::<_, Seq<char>>(
                ("wt"@, seq!["ssh"@, uh, "-p"@, p], "Failed to launch Windows Terminal: "@, false),
            )
            &&& l == "kitty"@ ==> r == (if paths.kitty@.len() == 0 {
                Err::<(Seq<char>, Seq<Seq<char>>, Seq<char>, bool), Seq<char>>("KiTTY not found"@)
            } else {
                Ok((paths.kitty@, seq!["-ssh"@, uh, "-P"@, p], "Failed to launch KiTTY: "@, false))
            })
            &&& l == "xshell"@ ==> r == (if paths.xshell@.len() == 0 {
                Err::<(Seq<char>, Seq<Seq<char>>, Seq<char>, bool), Seq<char>>("Xshell not found"@)
            } else {
                Ok((paths.xshell@, seq!["-url"@, url], "Failed to launch Xshell: "@, false))
            })
            &&& l == "mobaxterm"@ ==> r == (if paths.mobaxterm@.len() == 0 {
                Err::<(Seq<char>, Seq<Seq<char>>, Seq<char>, bool), Seq<char>>("MobaXterm not found"@)
            } else {
                Ok((paths.mobaxterm@, seq!["-newtab"@, url], "Failed to launch MobaXterm: "@, false))
            })
            &&& l == "nxshell"@ ==> r == (if paths.nxshell@.len() == 0 {
                Err::<(Seq<char>, Seq<Seq<char>>, Seq<char>, bool), Seq<char>>("NxShell not found"@)
            } else {
                Ok((paths.nxshell@, seq![url], "Failed to launch NxShell: "@, false))
            })
            &&& (l == "bitvise"@ || l == "bitvise ssh"@) ==> r == (if paths.bitvise@.len() == 0 {
                Err::<(Seq<char>, Seq<Seq<char>>, Seq<char>, bool), Seq<char>>("Bitvise SSH not found"@)
            } else {
                Ok((paths.bitvise@, seq!["-host="@ + host, "-port="@ + p, "-user="@ + username], "Failed to launch Bitvise: "@, false))
            })
            &&& l == "securecrt"@ ==> r == (if paths.securecrt@.len() == 0 {
                Err::<(Seq<char>, Seq<Seq<char>>, Seq<char>, bool), Seq<char>>("SecureCRT not found"@)
            } else {
                Ok((paths.securecrt@, seq!["/SSH2"@, "/L"@, username, host, "/P"@, p], "Failed to launch SecureCRT: "@, false))
            })
            &&& (l != "putty"@ && l != "kitty"@ && l != "xshell"@ && l != "mobaxterm"@ && l != "nxshell"@ && l
                != "bitvise ssh"@ && l != "bitvise"@ && l != "securecrt"@ && l != "termius"@ && l != "windows terminal"@
                && l != "wt"@) ==> r == Ok::<_, Seq<char>>(terminal_command(platform, uh, port, terms))
        }),
{
    reveal_strlit("putty");
    reveal_strlit("kitty");
    reveal_strlit("xshell");
    reveal_strlit("mobaxterm");
    reveal_strlit("nxshell");
    reveal_strlit("bitvise ssh");
    reveal_strlit("bitvise");
    reveal_strlit("securecrt");
    reveal_strlit("termius");
    reveal_strlit("windows terminal");
    reveal_strlit("wt");
    assert("putty"@[0] != "kitty"@[0]);
    assert("mobaxterm"@[0] != "securecrt"@[0]);
    assert("nxshell"@[0] != "bitvise"@[0] && "nxshell"@[0] != "termius"@[0] && "bitvise"@[0] != "termius"@[0]);
    assert("putty"@ != "kitty"@);
    assert("mobaxterm"@ != "securecrt"@);
    assert("nxshell"@ != "bitvise"@ && "nxshell"@ != "termius"@ && "bitvise"@ != "termius"@);
    assert("putty"@.len() == 5);
    assert("kitty"@.len() == 5);
    assert("xshell"@.len() == 6);
    assert("mobaxterm"@.len() == 9);
    assert("nxshell"@.len() == 7);
    assert("bitvise ssh"@.len() == 11);
    assert("bitvise"@.len() == 7);
    assert("securecrt"@.len() == 9);
    assert("termius"@.len() == 7);
    assert("windows terminal"@.len() == 16);
    assert("wt"@.len() == 2);
}

/// A URL is opened exactly as given, as the last argument of the platform's
/// opener: `xdg-open` on Linux, `open` on macOS, `cmd /c start ""` on Windows
/// (without a console window).
pub proof fn lemma_url_opened_as_given(platform: Platform, url: Seq<char>)
    ensures
        url_command(platform, url).1.len() >= 1,
        url_command(platform, url).1.last() == url,
        platform == Platform::Linux ==> url_command(platform, url).0 == "xdg-open"@ && url_command(platform, url).1.len() == 1,
        platform == Platform::MacOs ==> url_command(platform, url).0 == "open"@ && url_command(platform, url).1.len() == 1,
        platform == Platform::Windows ==> url_command(platform, url).0 == "cmd"@ && url_command(platform, url).1
            == seq!["/c"@, "start"@, ""@, url] && url_command(platform, url).3,
{
}

fn user_host_of(username: &str, host: &str) -> (res: String)
    ensures
        res@ == user_at_host(username@, host@),
{
    if username.unicode_len() == 0 {
        String::from_str(host)
    } else {
        concat3(username, "@", host)
    }
}

fn ssh_url_of(user_host: &str, port: u16) -> (res: String)
    ensures
        res@ == ssh_url(user_host@, port),
{
    let mut s = concat3("ssh://", user_host, ":");
    s.append(port_string(port).as_str());
    s
}

fn command(program: String, args: Vec<String>, prefix: &str) -> (res: LaunchCommand)
    ensures
        command_view(res) == (program@, texts(args@), prefix@, false),
{
    LaunchCommand { program, args, error_prefix: String::from_str(prefix), no_window: false }
}

fn found(path: &String, missing: &str, args: Vec<String>, prefix: &str) -> (res: Result<LaunchCommand, String>)
    ensures
        match res {
            Ok(c) => found_client(path@, missing@, texts(args@), prefix@) == Ok::<(Seq<char>, Seq<Seq<char>>, Seq<char>, bool), Seq<char>>(command_view(c)),
            Err(m) => found_client(path@, missing@, texts(args@), prefix@) == Err::<(Seq<char>, Seq<Seq<char>>, Seq<char>, bool), Seq<char>>(m@),
        },
{
    if path.as_str().unicode_len() == 0 {
        Err(String::from_str(missing))
    } else {
        Ok(command(path.clone(), args, prefix))
    }
}

/// The command that opens an SSH session with the named client.
fn ssh_client_command(
    platform: Platform,
    client: &str,
    host: &str,
    port: u16,
    username: &str,
    paths: &ClientPaths,
    terms: LinuxTerminals,
) -> (res: Result<LaunchCommand, String>)
    ensures
        match res {
            Ok(c) => ssh_command(platform, client@, host@, port, username@, *paths, terms)
                == Ok::<(Seq<char>, Seq<Seq<char>>, Seq<char>, bool), Seq<char>>(command_view(c)),
            Err(m) => ssh_command(platform, client@, host@, port, username@, *paths, terms)
                == Err::<(Seq<char>, Seq<Seq<char>>, Seq<char>, bool), Seq<char>>(m@),
        },
{
    let uh = user_host_of(username, host);
    let lower = to_lowercase(client);
    let l = lower.as_str();
    let p = port_string(port);
    let mut args = empty_args();
    if str_eq(l, "putty") {
        push_arg(&mut args, String::from_str("-ssh"));
        push_arg(&mut args, uh);
        push_arg(&mut args, String::from_str("-P"));
        push_arg(&mut args, p);
        assert(texts(args@) =~= seq!["-ssh"@, user_at_host(username@, host@), "-P"@, port_text(port)]);
        return Ok(command(String::from_str("putty"), args, "Failed to launch PuTTY: "));
    }
    if str_eq(l, "kitty") {
        push_arg(&mut args, String::from_str("-ssh"));
        push_arg(&mut args, uh);
        push_arg(&mut args, String::from_str("-P"));
        push_arg(&mut args, p);
        assert(texts(args@) =~= seq!["-ssh"@, user_at_host(username@, host@), "-P"@, port_text(port)]);
        return found(&paths.kitty, "KiTTY not found", args, "Failed to launch KiTTY: ");
    }
    if str_eq(l, "xshell") {
        push_arg(&mut args, String::from_str("-url"));
        push_arg(&mut args, ssh_url_of(uh.as_str(), port));
        assert(texts(args@) =~= seq!["-url"@, ssh_url(user_at_host(username@, host@), port)]);
        return found(&paths.xshell, "Xshell not found", args, "Failed to launch Xshell: ");
    }
    if str_eq(l, "mobaxterm") {
        push_arg(&mut args, String::from_str("-newtab"));
        push_arg(&mut args, ssh_url_of(uh.as_str(), port));
        assert(texts(args@) =~= seq!["-newtab"@, ssh_url(user_at_host(username@, host@), port)]);
        return found(&paths.mobaxterm, "MobaXterm not found", args, "Failed to launch MobaXterm: ");
    }
    if str_eq(l, "nxshell") {
        push_arg(&mut args, ssh_url_of(uh.as_str(), port));
        assert(texts(args@) =~= seq![ssh_url(user_at_host(username@, host@), port)]);
        return found(&paths.nxshell, "NxShell not found", args, "Failed to launch NxShell: ");
    }
    if str_eq(l, "bitvise ssh") || str_eq(l, "bitvise") {
        push_arg(&mut args, concat2("-host=", host));
        push_arg(&mut args, concat2("-port=", p.as_str()));
        push_arg(&mut args, concat2("-user=", username));
        assert(texts(args@) =~= seq!["-host="@ + host@, "-port="@ + port_text(port), "-user="@ + username@]);
        return found(&paths.bitvise, "Bitvise SSH not found", args, "Failed to launch Bitvise: ");
    }
    if str_eq(l, "securecrt") {
        push_arg(&mut args, String::from_str("/SSH2"));
        push_arg(&mut args, String::from_str("/L"));
        push_arg(&mut args, String::from_str(username));
        push_arg(&mut args, String::from_str(host));
        push_arg(&mut args, String::from_str("/P"));
        push_arg(&mut args, p);
        assert(texts(args@) =~= seq!["/SSH2"@, "/L"@, username@, host@, "/P"@, port_text(port)]);
        return found(&paths.securecrt, "SecureCRT not found", args, "Failed to launch SecureCRT: ");
    }
    if str_eq(l, "termius") {
        push_arg(&mut args, String::from_str("ssh"));
        push_arg(&mut args, uh);
        assert(texts(args@) =~= seq!["ssh"@, user_at_host(username@, host@)]);
        return Ok(command(String::from_str("termius"), args, "Failed to launch Termius: "));
    }
    if str_eq(l, "windows terminal") || str_eq(l, "wt") {
        push_arg(&mut args, String::from_str("ssh"));
        push_arg(&mut args, uh);
        push_arg(&mut args, String::from_str("-p"));
        push_arg(&mut args, p);
        assert(texts(args@) =~= seq!["ssh"@, user_at_host(username@, host@), "-p"@, port_text(port)]);
        return Ok(command(String::from_str("wt"), args, "Failed to launch Windows Terminal: "));
    }
    Ok(launch_terminal_ssh(platform, uh.as_str(), port, terms))
}

/// The command that opens an SSH session with `client` to `host:port` as
/// `username` (empty for none), and the report once it started: a known client
/// by its name or path (an error when its path was not found), else `ssh` in a
/// terminal.
pub fn launch_ssh(
    platform: Platform,
    client: &str,
    host: &str,
    port: u16,
    username: &str,
    paths: &ClientPaths,
    terms: LinuxTerminals,
) -> (res: Result<Launch, String>)
    ensures
        match res {
            Ok(l) => ssh_command(platform, client@, host@, port, username@, *paths, terms)
                == Ok::<(Seq<char>, Seq<Seq<char>>, Seq<char>, bool), Seq<char>>(command_view(l.command))
                && l.message@ == "Launched "@ + client@ + " connection to "@ + host@,
            Err(m) => ssh_command(platform, client@, host@, port, username@, *paths, terms)
                == Err::<(Seq<char>, Seq<Seq<char>>, Seq<char>, bool), Seq<char>>(m@),
        },
{
    match ssh_client_command(platform, client, host, port, username, paths, terms) {
        Err(m) => Err(m),
        Ok(c) => {
            let mut message = concat3("Launched ", client, " connection to ");
            message.append(host);
            Ok(Launch { command: c, message })
        },
    }
}

/// The command that opens a URL in the default browser.
pub open spec fn url_command(platform: Platform, url: Seq<char>) -> (Seq<char>, Seq<Seq<char>>, Seq<char>, bool) {
    match platform {
        Platform::Linux => ("xdg-open"@, seq![url], "Failed to open URL: "@, false),
        Platform::MacOs => ("open"@, seq![url], "Failed to open URL: "@, false),
        Platform::Windows => ("cmd"@, seq!["/c"@, "start"@, ""@, url], "Failed to open URL: "@, true),
    }
}

/// The command that opens `url` in the default browser, and the report once it started.
pub fn launch_url(platform: Platform, url: &str) -> (res: Launch)
    ensures
        command_view(res.command) == url_command(platform, url@),
        res.message@ == "Opened "@ + url@,
{
    let mut args = empty_args();
    let program;
    let no_window;
    match platform {
        Platform::Linux => {
            program = String::from_str("xdg-open");
            no_window = false;
        },
        Platform::MacOs => {
            program = String::from_str("open");
            no_window = false;
        },
        Platform::Windows => {
            program = String::from_str("cmd");
            no_window = true;
            push_arg(&mut args, String::from_str("/c"));
            push_arg(&mut args, String::from_str("start"));
            push_arg(&mut args, String::from_str(""));
        },
    }
    push_arg(&mut args, String::from_str(url));
    let command = LaunchCommand { program, args, error_prefix: String::from_str("Failed to open URL: "), no_window };
    proof {
        assert(command_view(command) =~~= url_command(platform, url@));
    }
    Launch { command, message: concat2("Opened ", url) }
}

/// The environment variables that Windows install paths may mention, as read
/// (`None` when unset).
#[derive(Debug)]
pub struct WindowsEnv {
    pub local_app_data: Option<String>,
    pub app_data: Option<String>,
    pub user_profile: Option<String>,
    pub program_files: Option<String>,
    pub program_files_x86: Option<String>,
}

/// `s` with `pat` replaced by the variable's value when it is set.
pub open spec fn expand_one(s: Seq<char>, pat: Seq<char>, value: Option<String>) -> Seq<char> {
    match value {
        Some(v) => replaced(s, pat, v@),
        None => s,
    }
}

/// A path with `%LOCALAPPDATA%`, `%APPDATA%`, `%USERPROFILE%`, `%PROGRAMFILES%` and
/// `%PROGRAMFILES(X86)%` replaced, in this order, by the variables that are set.
pub open spec fn expanded_path(path: Seq<char>, env: WindowsEnv) -> Seq<char> {
    let a = expand_one(path, "%LOCALAPPDATA%"@, env.local_app_data);
    let b = expand_one(a, "%APPDATA%"@, env.app_data);
    let c = expand_one(b, "%USERPROFILE%"@, env.user_profile);
    let d = expand_one(c, "%PROGRAMFILES%"@, env.program_files);
    expand_one(d, "%PROGRAMFILES(X86)%"@, env.program_files_x86)
}

fn expand_var(s: String, pat: &str, value: &Option<String>) -> (res: String)
    requires
        pat@.len() > 0,
    ensures
        res@ == expand_one(s@, pat@, *value),
{
    match value {
        Some(v) => replace_all(s.as_str(), pat, v.as_str()),
        None => s,
    }
}

/// Expands the Windows environment variables of an install path.
pub fn expand_env_vars(path: &str, env: &WindowsEnv) -> (res: String)
    ensures
        res@ == expanded_path(path@, *env),
{
    proof {
        reveal_strlit("%LOCALAPPDATA%");
        reveal_strlit("%APPDATA%");
        reveal_strlit("%USERPROFILE%");
        reveal_strlit("%PROGRAMFILES%");
        reveal_strlit("%PROGRAMFILES(X86)%");
    }
    let s = String::from_str(path);
    let s = expand_var(s, "%LOCALAPPDATA%", &env.local_app_data);
    let s = expand_var(s, "%APPDATA%", &env.app_data);
    let s = expand_var(s, "%USERPROFILE%", &env.user_profile);
    let s = expand_var(s, "%PROGRAMFILES%", &env.program_files);
    expand_var(s, "%PROGRAMFILES(X86)%", &env.program_files_x86)
}

} // verus!
