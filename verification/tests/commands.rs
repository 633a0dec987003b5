use knockd_client::commands::{
    after_knock, after_spa, connect_route, custom_client_path, custom_ssh_launch, join_report,
    launch_ssh_or_custom, merge_custom_clients, ConnectRoute, NextStep,
};
use knockd_client::knock::KnockResult;
use knockd_client::launcher::{ClientPaths, LinuxTerminals, Platform};
use knockd_client::models::{Connection, SshClient};

fn conn(conn_type: &str, auth: &str) -> Connection {
    Connection {
        id: Some(3),
        name: "box".to_string(),
        conn_type: conn_type.to_string(),
        host: "srv.example".to_string(),
        port: None,
        username: Some("root".to_string()),
        ssh_client: None,
        knock_ports: "[{\"protocol\":\"udp\",\"port\":7000}]".to_string(),
        knock_protocol: "udp".to_string(),
        knock_delay_ms: 100,
        launch_uri: None,
        auth_method: auth.to_string(),
        spa_site_id: Some("site-a".to_string()),
        spa_credential: Some("cred".to_string()),
        spa_udp_port: None,
        created_at: None,
        updated_at: None,
    }
}

fn client(name: &str, path: &str) -> SshClient {
    SshClient { name: name.to_string(), path: path.to_string(), installed: false }
}

fn no_paths() -> ClientPaths {
    ClientPaths {
        kitty: String::new(),
        xshell: String::new(),
        mobaxterm: String::new(),
        nxshell: String::new(),
        bitvise: String::new(),
        securecrt: String::new(),
    }
}

fn no_terms() -> LinuxTerminals {
    LinuxTerminals { gnome_terminal: false, konsole: false, xfce4_terminal: false, x_terminal_emulator: false }
}

fn ok(message: &str) -> KnockResult {
    KnockResult { success: true, message: message.to_string() }
}

#[test]
fn knock_route() {
    match connect_route(&conn("ssh", "knockd")).unwrap() {
        ConnectRoute::Knock { host, ports_json, protocol, delay_ms } => {
            assert_eq!(host, "srv.example");
            assert_eq!(ports_json, "[{\"protocol\":\"udp\",\"port\":7000}]");
            assert_eq!(protocol, "udp");
            assert_eq!(delay_ms, 100);
        },
        other => panic!("unexpected {:?}", other),
    }
    let mut c = conn("ssh", "knockd");
    c.knock_delay_ms = -1;
    match connect_route(&c).unwrap() {
        ConnectRoute::Knock { delay_ms, .. } => assert_eq!(delay_ms, u64::MAX),
        other => panic!("unexpected {:?}", other),
    }
}

#[test]
fn spa_route() {
    let mut c = conn("web", "knockpass");
    c.spa_udp_port = Some(6200);
    match connect_route(&c).unwrap() {
        ConnectRoute::Spa { host, udp_port, site_id, credential, user, target } => {
            assert_eq!(host, "srv.example");
            assert_eq!(udp_port, 6200);
            assert_eq!(site_id, "site-a");
            assert_eq!(credential, "cred");
            assert_eq!(user, "root");
            assert_eq!(target, "srv.example");
        },
        other => panic!("unexpected {:?}", other),
    }
    c.spa_udp_port = None;
    c.username = None;
    match connect_route(&c).unwrap() {
        ConnectRoute::Spa { udp_port, user, .. } => {
            assert_eq!(udp_port, 0);
            assert_eq!(user, "");
        },
        other => panic!("unexpected {:?}", other),
    }
    c.spa_credential = Some(String::new());
    assert_eq!(connect_route(&c).unwrap_err(), "KnockPass SPA requires site_id and credential");
    c.spa_credential = Some("cred".to_string());
    c.spa_site_id = None;
    assert_eq!(connect_route(&c).unwrap_err(), "KnockPass SPA requires site_id and credential");
}

#[test]
fn after_an_spa_knock() {
    match after_spa(&conn("web", "knockpass"), "SPA sent".to_string()) {
        NextStep::OpenUrl { url, prefix } => {
            assert_eq!(url, "srv.example");
            assert_eq!(prefix, "SPA sent");
        },
        other => panic!("unexpected {:?}", other),
    }
    let mut c = conn("web", "knockpass");
    c.launch_uri = Some("https://srv.example/app".to_string());
    match after_spa(&c, "m".to_string()) {
        NextStep::OpenUrl { url, .. } => assert_eq!(url, "https://srv.example/app"),
        other => panic!("unexpected {:?}", other),
    }
    match after_spa(&conn("ssh", "knockpass"), "SPA sent".to_string()) {
        NextStep::LaunchSsh { client, knock_message } => {
            assert_eq!(client, "auto");
            assert_eq!(knock_message, "SPA sent");
        },
        other => panic!("unexpected {:?}", other),
    }
    let mut c = conn("ssh", "knockpass");
    c.ssh_client = Some("Termius".to_string());
    match after_spa(&c, "SPA sent".to_string()) {
        NextStep::LaunchSsh { client, .. } => assert_eq!(client, "Termius"),
        other => panic!("unexpected {:?}", other),
    }
    match after_spa(&conn("rdp", "knockpass"), "SPA sent".to_string()) {
        NextStep::Finish(m) => assert_eq!(m, "SPA sent"),
        other => panic!("unexpected {:?}", other),
    }
}

#[test]
fn after_a_knock() {
    let failed = KnockResult { success: false, message: "No knock ports configured".to_string() };
    assert_eq!(after_knock(&conn("ssh", "knockd"), failed).unwrap_err(), "No knock ports configured");
    match after_knock(&conn("ssh", "knockd"), ok("k")).unwrap() {
        NextStep::LaunchSsh { client, knock_message } => {
            assert_eq!(client, "auto");
            assert_eq!(knock_message, "k");
        },
        other => panic!("unexpected {:?}", other),
    }
    let mut c = conn("ssh", "knockd");
    c.ssh_client = Some("PuTTY".to_string());
    match after_knock(&c, ok("k")).unwrap() {
        NextStep::LaunchSsh { client, .. } => assert_eq!(client, "PuTTY"),
        other => panic!("unexpected {:?}", other),
    }
    let mut c = conn("web", "knockd");
    match after_knock(&c, ok("k")).unwrap() {
        NextStep::OpenUrl { url, prefix } => {
            assert_eq!(url, "https://srv.example");
            assert_eq!(prefix, "k");
        },
        other => panic!("unexpected {:?}", other),
    }
    c.port = Some(8443);
    match after_knock(&c, ok("k")).unwrap() {
        NextStep::OpenUrl { url, .. } => assert_eq!(url, "https://srv.example:8443"),
        other => panic!("unexpected {:?}", other),
    }
    assert_eq!(after_knock(&conn("rdp", "knockd"), ok("k")).unwrap_err(), "Unknown connection type: rdp");
    assert_eq!(join_report("Knock ok", "Opened x"), "Knock ok | Opened x");
}

#[test]
fn custom_client_lookup() {
    let custom = vec![client("MyPutty", "/opt/putty"), client("MyPutty", "/other"), client("X", "/x")];
    assert_eq!(custom_client_path(&custom, "MyPutty"), Some("/opt/putty".to_string()));
    assert_eq!(custom_client_path(&custom, "none"), None);
}

#[test]
fn custom_client_arguments() {
    let mut c = conn("ssh", "knockd");
    let l = custom_ssh_launch("My PuTTY", "C:/tools/PuTTY.exe", "PuTTY", &c);
    assert_eq!(l.command.program, "C:/tools/PuTTY.exe");
    assert_eq!(l.command.args, vec!["-ssh", "root@srv.example", "-P", "22"]);
    assert_eq!(l.command.error_prefix, "Failed to launch My PuTTY: ");
    assert_eq!(l.message, "Launched My PuTTY (custom)");
    c.port = Some(2200);
    assert_eq!(custom_ssh_launch("x", "p", "NxShell", &c).command.args, vec!["-url", "ssh://root@srv.example:2200"]);
    assert_eq!(custom_ssh_launch("x", "p", "MobaXterm", &c).command.args, vec!["-newtab", "ssh://root@srv.example:2200"]);
    assert_eq!(
        custom_ssh_launch("x", "p", "SecureCRT", &c).command.args,
        vec!["/SSH2", "/L", "root", "srv.example", "/P", "2200"]
    );
    assert_eq!(
        custom_ssh_launch("x", "p", "BvSsh-bitvise", &c).command.args,
        vec!["-host", "srv.example", "-port", "2200", "-user", "root"]
    );
    assert_eq!(custom_ssh_launch("x", "p", "Termius", &c).command.args, vec!["ssh", "root@srv.example"]);
    c.username = None;
    assert_eq!(custom_ssh_launch("x", "p", "other", &c).command.args, vec!["ssh://srv.example:2200"]);
    assert_eq!(
        custom_ssh_launch("x", "p", "SecureCRT", &c).command.args,
        vec!["/SSH2", "/L", "", "srv.example", "/P", "2200"]
    );
}

#[test]
fn custom_or_built_in_launch() {
    let c = conn("ssh", "knockd");
    let custom = vec![client("Mine", "/opt/kitty-portable/kitty.exe")];
    let l = launch_ssh_or_custom(Platform::Linux, "Mine", &c, &custom, &no_paths(), no_terms()).unwrap();
    assert_eq!(l.command.program, "/opt/kitty-portable/kitty.exe");
    assert_eq!(l.command.args, vec!["-ssh", "root@srv.example", "-P", "22"]);
    assert_eq!(l.message, "Launched Mine (custom)");
    let l = launch_ssh_or_custom(Platform::Linux, "putty", &c, &custom, &no_paths(), no_terms()).unwrap();
    assert_eq!(l.command.program, "putty");
    assert_eq!(l.message, "Launched putty connection to srv.example");
    let err = launch_ssh_or_custom(Platform::Windows, "kitty", &c, &custom, &no_paths(), no_terms()).unwrap_err();
    assert_eq!(err, "KiTTY not found");
}

#[test]
fn custom_client_arguments_follow_the_file_stem() {
    let c = conn("ssh", "knockd");
    let custom = vec![client("Bitvise", "/opt/securecrt.d/My.Termius.app")];
    let l = launch_ssh_or_custom(Platform::Linux, "Bitvise", &c, &custom, &no_paths(), no_terms()).unwrap();
    assert_eq!(l.command.args, vec!["ssh", "root@srv.example"]);
    let custom = vec![client("Mine", "C:\\tools\\client.putty")];
    let l = launch_ssh_or_custom(Platform::Windows, "Mine", &c, &custom, &no_paths(), no_terms()).unwrap();
    assert_eq!(l.command.args, vec!["ssh://root@srv.example:22"]);
    let custom = vec![client("Termius", "/opt/tools/")];
    let l = launch_ssh_or_custom(Platform::Linux, "Termius", &c, &custom, &no_paths(), no_terms()).unwrap();
    assert_eq!(l.command.args, vec!["ssh://root@srv.example:22"]);
}

#[test]
fn custom_clients_are_appended() {
    let detected = vec![SshClient { name: "OpenSSH (ssh)".to_string(), path: "ssh".to_string(), installed: true }];
    let custom = vec![client("A", "/a"), client("B", ""), client("C", "/c")];
    let merged = merge_custom_clients(detected, custom, &vec![true, true, false]);
    let got: Vec<(&str, &str, bool)> = merged.iter().map(|c| (c.name.as_str(), c.path.as_str(), c.installed)).collect();
    assert_eq!(got, vec![("OpenSSH (ssh)", "ssh", true), ("A", "/a", true), ("B", "", false), ("C", "/c", false)]);
}
