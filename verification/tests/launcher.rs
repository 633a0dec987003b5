use knockd_client::launcher::{expand_env_vars, WindowsEnv};
use knockd_client::launcher::{
    detect_ssh_clients, found_path, launch_ssh, launch_terminal_ssh, launch_url, ClientPaths, ClientProbe, Launch,
    LaunchCommand, LinuxTerminals, Platform,
};

fn no_terms() -> LinuxTerminals {
    LinuxTerminals { gnome_terminal: false, konsole: false, xfce4_terminal: false, x_terminal_emulator: false }
}

fn no_paths() -> ClientPaths {
    ClientPaths {
        kitty: String::new(),
        xshell: String::new(),
        mobaxterm: String::new(),
        nxshell: String::new(),
        bitvise: String::new(),
        securecrt: String::new(),
    }
}

fn all_paths() -> ClientPaths {
    ClientPaths {
        kitty: "C:\\KiTTY\\kitty.exe".to_string(),
        xshell: "C:\\Xshell\\Xshell.exe".to_string(),
        mobaxterm: "C:\\Moba\\MobaXterm.exe".to_string(),
        nxshell: "C:\\NxShell\\NxShell.exe".to_string(),
        bitvise: "C:\\Bitvise\\BvSsh.exe".to_string(),
        securecrt: "C:\\VanDyke\\SecureCRT.exe".to_string(),
    }
}

fn parts(c: &LaunchCommand) -> (String, Vec<String>, String, bool) {
    (c.program.clone(), c.args.clone(), c.error_prefix.clone(), c.no_window)
}

fn strs(v: &[&str]) -> Vec<String> {
    v.iter().map(|s| s.to_string()).collect()
}

fn ssh(client: &str, paths: &ClientPaths) -> Result<Launch, String> {
    launch_ssh(Platform::Windows, client, "srv", 2222, "root", paths, no_terms())
}

#[test]
fn linux_clients() {
    let v = detect_ssh_clients(&ClientProbe::Linux { ssh: true, putty: false, termius: true });
    let got: Vec<(String, String, bool)> = v.iter().map(|c| (c.name.clone(), c.path.clone(), c.installed)).collect();
    assert_eq!(
        got,
        vec![
            ("OpenSSH (ssh)".to_string(), "ssh".to_string(), true),
            ("PuTTY".to_string(), "putty".to_string(), false),
            ("Termius".to_string(), "termius".to_string(), true),
        ]
    );
}

#[test]
fn macos_clients() {
    let v = detect_ssh_clients(&ClientProbe::MacOs { iterm: false, termius: false });
    assert_eq!(v.len(), 3);
    assert_eq!(v[0].name, "Terminal + ssh");
    assert!(v[0].installed);
    assert_eq!(v[1].path, "iterm2");
    assert!(!v[1].installed);
}

#[test]
fn windows_clients() {
    let v = detect_ssh_clients(&ClientProbe::Windows {
        wt: true,
        ssh: false,
        putty: true,
        kitty: "C:\\k\\kitty.exe".to_string(),
        mobaxterm: String::new(),
        xshell: String::new(),
        nxshell: "C:\\n\\NxShell.exe".to_string(),
        bitvise: String::new(),
        securecrt: String::new(),
        termius: false,
    });
    let names: Vec<&str> = v.iter().map(|c| c.name.as_str()).collect();
    assert_eq!(
        names,
        vec!["Windows Terminal", "OpenSSH (ssh)", "PuTTY", "KiTTY", "MobaXterm", "Xshell", "NxShell", "Bitvise SSH", "SecureCRT", "Termius"]
    );
    assert_eq!(v[3].path, "C:\\k\\kitty.exe");
    assert!(v[3].installed);
    assert!(!v[4].installed);
    assert!(v[6].installed);
    assert_eq!(v[9].path, "termius");
}

#[test]
fn built_in_clients() {
    let l = ssh("PuTTY", &no_paths()).unwrap();
    assert_eq!(parts(&l.command), ("putty".to_string(), strs(&["-ssh", "root@srv", "-P", "2222"]), "Failed to launch PuTTY: ".to_string(), false));
    assert_eq!(l.message, "Launched PuTTY connection to srv");
    let l = ssh("Termius", &no_paths()).unwrap();
    assert_eq!(parts(&l.command).1, strs(&["ssh", "root@srv"]));
    let l = ssh("Windows Terminal", &no_paths()).unwrap();
    assert_eq!(parts(&l.command), ("wt".to_string(), strs(&["ssh", "root@srv", "-p", "2222"]), "Failed to launch Windows Terminal: ".to_string(), false));
    let l = ssh("wt", &no_paths()).unwrap();
    assert_eq!(l.command.program, "wt");
}

#[test]
fn clients_found_by_path() {
    let p = all_paths();
    let l = ssh("kitty", &p).unwrap();
    assert_eq!(parts(&l.command), (p.kitty.clone(), strs(&["-ssh", "root@srv", "-P", "2222"]), "Failed to launch KiTTY: ".to_string(), false));
    let l = ssh("Xshell", &p).unwrap();
    assert_eq!(parts(&l.command).1, strs(&["-url", "ssh://root@srv:2222"]));
    let l = ssh("MobaXterm", &p).unwrap();
    assert_eq!(parts(&l.command).1, strs(&["-newtab", "ssh://root@srv:2222"]));
    let l = ssh("NxShell", &p).unwrap();
    assert_eq!(parts(&l.command).1, strs(&["ssh://root@srv:2222"]));
    let l = ssh("Bitvise SSH", &p).unwrap();
    assert_eq!(parts(&l.command), (p.bitvise.clone(), strs(&["-host=srv", "-port=2222", "-user=root"]), "Failed to launch Bitvise: ".to_string(), false));
    let l = ssh("SecureCRT", &p).unwrap();
    assert_eq!(parts(&l.command).1, strs(&["/SSH2", "/L", "root", "srv", "/P", "2222"]));
}

#[test]
fn clients_not_found() {
    let p = no_paths();
    assert_eq!(ssh("kitty", &p).unwrap_err(), "KiTTY not found");
    assert_eq!(ssh("xshell", &p).unwrap_err(), "Xshell not found");
    assert_eq!(ssh("mobaxterm", &p).unwrap_err(), "MobaXterm not found");
    assert_eq!(ssh("nxshell", &p).unwrap_err(), "NxShell not found");
    assert_eq!(ssh("bitvise", &p).unwrap_err(), "Bitvise SSH not found");
    assert_eq!(ssh("securecrt", &p).unwrap_err(), "SecureCRT not found");
}

#[test]
fn other_clients_use_a_terminal() {
    let l = launch_ssh(Platform::Linux, "auto", "srv", 22, "", &no_paths(), no_terms()).unwrap();
    assert_eq!(parts(&l.command), ("ssh".to_string(), strs(&["srv", "-p", "22"]), "Failed: ".to_string(), false));
    assert_eq!(l.message, "Launched auto connection to srv");
}

#[test]
fn terminal_choice() {
    let mut t = no_terms();
    t.konsole = true;
    t.x_terminal_emulator = true;
    let c = launch_terminal_ssh(Platform::Linux, "u@h", 22, t);
    assert_eq!(parts(&c), ("konsole".to_string(), strs(&["-e", "ssh", "u@h", "-p", "22"]), "Failed: ".to_string(), false));
    t.gnome_terminal = true;
    let c = launch_terminal_ssh(Platform::Linux, "u@h", 22, t);
    assert_eq!(parts(&c).0, "gnome-terminal");
    assert_eq!(parts(&c).1, strs(&["--", "ssh", "u@h", "-p", "22"]));
    let c = launch_terminal_ssh(Platform::MacOs, "u@h", 2200, no_terms());
    assert_eq!(parts(&c).0, "osascript");
    assert_eq!(parts(&c).1, strs(&["-e", "tell application \"Terminal\" to do script \"ssh u@h -p 2200\""]));
    let c = launch_terminal_ssh(Platform::Windows, "h", 1, no_terms());
    assert_eq!(parts(&c), ("ssh".to_string(), strs(&["h", "-p", "1"]), "Failed: ".to_string(), false));
}

#[test]
fn url_launch() {
    let l = launch_url(Platform::Linux, "https://a.b");
    assert_eq!(parts(&l.command), ("xdg-open".to_string(), strs(&["https://a.b"]), "Failed to open URL: ".to_string(), false));
    assert_eq!(l.message, "Opened https://a.b");
    let l = launch_url(Platform::MacOs, "https://a.b");
    assert_eq!(l.command.program, "open");
    let l = launch_url(Platform::Windows, "https://a.b");
    assert_eq!(parts(&l.command), ("cmd".to_string(), strs(&["/c", "start", "", "https://a.b"]), "Failed to open URL: ".to_string(), true));
}

#[test]
fn windows_install_paths_are_expanded() {
    let env = WindowsEnv {
        local_app_data: Some("C:\\Users\\u\\AppData\\Local".to_string()),
        app_data: None,
        user_profile: Some("C:\\Users\\u".to_string()),
        program_files: Some("C:\\Program Files".to_string()),
        program_files_x86: Some("C:\\Program Files (x86)".to_string()),
    };
    assert_eq!(
        expand_env_vars("%LOCALAPPDATA%\\KiTTY\\kitty.exe", &env),
        "C:\\Users\\u\\AppData\\Local\\KiTTY\\kitty.exe"
    );
    assert_eq!(expand_env_vars("%APPDATA%\\x", &env), "%APPDATA%\\x");
    assert_eq!(expand_env_vars("%PROGRAMFILES(X86)%\\a", &env), "C:\\Program Files (x86)\\a");
    assert_eq!(expand_env_vars("%USERPROFILE%\\MobaXterm\\MobaXterm.exe", &env), "C:\\Users\\u\\MobaXterm\\MobaXterm.exe");
}

#[test]
fn client_names_ignore_case() {
    for (a, b) in [("PuTTY", "putty"), ("KiTTY", "kitty"), ("Windows Terminal", "WINDOWS TERMINAL"), ("Other", "other")] {
        let x = ssh(a, &all_paths()).unwrap();
        let y = ssh(b, &all_paths()).unwrap();
        assert_eq!(parts(&x.command), parts(&y.command));
    }
    assert_eq!(ssh("MobaXterm", &no_paths()).unwrap_err(), ssh("mobaxterm", &no_paths()).unwrap_err());
}

#[test]
fn client_path_choice() {
    let expanded = strs(&["C:\\a\\x.exe", "C:\\b\\x.exe", "C:\\c*\\x.exe"]);
    let none = vec![None, None, None];
    assert_eq!(found_path(&expanded, &vec![false, true, true], &none), "C:\\b\\x.exe");
    let matches = vec![None, None, Some("C:\\c1\\x.exe".to_string())];
    assert_eq!(found_path(&expanded, &vec![true, false, false], &matches), "C:\\a\\x.exe");
    assert_eq!(found_path(&expanded, &vec![false, false, false], &matches), "C:\\c1\\x.exe");
    assert_eq!(found_path(&expanded, &vec![false, false, false], &none), "");
}
