use singbox_gui::service::{
    create_elevated_command, escape_for_script, get_singbox_version, join_args, kill_command,
    quoted_line, shell_quote, version_from_match,
    Platform, ServiceError, ServiceManager,
};

fn strings(v: &[&str]) -> Vec<String> {
    v.iter().map(|s| s.to_string()).collect()
}

#[test]
fn start_then_stop_ends_idle_and_second_stop_fails() {
    let mut m: ServiceManager<u32> = ServiceManager::new();
    assert!(!m.is_running());
    let cmd = m.start(Platform::Linux, "/c.json", true, "sing-box");
    assert!(cmd.is_ok());
    assert!(m.complete_start(Ok(7)).is_ok());
    assert!(m.is_running());
    assert_eq!(m.stop().ok(), Some(7));
    assert!(!m.is_running());
    assert!(matches!(m.stop(), Err(ServiceError::NotRunning)));
    assert!(!m.is_running());
}

#[test]
fn start_while_running_fails_and_keeps_handle() {
    let mut m: ServiceManager<u32> = ServiceManager::new();
    m.start(Platform::Linux, "/c.json", true, "sing-box").unwrap();
    m.complete_start(Ok(3)).unwrap();
    assert!(matches!(
        m.start(Platform::Linux, "/c.json", true, "sing-box"),
        Err(ServiceError::AlreadyRunning)
    ));
    assert_eq!(m.stop().ok(), Some(3));
}

#[test]
fn start_with_missing_config_fails() {
    let m: ServiceManager<u32> = ServiceManager::new();
    match m.start(Platform::Linux, "/nope.json", false, "sing-box") {
        Err(ServiceError::ConfigNotFound(p)) => assert_eq!(p, "/nope.json"),
        other => panic!("unexpected {:?}", other),
    }
    assert!(!m.is_running());
}

#[test]
fn spawn_failure_stays_idle() {
    let mut m: ServiceManager<u32> = ServiceManager::new();
    match m.complete_start(Err("denied".to_string())) {
        Err(ServiceError::StartFailed(e)) => assert_eq!(e, "denied"),
        other => panic!("unexpected {:?}", other),
    }
    assert!(!m.is_running());
}

#[test]
fn linux_runs_worker_under_pkexec() {
    let c = create_elevated_command(Platform::Linux, "sing-box", &strings(&["run", "-c", "/c.json"]));
    assert_eq!(c.program, "pkexec");
    assert_eq!(c.args, strings(&["sing-box", "run", "-c", "/c.json"]));
}

#[test]
fn windows_uses_start_process_runas() {
    let m: ServiceManager<u32> = ServiceManager::new();
    let c = m.start(Platform::Windows, "C:\\c.json", true, "sing-box.exe").unwrap();
    assert_eq!(c.program, "powershell");
    assert_eq!(
        c.args,
        strings(&[
            "-Command",
            "Start-Process -FilePath 'sing-box.exe' -ArgumentList 'run -c C:\\c.json' -Verb RunAs -Wait"
        ])
    );
}

#[test]
fn macos_uses_administrator_privileges() {
    let c = create_elevated_command(Platform::MacOs, "/bin/sb", &strings(&["run", "-c", "/c.json"]));
    assert_eq!(c.program, "osascript");
    assert_eq!(
        c.args,
        strings(&[
            "-e",
            "do shell script \"'/bin/sb' 'run' '-c' '/c.json'\" with administrator privileges"
        ])
    );
}

#[test]
fn macos_quotes_paths_with_spaces_and_quotes() {
    let c = create_elevated_command(
        Platform::MacOs,
        "/Applications/My App/sb",
        &strings(&["run", "-c", "/tmp/it's \"x\".json"]),
    );
    assert_eq!(
        c.args[1],
        "do shell script \"'/Applications/My App/sb' 'run' '-c' '/tmp/it'\\\\''s \\\"x\\\".json'\" with administrator privileges"
    );
}

#[test]
fn shell_and_script_quoting() {
    assert_eq!(shell_quote("a b"), "'a b'");
    assert_eq!(shell_quote("it's"), "'it'\\''s'");
    assert_eq!(shell_quote(""), "''");
    assert_eq!(escape_for_script("a\\b\"c"), "a\\\\b\\\"c");
    assert_eq!(quoted_line("p", &strings(&["x", "y z"])), "'p' 'x' 'y z'");
}

#[test]
fn join_args_with_spaces() {
    assert_eq!(join_args(&strings(&[])), "");
    assert_eq!(join_args(&strings(&["a"])), "a");
    assert_eq!(join_args(&strings(&["a", "b", "c"])), "a b c");
}

#[test]
fn kill_commands_per_platform() {
    assert!(kill_command(Platform::Linux, "42").is_none());
    let w = kill_command(Platform::Windows, "42").unwrap();
    assert_eq!(w.program, "powershell");
    assert_eq!(
        w.args,
        strings(&[
            "-Command",
            "Start-Process -FilePath 'taskkill' -ArgumentList '/F', '/PID', '42' -Verb RunAs"
        ])
    );
    let m = kill_command(Platform::MacOs, "42").unwrap();
    assert_eq!(
        m.args,
        strings(&["-e", "do shell script \"kill -9 42\" with administrator privileges"])
    );
}

#[test]
fn version_is_extracted() {
    let out = "sing-box version 1.8.4\n\nEnvironment: go1.21.5 linux/amd64\n";
    assert_eq!(get_singbox_version(Some(out)).unwrap(), "1.8.4");
    assert_eq!(get_singbox_version(Some("version   10.20.30")).unwrap(), "10.20.30");
}

#[test]
fn version_missing_fails() {
    assert!(matches!(get_singbox_version(Some("no number here")), Err(ServiceError::VersionFailed)));
    assert!(matches!(get_singbox_version(None), Err(ServiceError::VersionFailed)));
    assert!(matches!(version_from_match(None), Err(ServiceError::VersionFailed)));
    assert_eq!(version_from_match(Some("1.2.3".to_string())).unwrap(), "1.2.3");
}
