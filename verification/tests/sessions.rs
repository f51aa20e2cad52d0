use puppetterm::sessions::{
    capture_args, check_agent_args, check_host_args, local_shell, master_probe, socket_target,
    user_mux_dir,
};

#[test]
fn local_shell_defaults() {
    assert_eq!(local_shell(None, None), ("/bin/bash".to_string(), "/".to_string()));
    assert_eq!(local_shell(Some("/bin/zsh"), Some("/home/u")), ("/bin/zsh".to_string(), "/home/u".to_string()));
}

#[test]
fn socket_names() {
    assert_eq!(socket_target("ops@web:2222"), ("ops@web".to_string(), "2222".to_string()));
    assert_eq!(socket_target("web:22"), ("web".to_string(), "22".to_string()));
    assert_eq!(socket_target("web"), ("web".to_string(), "22".to_string()));
    assert_eq!(socket_target("a@b@web:1"), ("a@b@web".to_string(), "1".to_string()));
    assert_eq!(user_mux_dir("/home/u"), "/home/u/.ssh/puppetterm-mux");
}

#[test]
fn probe_command_lines() {
    assert_eq!(
        master_probe("/s", "22", "ops@web"),
        vec![
            "ssh", "-S", "/s", "-o", "ControlMaster=no", "-o", "BatchMode=yes", "-o", "ConnectTimeout=2",
            "-o", "StrictHostKeyChecking=accept-new", "-p", "22", "ops@web", "true",
        ]
    );
    assert_eq!(
        check_host_args("/s", "web:2200"),
        vec![
            "-o", "BatchMode=yes", "-o", "ConnectTimeout=2", "-o", "StrictHostKeyChecking=accept-new",
            "-S", "/s", "-o", "ControlMaster=auto", "-o", "ControlPersist=600", "-p", "2200", "web", "true",
        ]
    );
    let a = check_agent_args("/s", "web");
    assert_eq!(&a[..4], &["-o", "BatchMode=yes", "-o", "ConnectTimeout=8"]);
    assert!(a.last().unwrap().starts_with("sh -c 'for p in"));
}

#[test]
fn capture_needs_host_and_command() {
    assert_eq!(capture_args(" ", "ls").unwrap_err(), "ssh_capture: empty host or command");
    assert_eq!(capture_args("web", "").unwrap_err(), "ssh_capture: empty host or command");
    assert_eq!(
        capture_args("web", "cat /etc/hosts").unwrap(),
        vec![
            "-o", "BatchMode=yes", "-o", "ConnectTimeout=8", "-o", "StrictHostKeyChecking=accept-new",
            "web", "cat /etc/hosts",
        ]
    );
}
