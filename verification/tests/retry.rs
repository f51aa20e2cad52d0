use puppetterm::retry::{config_target_text, control_args, RetryStep, SshRetry};
use puppetterm::ssh_config::ConfigTarget;

const DNS_ERR: &str = "ssh: Could not resolve hostname mail: Temporary failure in name resolution\n";

fn target(user: &str, jump: Option<&str>) -> ConfigTarget {
    ConfigTarget {
        user: user.to_string(),
        hostname: "10.0.0.9".to_string(),
        port: 2200,
        jump: jump.map(|j| j.to_string()),
    }
}

#[test]
fn config_target_texts() {
    assert_eq!(config_target_text(&target("root", None)), "root@10.0.0.9:2200");
    assert_eq!(config_target_text(&target("", None)), "10.0.0.9:2200");
}

#[test]
fn command_line_of_a_run() {
    let r = SshRetry::new("ops@mail:2222", None, None);
    let control = control_args("/tmp/puppetterm-mux/ops_mail_2222.sock");
    let remote = vec!["uname".to_string(), "-m".to_string()];
    assert_eq!(
        r.command_args(&control, &remote),
        vec![
            "-o", "BatchMode=yes", "-o", "ConnectTimeout=10", "-S", "/tmp/puppetterm-mux/ops_mail_2222.sock",
            "-o", "ControlMaster=auto", "-o", "ControlPersist=600", "-p", "2222", "ops@mail", "uname", "-m",
        ]
    );
}

#[test]
fn cached_address_starts_on_the_ip() {
    let r = SshRetry::new("ops@mail", None, Some("10.1.1.1"));
    assert_eq!(r.target, "ops@10.1.1.1:22");
    assert_eq!(r.extra, vec!["-o".to_string(), "HostKeyAlias=mail".to_string()]);
}

#[test]
fn non_transient_failures_are_not_retried() {
    let mut r = SshRetry::new("mail", Some(target("root", None)), None);
    match r.on_failure(255, "Permission denied (publickey).\n") {
        RetryStep::Fail(e) => assert_eq!(e, "Permission denied (publickey)."),
        _ => panic!("expected failure"),
    }
    let mut r = SshRetry::new("mail", None, None);
    match r.on_failure(1, "  ") {
        RetryStep::Fail(e) => assert_eq!(e, "remote command failed (exit 1)"),
        _ => panic!("expected failure"),
    }
}

#[test]
fn config_then_dns_then_backoff() {
    let mut r = SshRetry::new("mail", Some(target("root", Some("bastion"))), None);
    assert!(matches!(r.on_failure(255, DNS_ERR), RetryStep::Retry { sleep_ms: 150 }));
    assert_eq!(r.target, "root@10.0.0.9:2200");
    assert_eq!(r.extra, vec!["-J".to_string(), "bastion".to_string()]);

    assert!(matches!(r.on_failure(255, DNS_ERR), RetryStep::ResolveDns));
    assert!(matches!(r.on_dns(Some("192.0.2.7")), RetryStep::Retry { sleep_ms: 150 }));
    assert_eq!(r.target, "192.0.2.7:22");
    assert_eq!(
        r.extra,
        vec!["-J".to_string(), "bastion".to_string(), "-o".to_string(), "HostKeyAlias=mail".to_string()]
    );

    assert!(matches!(r.on_failure(255, DNS_ERR), RetryStep::Retry { sleep_ms: 900 }));
    match r.on_failure(255, DNS_ERR) {
        RetryStep::Fail(e) => {
            assert!(e.starts_with("ssh: Could not resolve hostname mail"));
            assert!(e.contains("the server can't resolve that hostname"));
        }
        _ => panic!("expected failure"),
    }
    assert_eq!(r.attempt, 4);
}

#[test]
fn unresolvable_name_backs_off_three_times() {
    let mut r = SshRetry::new("mail", None, None);
    let mut sleeps = Vec::new();
    loop {
        match r.on_failure(255, "connect to host mail port 22: Connection timed out") {
            RetryStep::Retry { sleep_ms } => sleeps.push(sleep_ms),
            RetryStep::ResolveDns => match r.on_dns(None) {
                RetryStep::Retry { sleep_ms } => sleeps.push(sleep_ms),
                RetryStep::Fail(_) => break,
                RetryStep::ResolveDns => panic!("no second lookup in one step"),
            },
            RetryStep::Fail(_) => break,
        }
    }
    assert_eq!(sleeps, vec![300, 600, 900]);
    assert_eq!(r.attempt, 4);
}
