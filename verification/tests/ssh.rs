use puppetterm::ssh::{
    host_alias, ip_target, is_transient_ssh_error, mux_socket_candidates, resolution_hint,
    split_ssh_host, ssh_control_path, ssh_host_args, ssh_mux_dir, ssh_sanitize,
};
use puppetterm::ssh_config::{config_resolve, parse_ssh_config_hosts, ssh_config_path, ssh_user_for};

#[test]
fn split_targets() {
    assert_eq!(split_ssh_host("ops@web:2222"), ("ops@web".to_string(), Some(2222)));
    assert_eq!(split_ssh_host("web:22"), ("web".to_string(), Some(22)));
    assert_eq!(split_ssh_host("web"), ("web".to_string(), None));
    assert_eq!(split_ssh_host("web:notaport"), ("web:notaport".to_string(), None));
    assert_eq!(split_ssh_host("web:70000"), ("web:70000".to_string(), None));
    // a colon before the '@' is part of the user
    assert_eq!(split_ssh_host("a:b@web"), ("a:b@web".to_string(), None));
    assert_eq!(split_ssh_host("a:b@web:+8"), ("a:b@web".to_string(), Some(8)));
}

#[test]
fn host_arguments() {
    assert_eq!(ssh_host_args("ops@web:2222"), vec!["-p", "2222", "ops@web"]);
    assert_eq!(ssh_host_args("web"), vec!["web"]);
    assert_eq!(host_alias("ops@web:2222"), "web");
    assert_eq!(host_alias("web"), "web");
}

#[test]
fn address_targets_keep_user_and_port() {
    assert_eq!(ip_target("ops@web:2222", "10.0.0.5"), "ops@10.0.0.5:2222");
    assert_eq!(ip_target("web", "10.0.0.5"), "10.0.0.5:22");
}

#[test]
fn control_sockets() {
    assert_eq!(ssh_sanitize("ops@web:22"), "ops_web_22");
    assert_eq!(ssh_mux_dir(Some("/m"), Some("/x")), "/m");
    assert_eq!(ssh_mux_dir(Some(""), Some("/x")), "/x/puppetterm-mux");
    assert_eq!(ssh_mux_dir(None, Some("")), "/tmp/puppetterm-mux");
    assert_eq!(ssh_control_path("/tmp/puppetterm-mux", "ops@web"), "/tmp/puppetterm-mux/ops_web.sock");
}

#[test]
fn user_socket_candidates() {
    assert_eq!(
        mux_socket_candidates("/home/u", "ops@web:2200", Some("admin")),
        vec![
            "/home/u/.ssh/puppetterm-mux/ops@ops@web:2200".to_string(),
            "/home/u/.ssh/puppetterm-mux/admin@ops@web:2200".to_string(),
            "/home/u/.ssh/puppetterm-mux/ops@web:2200".to_string(),
        ]
    );
    assert_eq!(
        mux_socket_candidates("/home/u", "web", None),
        vec!["/home/u/.ssh/puppetterm-mux/web:22".to_string()]
    );
    assert_eq!(
        mux_socket_candidates("/home/u", "web", Some("")),
        vec!["/home/u/.ssh/puppetterm-mux/web:22".to_string()]
    );
}

#[test]
fn error_classification() {
    let e = "ssh: Could not resolve hostname mail: Temporary failure in name resolution";
    assert!(is_transient_ssh_error(e));
    assert!(is_transient_ssh_error("connect to host x port 22: Connection refused"));
    assert!(!is_transient_ssh_error("Permission denied (publickey)."));
    let hinted = resolution_hint(e);
    assert!(hinted.starts_with(e));
    assert!(hinted.contains("the server can't resolve that hostname"));
    assert_eq!(resolution_hint("Connection refused"), "Connection refused");
}

#[test]
fn config_hosts_are_concrete_sorted_unique() {
    let cfg = "# comment\nHost web db\n  HostName 10.0.0.1\nHost *.internal web\nHost ?x !neg\nHostName x\n  Host   spaced\n";
    assert_eq!(
        parse_ssh_config_hosts(cfg),
        vec!["db".to_string(), "spaced".to_string(), "web".to_string()]
    );
    assert!(parse_ssh_config_hosts("").is_empty());
}

#[test]
fn first_user_of_a_literal_block() {
    let cfg = "Host *\n  User star\nHost web db\n  User deploy\nHost web\n  User second\n";
    assert_eq!(ssh_user_for(cfg, "web"), Some("deploy".to_string()));
    assert_eq!(ssh_user_for(cfg, "db"), Some("deploy".to_string()));
    assert_eq!(ssh_user_for(cfg, "other"), None);
}

#[test]
fn ssh_g_resolution() {
    let out = "user root\nhostname 10.1.2.3\nport 2222\nproxyjump bastion\n";
    let t = config_resolve("mail", out).unwrap();
    assert_eq!(t.user, "root");
    assert_eq!(t.hostname, "10.1.2.3");
    assert_eq!(t.port, 2222);
    assert_eq!(t.jump.as_deref(), Some("bastion"));

    let t = config_resolve("ops@mail", out).unwrap();
    assert_eq!(t.user, "ops");

    // hostname equal to the alias means only DNS can help
    assert!(config_resolve("mail", "hostname mail\nport 22\n").is_none());
    assert!(config_resolve("mail", "user root\n").is_none());
    let t = config_resolve("mail", "hostname 1.2.3.4\nproxyjump none\nport x\n").unwrap();
    assert_eq!(t.port, 22);
    assert!(t.jump.is_none());
    assert_eq!(t.user, "");
}

#[test]
fn user_prefixed_target_without_hostname_is_unresolved() {
    let out = "user bob\nhostname mail\nport 22\nproxyjump none\n";
    assert!(config_resolve("bob@mail", out).is_none());
    let out = "user alice\nhostname 10.0.0.5\nport 2222\nproxyjump none\n";
    let t = config_resolve("bob@mail", out).unwrap();
    assert_eq!(t.user, "bob");
    assert_eq!(t.hostname, "10.0.0.5");
    assert_eq!(t.port, 2222);
    assert!(t.jump.is_none());
}

#[test]
fn config_file_location() {
    assert_eq!(ssh_config_path(Some("/home/u")), "/home/u/.ssh/config");
    assert_eq!(ssh_config_path(None), ".ssh/config");
}
