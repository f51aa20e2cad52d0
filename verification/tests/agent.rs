use puppetterm::agent::{
    action_args, agent_socket_path, finish_action, ndjson_event, pkill_args, sanitize,
    validate_host, ActionRegistry,
};

#[test]
fn validate_host_rejects_blank_and_whitespace() {
    assert_eq!(validate_host("").unwrap_err(), "empty host");
    assert_eq!(validate_host("  \t").unwrap_err(), "empty host");
    assert_eq!(
        validate_host("web-1\n").unwrap_err(),
        "host contains whitespace or control characters"
    );
    assert_eq!(
        validate_host("user@web 1").unwrap_err(),
        "host contains whitespace or control characters"
    );
    assert_eq!(
        validate_host("we\u{7f}b").unwrap_err(),
        "host contains whitespace or control characters"
    );
    assert!(validate_host("user@web-1:2222").is_ok());
}

#[test]
fn sanitize_replaces_non_alphanumerics() {
    assert_eq!(sanitize("ops@web-1.example:22"), "ops_web_1_example_22");
    assert_eq!(sanitize("é"), "_");
}

#[test]
fn agent_socket_layout() {
    assert_eq!(agent_socket_path(Some("/m"), Some("/run/u"), "a@b"), "/m/a_b.sock");
    assert_eq!(agent_socket_path(None, Some("/run/u"), "h"), "/run/u/puppetterm-mux/h.sock");
    assert_eq!(agent_socket_path(None, None, "h"), "/tmp/puppetterm-mux/h.sock");
    // an empty PUPPETTERM_MUX_DIR still counts as set
    assert_eq!(agent_socket_path(Some(""), Some("/run/u"), "h"), "h.sock");
}

#[test]
fn action_command_line() {
    assert_eq!(
        action_args("web", None, None),
        vec!["-o", "BatchMode=yes", "-o", "ConnectTimeout=10", "web", "/usr/local/bin/puppetterm-agent"]
    );
    assert_eq!(
        action_args("web", Some("/opt/agent"), Some("/tmp/s.sock")),
        vec!["-o", "BatchMode=yes", "-o", "ConnectTimeout=10", "-S", "/tmp/s.sock", "web", "/opt/agent"]
    );
}

#[test]
fn ndjson_lines() {
    assert_eq!(ndjson_event("  {\"type\":\"stdout\",\"data\":\"hi\"}  ").unwrap(), "{\"type\":\"stdout\",\"data\":\"hi\"}");
    assert!(ndjson_event("   ").is_none());
    assert!(ndjson_event("not json").is_none());
    assert!(ndjson_event("{\"unterminated\":").is_none());
    assert_eq!(ndjson_event("42").unwrap(), "42");
}

#[test]
fn finishing_a_run() {
    let ok = finish_action("web", 0, vec!["{}".to_string()], "").unwrap();
    assert_eq!(ok.host, "web");
    assert_eq!(ok.exit, 0);
    assert_eq!(ok.events, vec!["{}".to_string()]);

    // a failing exit with events is still a result
    let partial = finish_action("web", 3, vec!["{\"a\":1}".to_string()], "boom").unwrap();
    assert_eq!(partial.exit, 3);

    assert_eq!(
        finish_action("web", 255, vec![], "  Permission denied (publickey).\n").err().unwrap(),
        "Permission denied (publickey)."
    );
    assert_eq!(finish_action("web", 2, vec![], " \n").err().unwrap(), "agent action failed (exit 2)");
    assert_eq!(finish_action("web", -1, vec![], "").err().unwrap(), "agent action failed (exit -1)");
    // exit 0 with no events is fine
    assert!(finish_action("web", 0, vec![], "warning").is_ok());
}

#[test]
fn pkill_targets_the_user_before_the_first_at() {
    assert_eq!(
        pkill_args("ops@web"),
        vec!["-o", "BatchMode=yes", "-o", "ConnectTimeout=5", "ops@web", "pkill", "-TERM", "-u", "ops", "-f", "puppetterm-agent"]
    );
    // without '@' the whole host is taken as the user
    assert_eq!(
        pkill_args("web"),
        vec!["-o", "BatchMode=yes", "-o", "ConnectTimeout=5", "web", "pkill", "-TERM", "-u", "web", "-f", "puppetterm-agent"]
    );
    assert_eq!(
        pkill_args("@web"),
        vec!["-o", "BatchMode=yes", "-o", "ConnectTimeout=5", "@web", "pkill", "-TERM", "-f", "puppetterm-agent"]
    );
}

#[test]
fn registered_runs_are_found_until_unregistered() {
    let mut reg = ActionRegistry::new();
    reg.register("r-1", 100);
    reg.register("r-2", 200);
    reg.register("", 300);
    assert_eq!(reg.pid_of("r-1"), Some(100));
    assert_eq!(reg.pid_of("r-2"), Some(200));
    assert_eq!(reg.pid_of(""), None);
    reg.register("r-1", 101);
    assert_eq!(reg.pid_of("r-1"), Some(101));
    reg.unregister("r-1");
    assert_eq!(reg.pid_of("r-1"), None);
    assert_eq!(reg.pid_of("r-2"), Some(200));
}
