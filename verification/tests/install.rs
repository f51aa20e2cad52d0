use puppetterm::install::{
    agent_dir_choice, arch_for, installer_candidate, authorized_keys_entry, installer_args, key_body, pubkey_choice,
    InstallAction, InstallEvent, InstallRequest, Installer, Op, Payload, Step,
};

fn request(force: bool, pubkey: Option<&str>) -> InstallRequest {
    InstallRequest {
        host: "ops@web".to_string(),
        agent_dir: Some("/opt/agents".to_string()),
        env_agent_dir: None,
        local_home: "/home/me".to_string(),
        pubkey_path: pubkey.map(|p| p.to_string()),
        env_pubkey: None,
        force,
    }
}

fn ran(out: &str) -> InstallEvent {
    InstallEvent::Ran(Ok((0, out.to_string())))
}

fn runs(step: &Step) -> Vec<Vec<String>> {
    match &step.action {
        InstallAction::Ops(ops) => ops
            .iter()
            .filter_map(|o| match o {
                Op::Run(r) => Some(r.args.clone()),
                Op::Say(_) => None,
            })
            .collect(),
        _ => panic!("expected a batch"),
    }
}

fn says(step: &Step) -> Vec<String> {
    let mut v = step.say.clone();
    if let InstallAction::Ops(ops) = &step.action {
        for o in ops {
            if let Op::Say(t) = o {
                v.push(t.clone());
            }
        }
    }
    v
}

#[test]
fn installer_next_to_the_agent_tree() {
    assert_eq!(installer_candidate("/repo/agent/bin").as_deref(), Some("/repo/installer/install.sh"));
    assert_eq!(installer_candidate("agent/bin").as_deref(), Some("installer/install.sh"));
    assert!(installer_candidate("/bin").is_none());
    assert!(installer_candidate("/").is_none());
}

#[test]
fn small_decisions() {
    assert_eq!(arch_for("x86_64").as_deref(), Some("amd64"));
    assert_eq!(arch_for("arm64").as_deref(), Some("arm64"));
    assert_eq!(arch_for("aarch64").as_deref(), Some("arm64"));
    assert!(arch_for("riscv64").is_none());
    assert_eq!(agent_dir_choice(Some("/a"), Some("/b"), "/h"), "/a");
    assert_eq!(agent_dir_choice(None, Some("/b"), "/h"), "/b");
    assert_eq!(agent_dir_choice(Some(""), Some("/b"), "/h"), "/h/.puppetterm/agents");
    assert_eq!(agent_dir_choice(None, None, "/h"), "/h/.puppetterm/agents");
    assert_eq!(pubkey_choice(Some("/k.pub"), Some("/e.pub")).as_deref(), Some("/k.pub"));
    assert_eq!(pubkey_choice(None, Some("/e.pub")).as_deref(), Some("/e.pub"));
    assert!(pubkey_choice(Some(""), Some("/e.pub")).is_none());
    assert_eq!(key_body("ssh-ed25519 AAAAC3 me@laptop\n").as_deref(), Some("ssh-ed25519 AAAAC3"));
    assert!(key_body("ssh-ed25519").is_none());
    assert_eq!(
        authorized_keys_entry("/home/ops/a", "ssh-ed25519 AAA"),
        "\n# puppetterm-agent (command-locked)\nrestrict,command=\"/home/ops/a\",no-pty,no-agent-forwarding,no-port-forwarding,no-X11-forwarding ssh-ed25519 AAA puppetterm-agent\n"
    );
    assert_eq!(
        installer_args("ops", true),
        vec![
            "sudo", "-n", "bash", "/tmp/puppetterm-install.sh", "--binary", "/tmp/puppetterm-agent",
            "--agent-pubkey", "/tmp/puppetterm-agent.pub", "--ssh-user", "ops", "--yes",
        ]
    );
    assert_eq!(
        installer_args("ops", false),
        vec!["sudo", "-n", "bash", "/tmp/puppetterm-install.sh", "--binary", "/tmp/puppetterm-agent", "--ssh-user", "ops", "--yes"]
    );
}

#[test]
fn fresh_user_space_install_without_key_or_installer() {
    let (mut inst, step) = Installer::start(request(false, None));
    assert_eq!(runs(&step), vec![vec!["uname".to_string(), "-m".to_string()]]);

    let step = inst.advance(ran("x86_64\n"));
    assert_eq!(says(&step), vec!["==> puppetterm-agent install on ops@web (x86_64)".to_string()]);
    assert_eq!(runs(&step), vec![vec!["sh".to_string(), "-c".to_string(), "'echo \"$HOME\"'".to_string()]]);

    let step = inst.advance(ran("/home/ops\n"));
    assert!(matches!(&step.action, InstallAction::Probe(a) if a[2] == "$HOME/.snap/app/puppetterm/bin/puppetterm-agent"));
    let step = inst.advance(InstallEvent::Probed(false));
    assert!(matches!(&step.action, InstallAction::Probe(a) if a[2] == "/var/local/puppetterm/bin/puppetterm-agent"));
    let step = inst.advance(InstallEvent::Probed(false));
    assert!(matches!(&step.action, InstallAction::Probe(a) if a[2] == "/usr/local/bin/puppetterm-agent"));
    let step = inst.advance(InstallEvent::Probed(false));
    assert!(step.say.is_empty());
    assert_eq!(runs(&step), vec![vec!["whoami".to_string()]]);

    let step = inst.advance(ran("ops\n"));
    assert!(matches!(&step.action, InstallAction::ReadBinary(p) if p == "/opt/agents/puppetterm-agent-linux-amd64"));

    let step = inst.advance(InstallEvent::FileRead(Ok(String::new())));
    let lines = says(&step);
    assert_eq!(lines[0], "==> creating ~/.snap/app/puppetterm/bin");
    assert_eq!(lines[1], "==> installing binary (user-space)");
    assert!(lines.contains(&"==> skipping agent key (no pubkey configured — the client uses your SSH key)".to_string()));
    let r = runs(&step);
    assert_eq!(r.last().unwrap(), &vec!["/home/ops/.snap/app/puppetterm/bin/puppetterm-agent".to_string()]);
    if let InstallAction::Ops(ops) = &step.action {
        let uploads: Vec<&Payload> = ops
            .iter()
            .filter_map(|o| match o {
                Op::Run(r) => Some(&r.stdin),
                _ => None,
            })
            .collect();
        assert!(matches!(uploads[2], Payload::AgentBinary));
    }

    let step = inst.advance(ran("{\"exit\":0,\"type\":\"snapshot\"}\n"));
    assert_eq!(step.say, vec!["    agent responded OK".to_string()]);
    assert!(matches!(&step.action, InstallAction::FindInstaller(d) if d == "/opt/agents"));

    let step = inst.advance(InstallEvent::InstallerAt(None));
    assert_eq!(step.say.last().unwrap(), "==> done: agent installed on ops@web");
    match step.action {
        InstallAction::Finish(r) => {
            assert_eq!(r.host, "ops@web");
            assert_eq!(r.arch, "amd64");
            assert_eq!(r.agent_path, "/home/ops/.snap/app/puppetterm/bin/puppetterm-agent");
            assert_eq!(r.mode, "user");
            assert!(!r.sudoers);
            assert!(!r.already);
        }
        _ => panic!("expected finish"),
    }
    // a finished install refuses further events
    assert!(matches!(inst.advance(ran("")).action, InstallAction::Fail(_)));
}

#[test]
fn existing_agent_without_force_is_refreshed() {
    let (mut inst, _) = Installer::start(request(false, None));
    inst.advance(ran("aarch64"));
    inst.advance(ran("/home/ops"));
    inst.advance(InstallEvent::Probed(false));
    let step = inst.advance(InstallEvent::Probed(true));
    assert_eq!(
        step.say,
        vec!["==> agent already installed — refreshing binary + config (idempotent)".to_string()]
    );
    assert_eq!(runs(&step), vec![vec!["whoami".to_string()]]);

    let step = inst.advance(ran("ops\n"));
    assert!(matches!(&step.action, InstallAction::ReadBinary(p) if p == "/opt/agents/puppetterm-agent-linux-arm64"));
    let step = inst.advance(InstallEvent::FileRead(Ok(String::new())));
    let lines = says(&step);
    assert_eq!(lines[1], "==> refreshing binary (user-space)");
    if let InstallAction::Ops(ops) = &step.action {
        assert!(ops.iter().any(|o| matches!(o, Op::Run(r) if matches!(r.stdin, Payload::AgentBinary))));
    }

    let step = inst.advance(ran("{\"exit\":0,\"type\":\"snapshot\"}\n"));
    assert!(matches!(&step.action, InstallAction::FindInstaller(d) if d == "/opt/agents"));
    let step = inst.advance(InstallEvent::InstallerAt(None));
    assert_eq!(step.say.last().unwrap(), "==> done: agent installed on ops@web");
    match step.action {
        InstallAction::Finish(r) => {
            assert!(r.already);
            assert_eq!(r.arch, "arm64");
            assert_eq!(r.agent_path, "/home/ops/.snap/app/puppetterm/bin/puppetterm-agent");
            assert_eq!(r.mode, "user");
        }
        _ => panic!("expected finish"),
    }
}

#[test]
fn forced_refresh_with_key_and_sudo_installs_as_root() {
    let (mut inst, _) = Installer::start(request(true, Some("/keys/agent.pub")));
    inst.advance(ran("x86_64"));
    inst.advance(ran("/home/ops"));
    let step = inst.advance(InstallEvent::Probed(true));
    assert_eq!(step.say, vec!["==> agent already installed — forced update: refreshing binary + config".to_string()]);
    inst.advance(ran("ops"));
    let step = inst.advance(InstallEvent::FileRead(Ok(String::new())));
    assert!(matches!(&step.action, InstallAction::ReadPubkey(p) if p == "/keys/agent.pub"));
    let step = inst.advance(InstallEvent::FileRead(Ok("ssh-ed25519 AAAAkey agent@host\n".to_string())));
    let lines = says(&step);
    assert_eq!(lines[1], "==> refreshing binary (user-space)");
    assert_eq!(lines.last().unwrap(), "==> authorizing agent key (command-locked)");
    assert_eq!(runs(&step).last().unwrap(), &vec!["cat".to_string(), "~/.ssh/authorized_keys".to_string()]);

    let step = inst.advance(ran("ssh-rsa other me\n"));
    let r = runs(&step);
    assert_eq!(r[0], vec!["mkdir".to_string(), "-p".to_string(), "~/.ssh".to_string()]);
    if let InstallAction::Ops(ops) = &step.action {
        match &ops[1] {
            Op::Run(run) => match &run.stdin {
                Payload::Text(t) => assert!(t.contains("ssh-ed25519 AAAAkey puppetterm-agent")),
                _ => panic!("expected the key entry"),
            },
            _ => panic!("expected a command"),
        }
    }

    inst.advance(ran("{\"exit\":0}"));
    let step = inst.advance(InstallEvent::InstallerAt(Some("/repo/installer/install.sh".to_string())));
    assert_eq!(step.say, vec!["==> applying full-privileges installer (sudoers + config)".to_string()]);
    let step = inst.advance(InstallEvent::FileRead(Ok(String::new())));
    assert_eq!(runs(&step).len(), 3);
    let step = inst.advance(ran(""));
    assert!(matches!(&step.action, InstallAction::Probe(a) if a == &vec!["sudo", "-n", "true"]));
    let step = inst.advance(InstallEvent::Probed(true));
    assert_eq!(runs(&step)[0], installer_args("ops", true));
    let step = inst.advance(ran(""));
    assert_eq!(step.say[0], "==> full install complete (agentic privileges granted)");
    match step.action {
        InstallAction::Finish(r) => {
            assert_eq!(r.mode, "root");
            assert!(r.sudoers);
            assert!(r.already);
            assert_eq!(r.agent_path, "/home/ops/.snap/app/puppetterm/bin/puppetterm-agent");
        }
        _ => panic!("expected finish"),
    }
}

#[test]
fn failures_stop_the_install() {
    let (mut inst, _) = Installer::start(request(false, None));
    let step = inst.advance(ran("mips\n"));
    assert!(matches!(step.action, InstallAction::Fail(e) if e == "unsupported remote architecture: mips"));

    let (mut inst, _) = Installer::start(request(false, None));
    inst.advance(ran("x86_64"));
    let step = inst.advance(ran("  \n"));
    assert!(matches!(step.action, InstallAction::Fail(e) if e == "could not determine remote home directory"));

    let (mut inst, _) = Installer::start(request(false, None));
    let step = inst.advance(InstallEvent::Ran(Err("ssh: connect to host web port 22: Connection refused".to_string())));
    assert!(matches!(step.action, InstallAction::Fail(e) if e == "ssh: connect to host web port 22: Connection refused"));

    let (mut inst, _) = Installer::start(request(false, Some("/k.pub")));
    inst.advance(ran("x86_64"));
    inst.advance(ran("/home/ops"));
    inst.advance(InstallEvent::Probed(false));
    inst.advance(InstallEvent::Probed(false));
    inst.advance(InstallEvent::Probed(false));
    inst.advance(ran("ops"));
    let step = inst.advance(InstallEvent::FileRead(Err("No such file or directory (os error 2)".to_string())));
    assert!(matches!(step.action, InstallAction::Fail(e) if e == "agent binary not found at /opt/agents/puppetterm-agent-linux-amd64 (No such file or directory (os error 2)) — build with 'make cross' (agent/) and set PUPPETTERM_AGENT_DIR"));

    let (mut inst, _) = Installer::start(request(false, Some("/k.pub")));
    inst.advance(ran("x86_64"));
    inst.advance(ran("/home/ops"));
    inst.advance(InstallEvent::Probed(false));
    inst.advance(InstallEvent::Probed(false));
    inst.advance(InstallEvent::Probed(false));
    inst.advance(ran("ops"));
    inst.advance(InstallEvent::FileRead(Ok(String::new())));
    let step = inst.advance(InstallEvent::FileRead(Ok("onlyoneword".to_string())));
    assert!(matches!(step.action, InstallAction::Fail(e) if e == "malformed agent pubkey at /k.pub"));
}

#[test]
fn failed_verification_reports_the_output() {
    let (mut inst, _) = Installer::start(request(false, None));
    inst.advance(ran("x86_64"));
    inst.advance(ran("/home/ops"));
    inst.advance(InstallEvent::Probed(false));
    inst.advance(InstallEvent::Probed(false));
    inst.advance(InstallEvent::Probed(false));
    inst.advance(ran(""));
    inst.advance(InstallEvent::FileRead(Ok(String::new())));
    let step = inst.advance(ran("  {\"exit\":1}\n"));
    assert!(matches!(step.action, InstallAction::Fail(e) if e == "agent verification failed (exit 0): {\"exit\":1}"));
}

#[test]
fn no_sudo_for_an_unknown_user() {
    let (mut inst, _) = Installer::start(request(false, None));
    inst.advance(ran("x86_64"));
    inst.advance(ran("/home/ops"));
    inst.advance(InstallEvent::Probed(false));
    inst.advance(InstallEvent::Probed(false));
    inst.advance(InstallEvent::Probed(false));
    inst.advance(ran("  "));
    inst.advance(InstallEvent::FileRead(Ok(String::new())));
    inst.advance(ran("{\"exit\":0}"));
    inst.advance(InstallEvent::InstallerAt(Some("/i.sh".to_string())));
    let step = inst.advance(InstallEvent::FileRead(Ok(String::new())));
    assert_eq!(runs(&step).len(), 2);
    let step = inst.advance(ran(""));
    assert_eq!(step.say[0], "    (no passwordless sudo — user-space agent only; run installer/install.sh manually for full privileges)");
    assert!(matches!(step.action, InstallAction::Finish(r) if r.mode == "user" && !r.sudoers));
}
