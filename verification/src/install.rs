//! Installing `puppetterm-agent` on a remote host over the user's SSH keys.
//!
//! The installer is a state machine: [`Installer::start`] and
//! [`Installer::advance`] decide, from what the previous step reported, which
//! lines to show and what to do next (run remote commands, probe, read a local
//! file, look for the optional installer script, finish or fail). The caller
//! performs each action over SSH or on the local disk and hands back the
//! outcome as an [`InstallEvent`].

use vstd::prelude::*;
use crate::paths::{join, parent, path_join, path_parent};
use crate::text::{
    concat, contains, dec_int, i64_to_dec, push_str, split_words, str_contains, str_eq, trim,
    trim_str, views, words,
};

verus! {

// ---------------------------------------------------------------------------
// what the installer asks for
// ---------------------------------------------------------------------------

/// What a remote command reads on its stdin.
pub enum Payload {
    Nothing,
    /// The local agent binary read by `ReadBinary`.
    AgentBinary,
    /// The bytes of the agent public key file (empty when unreadable).
    PubkeyFile,
    /// The installer script read by `ReadInstaller`.
    InstallerScript,
    Text(String),
}

/// A payload, as text.
pub enum PayloadV {
    Nothing,
    AgentBinary,
    PubkeyFile,
    InstallerScript,
    Text(Seq<char>),
}

pub open spec fn payload_v(p: Payload) -> PayloadV {
    match p {
        Payload::Nothing => PayloadV::Nothing,
        Payload::AgentBinary => PayloadV::AgentBinary,
        Payload::PubkeyFile => PayloadV::PubkeyFile,
        Payload::InstallerScript => PayloadV::InstallerScript,
        Payload::Text(t) => PayloadV::Text(t@),
    }
}

/// One remote command (run with the SSH retry rules); `stream` says whether
/// its stdout lines are shown as progress.
pub struct RemoteRun {
    pub args: Vec<String>,
    pub stdin: Payload,
    pub stream: bool,
}

/// One item of a batch: show a line, or run a remote command.
pub enum Op {
    Say(String),
    Run(RemoteRun),
}

/// A batch item, as text.
pub enum OpV {
    Say(Seq<char>),
    Run(Seq<Seq<char>>, PayloadV, bool),
}

pub open spec fn op_v(o: Op) -> OpV {
    match o {
        Op::Say(t) => OpV::Say(t@),
        Op::Run(r) => OpV::Run(views(r.args@), payload_v(r.stdin), r.stream),
    }
}

pub open spec fn ops_v(ops: Seq<Op>) -> Seq<OpV> {
    ops.map_values(|o: Op| op_v(o))
}

/// What an install produced.
pub struct InstallResult {
    pub host: String,
    pub arch: String,
    pub agent_path: String,
    /// `user` or `root`.
    pub mode: String,
    pub sudoers: bool,
    /// The agent was already present.
    pub already: bool,
}

/// An install result, as text.
pub struct ResultV {
    pub host: Seq<char>,
    pub arch: Seq<char>,
    pub agent_path: Seq<char>,
    pub mode: Seq<char>,
    pub sudoers: bool,
    pub already: bool,
}

pub open spec fn result_v(r: InstallResult) -> ResultV {
    ResultV {
        host: r.host@,
        arch: r.arch@,
        agent_path: r.agent_path@,
        mode: r.mode@,
        sudoers: r.sudoers,
        already: r.already,
    }
}

/// The next thing to do.
pub enum InstallAction {
    /// Run the batch in order; stop at the first failing command. Answered by
    /// `Ran` with the last command's exit code and stdout, or the failure.
    Ops(Vec<Op>),
    /// Run a remote command; answered by `Probed` with whether it succeeded.
    Probe(Vec<String>),
    /// Read the local agent binary; answered by `FileRead`.
    ReadBinary(String),
    /// Read the agent public key as text; answered by `FileRead`.
    ReadPubkey(String),
    /// Look for the optional installer script next to this agent directory;
    /// answered by `InstallerAt`.
    FindInstaller(String),
    /// Read the installer script; answered by `FileRead`.
    ReadInstaller(String),
    Finish(InstallResult),
    Fail(String),
}

/// An action, as text.
pub enum ActionV {
    Ops(Seq<OpV>),
    Probe(Seq<Seq<char>>),
    ReadBinary(Seq<char>),
    ReadPubkey(Seq<char>),
    FindInstaller(Seq<char>),
    ReadInstaller(Seq<char>),
    Finish(ResultV),
    Fail(Seq<char>),
}

pub open spec fn action_v(a: InstallAction) -> ActionV {
    match a {
        InstallAction::Ops(ops) => ActionV::Ops(ops_v(ops@)),
        InstallAction::Probe(args) => ActionV::Probe(views(args@)),
        InstallAction::ReadBinary(p) => ActionV::ReadBinary(p@),
        InstallAction::ReadPubkey(p) => ActionV::ReadPubkey(p@),
        InstallAction::FindInstaller(d) => ActionV::FindInstaller(d@),
        InstallAction::ReadInstaller(p) => ActionV::ReadInstaller(p@),
        InstallAction::Finish(r) => ActionV::Finish(result_v(r)),
        InstallAction::Fail(e) => ActionV::Fail(e@),
    }
}

/// Lines to show, then an action.
pub struct Step {
    pub say: Vec<String>,
    pub action: InstallAction,
}

/// What the caller observed.
pub enum InstallEvent {
    /// A batch ran: the last command's exit code and stdout, or the error.
    Ran(Result<(i32, String), String>),
    Probed(bool),
    /// A local file was read (its text, when the action reads text), or the
    /// error's text.
    FileRead(Result<String, String>),
    InstallerAt(Option<String>),
}

/// An event, as text.
pub enum EventV {
    Ran(Result<(i32, Seq<char>), Seq<char>>),
    Probed(bool),
    FileRead(Result<Seq<char>, Seq<char>>),
    InstallerAt(Option<Seq<char>>),
}

pub open spec fn event_v(e: InstallEvent) -> EventV {
    match e {
        InstallEvent::Ran(Ok((c, out))) => EventV::Ran(Ok((c, out@))),
        InstallEvent::Ran(Err(m)) => EventV::Ran(Err(m@)),
        InstallEvent::Probed(b) => EventV::Probed(b),
        InstallEvent::FileRead(Ok(t)) => EventV::FileRead(Ok(t@)),
        InstallEvent::FileRead(Err(m)) => EventV::FileRead(Err(m@)),
        InstallEvent::InstallerAt(Some(p)) => EventV::InstallerAt(Some(p@)),
        InstallEvent::InstallerAt(None) => EventV::InstallerAt(None),
    }
}

// ---------------------------------------------------------------------------
// fixed texts and small decisions
// ---------------------------------------------------------------------------

/// `uname -m` output to the agent build: `amd64` or `arm64`.
pub open spec fn arch_of(machine: Seq<char>) -> Option<Seq<char>> {
    if machine == "x86_64"@ || machine == "amd64"@ {
        Some("amd64"@)
    } else if machine == "aarch64"@ || machine == "arm64"@ {
        Some("arm64"@)
    } else {
        None
    }
}

/// Decides [`arch_of`].
pub fn arch_for(machine: &str) -> (r: Option<String>)
    ensures
        match arch_of(machine@) {
            Some(a) => r matches Some(s) && s@ == a,
            None => r is None,
        },
{
    if str_eq(machine, "x86_64") || str_eq(machine, "amd64") {
        Some("amd64".to_owned())
    } else if str_eq(machine, "aarch64") || str_eq(machine, "arm64") {
        Some("arm64".to_owned())
    } else {
        None
    }
}

/// The agent's place under a remote home directory.
pub open spec fn agent_in_home(home: Seq<char>) -> Seq<char> {
    home + "/.snap/app/puppetterm/bin/puppetterm-agent"@
}

/// Where the agent looks for prebuilt binaries: the explicit directory, else
/// `PUPPETTERM_AGENT_DIR`, unless the chosen value is empty, in which case
/// `$HOME/.puppetterm/agents`.
pub open spec fn agent_dir_of(param: Option<Seq<char>>, env: Option<Seq<char>>, home: Seq<char>) -> Seq<char> {
    let chosen = match param {
        Some(d) => Some(d),
        None => env,
    };
    match chosen {
        Some(d) if d.len() > 0 => d,
        _ => home + "/.puppetterm/agents"@,
    }
}

/// Decides [`agent_dir_of`].
pub fn agent_dir_choice(param: Option<&str>, env: Option<&str>, home: &str) -> (r: String)
    ensures
        r@ == agent_dir_of(opt_v(param), opt_v(env), home@),
{
    let chosen = match param {
        Some(d) => Some(d),
        None => env,
    };
    match chosen {
        Some(d) => {
            if !d.is_empty() {
                return d.to_owned();
            }
        },
        None => {},
    }
    concat(home, "/.puppetterm/agents")
}

/// The view of an optional string slice.
pub open spec fn opt_v(o: Option<&str>) -> Option<Seq<char>> {
    match o {
        Some(s) => Some(s@),
        None => None,
    }
}

/// The view of an optional string.
pub open spec fn opt_sv(o: Option<String>) -> Option<Seq<char>> {
    match o {
        Some(s) => Some(s@),
        None => None,
    }
}

/// The agent public key file: the explicit path, else
/// `PUPPETTERM_AGENT_PUBKEY`; an empty choice means no key.
pub open spec fn pubkey_of(param: Option<Seq<char>>, env: Option<Seq<char>>) -> Option<Seq<char>> {
    let chosen = match param {
        Some(p) => Some(p),
        None => env,
    };
    match chosen {
        Some(p) if p.len() > 0 => Some(p),
        _ => None,
    }
}

/// Decides [`pubkey_of`].
pub fn pubkey_choice(param: Option<&str>, env: Option<&str>) -> (r: Option<String>)
    ensures
        opt_sv(r) == pubkey_of(opt_v(param), opt_v(env)),
{
    let chosen = match param {
        Some(p) => Some(p),
        None => env,
    };
    match chosen {
        Some(p) => {
            if p.is_empty() {
                None
            } else {
                Some(p.to_owned())
            }
        },
        None => None,
    }
}

/// The `type key` part of an OpenSSH public key line: its first two words,
/// when it has two.
pub open spec fn key_body_of(text: Seq<char>) -> Option<Seq<char>> {
    let w = words(text);
    if w.len() >= 2 {
        Some(w[0] + " "@ + w[1])
    } else {
        None
    }
}

/// Decides [`key_body_of`].
pub fn key_body(text: &str) -> (r: Option<String>)
    ensures
        opt_sv(r) == key_body_of(text@),
{
    let w = split_words(text);
    if w.len() >= 2 {
        let mut s = concat(w[0].as_str(), " ");
        push_str(&mut s, w[1].as_str());
        Some(s)
    } else {
        None
    }
}

/// The command-locked `authorized_keys` entry for the agent key.
pub open spec fn lock_entry(abs_agent: Seq<char>, body: Seq<char>) -> Seq<char> {
    "\n# puppetterm-agent (command-locked)\nrestrict,command=\""@ + abs_agent
        + "\",no-pty,no-agent-forwarding,no-port-forwarding,no-X11-forwarding "@ + body
        + " puppetterm-agent\n"@
}

/// Builds [`lock_entry`].
pub fn authorized_keys_entry(abs_agent: &str, body: &str) -> (r: String)
    ensures
        r@ == lock_entry(abs_agent@, body@),
{
    let mut s = "\n# puppetterm-agent (command-locked)\nrestrict,command=\"".to_owned();
    push_str(&mut s, abs_agent);
    push_str(&mut s, "\",no-pty,no-agent-forwarding,no-port-forwarding,no-X11-forwarding ");
    push_str(&mut s, body);
    push_str(&mut s, " puppetterm-agent\n");
    s
}

/// The privileged installer's command line.
pub open spec fn installer_args_spec(user: Seq<char>, with_pubkey: bool) -> Seq<Seq<char>> {
    let head = seq!["sudo"@, "-n"@, "bash"@, "/tmp/puppetterm-install.sh"@, "--binary"@, "/tmp/puppetterm-agent"@];
    let key = if with_pubkey {
        seq!["--agent-pubkey"@, "/tmp/puppetterm-agent.pub"@]
    } else {
        Seq::empty()
    };
    head + key + seq!["--ssh-user"@, user, "--yes"@]
}

/// Builds [`installer_args_spec`].
pub fn installer_args(user: &str, with_pubkey: bool) -> (r: Vec<String>)
    ensures
        views(r@) == installer_args_spec(user@, with_pubkey),
{
    let mut r: Vec<String> = Vec::new();
    r.push("sudo".to_owned());
    r.push("-n".to_owned());
    r.push("bash".to_owned());
    r.push("/tmp/puppetterm-install.sh".to_owned());
    r.push("--binary".to_owned());
    r.push("/tmp/puppetterm-agent".to_owned());
    if with_pubkey {
        r.push("--agent-pubkey".to_owned());
        r.push("/tmp/puppetterm-agent.pub".to_owned());
    }
    r.push("--ssh-user".to_owned());
    r.push(user.to_owned());
    r.push("--yes".to_owned());
    assert(views(r@) =~= installer_args_spec(user@, with_pubkey));
    r
}

/// Where the privileged installer sits in a development tree: two levels
/// above the agent directory, under `installer/install.sh`.
pub open spec fn installer_candidate_spec(agent_dir: Seq<char>) -> Option<Seq<char>> {
    match path_parent(agent_dir) {
        Some(p) => match path_parent(p) {
            Some(q) => Some(path_join(path_join(q, "installer"@), "install.sh"@)),
            None => None,
        },
        None => None,
    }
}

/// Decides [`installer_candidate_spec`].
pub fn installer_candidate(agent_dir: &str) -> (r: Option<String>)
    ensures
        opt_sv(r) == installer_candidate_spec(agent_dir@),
{
    match parent(agent_dir) {
        Some(p) => match parent(p.as_str()) {
            Some(q) => {
                let d = join(q.as_str(), "installer");
                Some(join(d.as_str(), "install.sh"))
            },
            None => None,
        },
        None => None,
    }
}

/// The snapshot request that checks a fresh agent answers.
pub open spec fn check_request() -> Seq<char> {
    "{\"action\":\"snapshot\",\"request_id\":\"install-check\"}\n"@
}

/// The agent's allow-list config.
pub open spec fn agent_config() -> Seq<char> {
    "{\"log_prefixes\":[\"/var/log/\"],\"config_prefixes\":[]}\n"@
}


// ---------------------------------------------------------------------------
// the state machine
// ---------------------------------------------------------------------------

/// Where an install stands.
#[derive(PartialEq, Eq, Structural, Clone, Copy)]
pub enum Stage {
    Arch,
    Home,
    ProbeUser,
    ProbeVar,
    ProbeUsr,
    Whoami,
    Binary,
    Pubkey,
    Keys,
    Verify,
    Find,
    Script,
    Uploaded,
    Sudo,
    Privileged,
    Over,
}

/// The order in which stages are passed.
pub open spec fn rank(s: Stage) -> int {
    match s {
        Stage::Arch => 0,
        Stage::Home => 1,
        Stage::ProbeUser => 2,
        Stage::ProbeVar => 3,
        Stage::ProbeUsr => 4,
        Stage::Whoami => 5,
        Stage::Binary => 6,
        Stage::Pubkey => 7,
        Stage::Keys => 8,
        Stage::Verify => 9,
        Stage::Find => 10,
        Stage::Script => 11,
        Stage::Uploaded => 12,
        Stage::Sudo => 13,
        Stage::Privileged => 14,
        Stage::Over => 15,
    }
}

/// What an install is asked to do, with the local environment it reads
/// (`PUPPETTERM_AGENT_DIR`, `$HOME`, `PUPPETTERM_AGENT_PUBKEY`).
pub struct InstallRequest {
    pub host: String,
    pub agent_dir: Option<String>,
    pub env_agent_dir: Option<String>,
    pub local_home: String,
    pub pubkey_path: Option<String>,
    pub env_pubkey: Option<String>,
    pub force: bool,
}

/// A running install.
pub struct Installer {
    pub req: InstallRequest,
    pub stage: Stage,
    pub arch: String,
    pub abs_agent: String,
    pub existing: Option<String>,
    pub ssh_user: String,
    pub dir: String,
    pub bin_path: String,
    pub pubkey_file: String,
    pub have_pubkey: bool,
    pub key_body: String,
    pub installer: String,
}

/// A running install, as text.
pub struct InstallerV {
    pub host: Seq<char>,
    pub agent_dir: Option<Seq<char>>,
    pub env_agent_dir: Option<Seq<char>>,
    pub local_home: Seq<char>,
    pub pubkey_path: Option<Seq<char>>,
    pub env_pubkey: Option<Seq<char>>,
    pub force: bool,
    pub stage: Stage,
    pub arch: Seq<char>,
    pub abs_agent: Seq<char>,
    pub existing: Option<Seq<char>>,
    pub ssh_user: Seq<char>,
    pub dir: Seq<char>,
    pub bin_path: Seq<char>,
    pub pubkey_file: Seq<char>,
    pub have_pubkey: bool,
    pub key_body: Seq<char>,
    pub installer: Seq<char>,
}

pub open spec fn installer_v(i: Installer) -> InstallerV {
    InstallerV {
        host: i.req.host@,
        agent_dir: opt_sv(i.req.agent_dir),
        env_agent_dir: opt_sv(i.req.env_agent_dir),
        local_home: i.req.local_home@,
        pubkey_path: opt_sv(i.req.pubkey_path),
        env_pubkey: opt_sv(i.req.env_pubkey),
        force: i.req.force,
        stage: i.stage,
        arch: i.arch@,
        abs_agent: i.abs_agent@,
        existing: opt_sv(i.existing),
        ssh_user: i.ssh_user@,
        dir: i.dir@,
        bin_path: i.bin_path@,
        pubkey_file: i.pubkey_file@,
        have_pubkey: i.have_pubkey,
        key_body: i.key_body@,
        installer: i.installer@,
    }
}

/// A transition: the new state, the lines to show and the action.
pub struct Transition {
    pub next: InstallerV,
    pub say: Seq<Seq<char>>,
    pub action: ActionV,
}

pub open spec fn quiet(args: Seq<Seq<char>>) -> OpV {
    OpV::Run(args, PayloadV::Nothing, false)
}

pub open spec fn shown(args: Seq<Seq<char>>) -> OpV {
    OpV::Run(args, PayloadV::Nothing, true)
}

pub open spec fn probe_args(path: Seq<char>) -> Seq<Seq<char>> {
    seq!["test"@, "-x"@, path]
}

pub open spec fn home_probe_path() -> Seq<char> {
    "$HOME/.snap/app/puppetterm/bin/puppetterm-agent"@
}

pub open spec fn var_agent_path() -> Seq<char> {
    "/var/local/puppetterm/bin/puppetterm-agent"@
}

pub open spec fn usr_agent_path() -> Seq<char> {
    "/usr/local/bin/puppetterm-agent"@
}

pub open spec fn tmp_agent() -> Seq<char> {
    "~/.snap/app/puppetterm/bin/puppetterm-agent.tmp"@
}

/// The result an install reports from state `s`.
pub open spec fn result_of(s: InstallerV, mode: Seq<char>, sudoers: bool) -> ResultV {
    ResultV {
        host: s.host,
        arch: s.arch,
        agent_path: s.abs_agent,
        mode,
        sudoers,
        already: s.existing is Some,
    }
}

pub open spec fn done_line(host: Seq<char>) -> Seq<char> {
    "==> done: agent installed on "@ + host
}

pub open spec fn no_sudo_line() -> Seq<char> {
    "    (no passwordless sudo — user-space agent only; run installer/install.sh manually for full privileges)"@
}

pub open spec fn fail_t(s: InstallerV, msg: Seq<char>) -> Transition {
    Transition { next: InstallerV { stage: Stage::Over, ..s }, say: seq![], action: ActionV::Fail(msg) }
}

pub open spec fn out_of_order(s: InstallerV) -> Transition {
    fail_t(s, "install step out of order"@)
}

/// Copy the binary into place (through a temp file, so a running agent keeps
/// its old inode).
pub open spec fn upload_ops(already: bool) -> Seq<OpV> {
    seq![
        OpV::Say("==> creating ~/.snap/app/puppetterm/bin"@),
        shown(seq!["mkdir"@, "-p"@, "~/.snap/app/puppetterm/bin"@]),
        shown(seq!["chmod"@, "0755"@, "~/.snap/app/puppetterm"@]),
        OpV::Say(if already { "==> refreshing binary (user-space)"@ } else { "==> installing binary (user-space)"@ }),
        OpV::Run(seq!["cat"@, ">"@, tmp_agent()], PayloadV::AgentBinary, false),
        shown(seq!["chmod"@, "0755"@, tmp_agent()]),
        shown(seq!["mv"@, "-f"@, tmp_agent(), "~/.snap/app/puppetterm/bin/puppetterm-agent"@]),
    ]
}

/// Write the allow-list config and ask the new agent for a snapshot.
pub open spec fn config_ops(abs_agent: Seq<char>) -> Seq<OpV> {
    seq![
        OpV::Say("==> writing agent config"@),
        OpV::Run(seq!["cat"@, ">"@, "~/.snap/app/puppetterm/config.json"@], PayloadV::Text(agent_config()), false),
        shown(seq!["chmod"@, "0644"@, "~/.snap/app/puppetterm/config.json"@]),
        OpV::Say("==> verifying agent"@),
        OpV::Run(seq![abs_agent], PayloadV::Text(check_request()), false),
    ]
}

/// After the binary (and the key, if any) is known: upload, then either read
/// `authorized_keys` or go on to the config.
pub open spec fn upload_t(s: InstallerV) -> Transition {
    if s.have_pubkey {
        Transition {
            next: InstallerV { stage: Stage::Keys, ..s },
            say: seq![],
            action: ActionV::Ops(upload_ops(s.existing is Some) + seq![
                OpV::Say("==> authorizing agent key (command-locked)"@),
                quiet(seq!["cat"@, "~/.ssh/authorized_keys"@]),
            ]),
        }
    } else {
        Transition {
            next: InstallerV { stage: Stage::Verify, ..s },
            say: seq![],
            action: ActionV::Ops(upload_ops(s.existing is Some) + seq![
                OpV::Say("==> skipping agent key (no pubkey configured — the client uses your SSH key)"@),
            ] + config_ops(s.abs_agent)),
        }
    }
}

/// After the probes: remember whether an agent is already there (a re-run
/// refreshes it, forced or not) and go on to ask for the SSH user.
pub open spec fn decide_t(s: InstallerV, existing: Option<Seq<char>>) -> Transition {
    Transition {
        next: InstallerV { stage: Stage::Whoami, existing, ..s },
        say: if existing is Some {
            seq![if s.force {
                "==> agent already installed — forced update: refreshing binary + config"@
            } else {
                "==> agent already installed — refreshing binary + config (idempotent)"@
            }]
        } else {
            seq![]
        },
        action: ActionV::Ops(seq![quiet(seq!["whoami"@])]),
    }
}

/// Finish as a user-space install after finding no way to escalate.
pub open spec fn no_sudo_t(s: InstallerV) -> Transition {
    Transition {
        next: InstallerV { stage: Stage::Over, ..s },
        say: seq![no_sudo_line(), done_line(s.host)],
        action: ActionV::Finish(result_of(s, "user"@, false)),
    }
}

/// One step of an install.
pub open spec fn install_next(s: InstallerV, ev: EventV) -> Transition {
    match s.stage {
        Stage::Arch => match ev {
            EventV::Ran(Ok((_, out))) => {
                let m = trim(out);
                match arch_of(m) {
                    Some(a) => Transition {
                        next: InstallerV { stage: Stage::Home, arch: a, ..s },
                        say: seq![],
                        action: ActionV::Ops(seq![
                            OpV::Say("==> puppetterm-agent install on "@ + s.host + " ("@ + m + ")"@),
                            quiet(seq!["sh"@, "-c"@, "'echo \"$HOME\"'"@]),
                        ]),
                    },
                    None => fail_t(s, "unsupported remote architecture: "@ + m),
                }
            },
            EventV::Ran(Err(e)) => fail_t(s, e),
            _ => out_of_order(s),
        },
        Stage::Home => match ev {
            EventV::Ran(Ok((_, out))) => {
                let h = trim(out);
                if h.len() == 0 {
                    fail_t(s, "could not determine remote home directory"@)
                } else {
                    Transition {
                        next: InstallerV { stage: Stage::ProbeUser, abs_agent: agent_in_home(h), ..s },
                        say: seq![],
                        action: ActionV::Probe(probe_args(home_probe_path())),
                    }
                }
            },
            EventV::Ran(Err(e)) => fail_t(s, e),
            _ => out_of_order(s),
        },
        Stage::ProbeUser => match ev {
            EventV::Probed(true) => decide_t(s, Some(s.abs_agent)),
            EventV::Probed(false) => Transition {
                next: InstallerV { stage: Stage::ProbeVar, ..s },
                say: seq![],
                action: ActionV::Probe(probe_args(var_agent_path())),
            },
            _ => out_of_order(s),
        },
        Stage::ProbeVar => match ev {
            EventV::Probed(true) => decide_t(s, Some(var_agent_path())),
            EventV::Probed(false) => Transition {
                next: InstallerV { stage: Stage::ProbeUsr, ..s },
                say: seq![],
                action: ActionV::Probe(probe_args(usr_agent_path())),
            },
            _ => out_of_order(s),
        },
        Stage::ProbeUsr => match ev {
            EventV::Probed(b) => decide_t(s, if b { Some(usr_agent_path()) } else { None }),
            _ => out_of_order(s),
        },
        Stage::Whoami => match ev {
            EventV::Ran(Ok((_, out))) => {
                let dir = agent_dir_of(s.agent_dir, s.env_agent_dir, s.local_home);
                let bin = path_join(dir, "puppetterm-agent-linux-"@ + s.arch);
                Transition {
                    next: InstallerV { stage: Stage::Binary, ssh_user: trim(out), dir, bin_path: bin, ..s },
                    say: seq![],
                    action: ActionV::ReadBinary(bin),
                }
            },
            EventV::Ran(Err(e)) => fail_t(s, e),
            _ => out_of_order(s),
        },
        Stage::Binary => match ev {
            EventV::FileRead(Ok(_)) => match pubkey_of(s.pubkey_path, s.env_pubkey) {
                Some(f) => Transition {
                    next: InstallerV { stage: Stage::Pubkey, pubkey_file: f, ..s },
                    say: seq![],
                    action: ActionV::ReadPubkey(f),
                },
                None => upload_t(InstallerV { have_pubkey: false, ..s }),
            },
            EventV::FileRead(Err(e)) => fail_t(s, "agent binary not found at "@ + s.bin_path + " ("@ + e
                + ") — build with 'make cross' (agent/) and set PUPPETTERM_AGENT_DIR"@),
            _ => out_of_order(s),
        },
        Stage::Pubkey => match ev {
            EventV::FileRead(Ok(text)) => match key_body_of(text) {
                Some(b) => upload_t(InstallerV { have_pubkey: true, key_body: b, ..s }),
                None => fail_t(s, "malformed agent pubkey at "@ + s.pubkey_file),
            },
            EventV::FileRead(Err(e)) => fail_t(s, "agent pubkey not found at "@ + s.pubkey_file + " ("@ + e + ")"@),
            _ => out_of_order(s),
        },
        Stage::Keys => match ev {
            EventV::Ran(Ok((_, out))) => Transition {
                next: InstallerV { stage: Stage::Verify, ..s },
                say: seq![],
                action: ActionV::Ops(
                    if contains(out, "puppetterm-agent"@) {
                        seq![OpV::Say("    agent key already present (skipping)"@)]
                    } else {
                        seq![
                            shown(seq!["mkdir"@, "-p"@, "~/.ssh"@]),
                            OpV::Run(seq!["cat"@, ">>"@, "~/.ssh/authorized_keys"@], PayloadV::Text(lock_entry(s.abs_agent, s.key_body)), false),
                            shown(seq!["chmod"@, "0600"@, "~/.ssh/authorized_keys"@]),
                            OpV::Say("    authorized_keys updated (command-locked entry)"@),
                        ]
                    } + config_ops(s.abs_agent),
                ),
            },
            EventV::Ran(Err(e)) => fail_t(s, e),
            _ => out_of_order(s),
        },
        Stage::Verify => match ev {
            EventV::Ran(Ok((code, out))) => {
                if code != 0 || !contains(out, "\"exit\":0"@) {
                    fail_t(s, "agent verification failed (exit "@ + dec_int(code as int) + "): "@ + trim(out))
                } else {
                    Transition {
                        next: InstallerV { stage: Stage::Find, ..s },
                        say: seq!["    agent responded OK"@],
                        action: ActionV::FindInstaller(s.dir),
                    }
                }
            },
            EventV::Ran(Err(e)) => fail_t(s, e),
            _ => out_of_order(s),
        },
        Stage::Find => match ev {
            EventV::InstallerAt(Some(p)) => Transition {
                next: InstallerV { stage: Stage::Script, installer: p, ..s },
                say: seq!["==> applying full-privileges installer (sudoers + config)"@],
                action: ActionV::ReadInstaller(p),
            },
            EventV::InstallerAt(None) => Transition {
                next: InstallerV { stage: Stage::Over, ..s },
                say: if s.existing is Some && !s.force {
                    seq![done_line(s.host)]
                } else {
                    seq![
                        "    (installer script not found — agent is active under ~/.snap/app/puppetterm; run installer/install.sh manually for full privileges)"@,
                        done_line(s.host),
                    ]
                },
                action: ActionV::Finish(result_of(s, "user"@, false)),
            },
            _ => out_of_order(s),
        },
        Stage::Script => match ev {
            EventV::FileRead(Ok(_)) => Transition {
                next: InstallerV { stage: Stage::Uploaded, ..s },
                say: seq![],
                action: ActionV::Ops(seq![
                    OpV::Run(seq!["cat"@, ">"@, "/tmp/puppetterm-install.sh"@], PayloadV::InstallerScript, false),
                    OpV::Run(seq!["cat"@, ">"@, "/tmp/puppetterm-agent"@], PayloadV::AgentBinary, false),
                ] + if s.have_pubkey {
                    seq![OpV::Run(seq!["cat"@, ">"@, "/tmp/puppetterm-agent.pub"@], PayloadV::PubkeyFile, false)]
                } else {
                    seq![]
                }),
            },
            EventV::FileRead(Err(e)) => fail_t(s, "cannot read installer "@ + s.installer + ": "@ + e),
            _ => out_of_order(s),
        },
        Stage::Uploaded => match ev {
            EventV::Ran(Ok(_)) => if s.ssh_user.len() > 0 {
                Transition {
                    next: InstallerV { stage: Stage::Sudo, ..s },
                    say: seq![],
                    action: ActionV::Probe(seq!["sudo"@, "-n"@, "true"@]),
                }
            } else {
                no_sudo_t(s)
            },
            EventV::Ran(Err(e)) => fail_t(s, e),
            _ => out_of_order(s),
        },
        Stage::Sudo => match ev {
            EventV::Probed(true) => Transition {
                next: InstallerV { stage: Stage::Privileged, ..s },
                say: seq![],
                action: ActionV::Ops(seq![shown(installer_args_spec(s.ssh_user, s.have_pubkey))]),
            },
            EventV::Probed(false) => no_sudo_t(s),
            _ => out_of_order(s),
        },
        Stage::Privileged => match ev {
            EventV::Ran(Ok(_)) => Transition {
                next: InstallerV { stage: Stage::Over, ..s },
                say: seq!["==> full install complete (agentic privileges granted)"@, done_line(s.host)],
                action: ActionV::Finish(result_of(s, "root"@, true)),
            },
            EventV::Ran(Err(e)) => fail_t(s, e),
            _ => out_of_order(s),
        },
        Stage::Over => out_of_order(s),
    }
}


/// `step` and the new state `i` are what transition `t` says.
pub open spec fn realizes(i: Installer, step: Step, t: Transition) -> bool {
    &&& installer_v(i) == t.next
    &&& views(step.say@) == t.say
    &&& action_v(step.action) == t.action
}

proof fn lemma_ops_v_add(a: Seq<Op>, b: Seq<Op>)
    ensures
        ops_v(a + b) == ops_v(a) + ops_v(b),
{
    assert(ops_v(a + b) =~= ops_v(a) + ops_v(b));
}

fn say_op(t: String) -> (o: Op)
    ensures
        op_v(o) == OpV::Say(t@),
{
    Op::Say(t)
}

fn run_op(args: Vec<String>, stdin: Payload, stream: bool) -> (o: Op)
    ensures
        op_v(o) == OpV::Run(views(args@), payload_v(stdin), stream),
{
    Op::Run(RemoteRun { args, stdin, stream })
}

fn a1(x: &str) -> (r: Vec<String>)
    ensures
        views(r@) == seq![x@],
{
    let mut r: Vec<String> = Vec::new();
    r.push(x.to_owned());
    assert(views(r@) =~= seq![x@]);
    r
}

fn a2(x: &str, y: &str) -> (r: Vec<String>)
    ensures
        views(r@) == seq![x@, y@],
{
    let mut r: Vec<String> = Vec::new();
    r.push(x.to_owned());
    r.push(y.to_owned());
    assert(views(r@) =~= seq![x@, y@]);
    r
}

fn a3(x: &str, y: &str, z: &str) -> (r: Vec<String>)
    ensures
        views(r@) == seq![x@, y@, z@],
{
    let mut r: Vec<String> = Vec::new();
    r.push(x.to_owned());
    r.push(y.to_owned());
    r.push(z.to_owned());
    assert(views(r@) =~= seq![x@, y@, z@]);
    r
}

fn a4(x: &str, y: &str, z: &str, w: &str) -> (r: Vec<String>)
    ensures
        views(r@) == seq![x@, y@, z@, w@],
{
    let mut r: Vec<String> = Vec::new();
    r.push(x.to_owned());
    r.push(y.to_owned());
    r.push(z.to_owned());
    r.push(w.to_owned());
    assert(views(r@) =~= seq![x@, y@, z@, w@]);
    r
}

fn no_lines() -> (r: Vec<String>)
    ensures
        views(r@) == Seq::<Seq<char>>::empty(),
{
    let r: Vec<String> = Vec::new();
    assert(views(r@) =~= Seq::<Seq<char>>::empty());
    r
}

fn line1(t: String) -> (r: Vec<String>)
    ensures
        views(r@) == seq![t@],
{
    let mut r: Vec<String> = Vec::new();
    r.push(t);
    assert(views(r@) =~= seq![r@[0]@]);
    r
}

fn line2(t: String, u: String) -> (r: Vec<String>)
    ensures
        views(r@) == seq![t@, u@],
{
    let mut r: Vec<String> = Vec::new();
    r.push(t);
    r.push(u);
    assert(views(r@) =~= seq![r@[0]@, r@[1]@]);
    r
}

fn as_opt_str(o: &Option<String>) -> (r: Option<&str>)
    ensures
        opt_v(r) == opt_sv(*o),
{
    match o {
        Some(s) => Some(s.as_str()),
        None => None,
    }
}

fn done_text(host: &str) -> (r: String)
    ensures
        r@ == done_line(host@),
{
    concat("==> done: agent installed on ", host)
}

fn upload_ops_exec(already: bool) -> (r: Vec<Op>)
    ensures
        ops_v(r@) == upload_ops(already),
{
    let mut r: Vec<Op> = Vec::new();
    r.push(say_op("==> creating ~/.snap/app/puppetterm/bin".to_owned()));
    r.push(run_op(a3("mkdir", "-p", "~/.snap/app/puppetterm/bin"), Payload::Nothing, true));
    r.push(run_op(a3("chmod", "0755", "~/.snap/app/puppetterm"), Payload::Nothing, true));
    let msg = if already {
        "==> refreshing binary (user-space)".to_owned()
    } else {
        "==> installing binary (user-space)".to_owned()
    };
    r.push(say_op(msg));
    r.push(run_op(a3("cat", ">", "~/.snap/app/puppetterm/bin/puppetterm-agent.tmp"), Payload::AgentBinary, false));
    r.push(run_op(a3("chmod", "0755", "~/.snap/app/puppetterm/bin/puppetterm-agent.tmp"), Payload::Nothing, true));
    r.push(run_op(
        a4("mv", "-f", "~/.snap/app/puppetterm/bin/puppetterm-agent.tmp", "~/.snap/app/puppetterm/bin/puppetterm-agent"),
        Payload::Nothing,
        true,
    ));
    assert(ops_v(r@) =~= upload_ops(already));
    r
}

fn config_ops_exec(abs_agent: &str) -> (r: Vec<Op>)
    ensures
        ops_v(r@) == config_ops(abs_agent@),
{
    let mut r: Vec<Op> = Vec::new();
    r.push(say_op("==> writing agent config".to_owned()));
    r.push(run_op(
        a3("cat", ">", "~/.snap/app/puppetterm/config.json"),
        Payload::Text("{\"log_prefixes\":[\"/var/log/\"],\"config_prefixes\":[]}\n".to_owned()),
        false,
    ));
    r.push(run_op(a3("chmod", "0644", "~/.snap/app/puppetterm/config.json"), Payload::Nothing, true));
    r.push(say_op("==> verifying agent".to_owned()));
    r.push(run_op(
        a1(abs_agent),
        Payload::Text("{\"action\":\"snapshot\",\"request_id\":\"install-check\"}\n".to_owned()),
        false,
    ));
    assert(ops_v(r@) =~= config_ops(abs_agent@));
    r
}

impl Installer {
    /// Begin installing on `req.host`: ask for the remote architecture.
    pub fn start(req: InstallRequest) -> (r: (Installer, Step))
        ensures
            installer_v(r.0) == (InstallerV {
                host: req.host@,
                agent_dir: opt_sv(req.agent_dir),
                env_agent_dir: opt_sv(req.env_agent_dir),
                local_home: req.local_home@,
                pubkey_path: opt_sv(req.pubkey_path),
                env_pubkey: opt_sv(req.env_pubkey),
                force: req.force,
                stage: Stage::Arch,
                arch: Seq::empty(),
                abs_agent: Seq::empty(),
                existing: None,
                ssh_user: Seq::empty(),
                dir: Seq::empty(),
                bin_path: Seq::empty(),
                pubkey_file: Seq::empty(),
                have_pubkey: false,
                key_body: Seq::empty(),
                installer: Seq::empty(),
            }),
            views(r.1.say@) == Seq::<Seq<char>>::empty(),
            action_v(r.1.action) == ActionV::Ops(seq![quiet(seq!["uname"@, "-m"@])]),
    {
        let i = Installer {
            req,
            stage: Stage::Arch,
            arch: String::new(),
            abs_agent: String::new(),
            existing: None,
            ssh_user: String::new(),
            dir: String::new(),
            bin_path: String::new(),
            pubkey_file: String::new(),
            have_pubkey: false,
            key_body: String::new(),
            installer: String::new(),
        };
        let mut ops: Vec<Op> = Vec::new();
        let mut args: Vec<String> = Vec::new();
        args.push("uname".to_owned());
        args.push("-m".to_owned());
        assert(views(args@) =~= seq!["uname"@, "-m"@]);
        ops.push(run_op(args, Payload::Nothing, false));
        assert(ops_v(ops@) =~= seq![quiet(seq!["uname"@, "-m"@])]);
        (i, Step { say: no_lines(), action: InstallAction::Ops(ops) })
    }

    fn fail(&mut self, msg: String) -> (step: Step)
        ensures
            realizes(*final(self), step, fail_t(installer_v(*old(self)), msg@)),
    {
        self.stage = Stage::Over;
        Step { say: no_lines(), action: InstallAction::Fail(msg) }
    }

    fn result(&self, mode: &str, sudoers: bool) -> (r: InstallResult)
        ensures
            result_v(r) == result_of(installer_v(*self), mode@, sudoers),
    {
        InstallResult {
            host: self.req.host.clone(),
            arch: self.arch.clone(),
            agent_path: self.abs_agent.clone(),
            mode: mode.to_owned(),
            sudoers,
            already: self.existing.is_some(),
        }
    }

    fn decide(&mut self, existing: Option<String>) -> (step: Step)
        ensures
            realizes(*final(self), step, decide_t(installer_v(*old(self)), opt_sv(existing))),
    {
        let found = existing.is_some();
        self.existing = existing;
        let say = if found {
            if self.req.force {
                line1("==> agent already installed — forced update: refreshing binary + config".to_owned())
            } else {
                line1("==> agent already installed — refreshing binary + config (idempotent)".to_owned())
            }
        } else {
            no_lines()
        };
        let mut ops: Vec<Op> = Vec::new();
        ops.push(run_op(a1("whoami"), Payload::Nothing, false));
        assert(ops_v(ops@) =~= seq![quiet(seq!["whoami"@])]);
        self.stage = Stage::Whoami;
        Step { say, action: InstallAction::Ops(ops) }
    }

    fn upload(&mut self) -> (step: Step)
        ensures
            realizes(*final(self), step, upload_t(installer_v(*old(self)))),
    {
        let mut ops = upload_ops_exec(self.existing.is_some());
        let ghost up = ops@;
        if self.have_pubkey {
            let mut more: Vec<Op> = Vec::new();
            more.push(say_op("==> authorizing agent key (command-locked)".to_owned()));
            more.push(run_op(a2("cat", "~/.ssh/authorized_keys"), Payload::Nothing, false));
            let ghost m1 = more@;
            ops.append(&mut more);
            proof {
                lemma_ops_v_add(up, m1);
                assert(ops_v(m1) =~= seq![
                    OpV::Say("==> authorizing agent key (command-locked)"@),
                    quiet(seq!["cat"@, "~/.ssh/authorized_keys"@]),
                ]);
            }
            self.stage = Stage::Keys;
            Step { say: no_lines(), action: InstallAction::Ops(ops) }
        } else {
            let mut more: Vec<Op> = Vec::new();
            more.push(say_op("==> skipping agent key (no pubkey configured — the client uses your SSH key)".to_owned()));
            let mut cfg = config_ops_exec(self.abs_agent.as_str());
            let ghost m1 = more@;
            let ghost c1 = cfg@;
            more.append(&mut cfg);
            ops.append(&mut more);
            proof {
                lemma_ops_v_add(m1, c1);
                lemma_ops_v_add(up, m1 + c1);
                assert(ops_v(m1) =~= seq![OpV::Say("==> skipping agent key (no pubkey configured — the client uses your SSH key)"@)]);
                assert(ops_v(ops@) =~= upload_ops(old(self).existing is Some) + seq![
                    OpV::Say("==> skipping agent key (no pubkey configured — the client uses your SSH key)"@),
                ] + config_ops(old(self).abs_agent@));
            }
            self.stage = Stage::Verify;
            Step { say: no_lines(), action: InstallAction::Ops(ops) }
        }
    }

    fn on_arch(&mut self, ev: InstallEvent) -> (step: Step)
        requires
            old(self).stage == Stage::Arch,
        ensures
            realizes(*final(self), step, install_next(installer_v(*old(self)), event_v(ev))),
    {
        match ev {
            InstallEvent::Ran(Ok((_, out))) => {
                let m = trim_str(out.as_str());
                match arch_for(m.as_str()) {
                    Some(a) => {
                        let mut banner = "==> puppetterm-agent install on ".to_owned();
                        push_str(&mut banner, self.req.host.as_str());
                        push_str(&mut banner, " (");
                        push_str(&mut banner, m.as_str());
                        push_str(&mut banner, ")");
                        let mut ops: Vec<Op> = Vec::new();
                        ops.push(say_op(banner));
                        ops.push(run_op(a3("sh", "-c", "'echo \"$HOME\"'"), Payload::Nothing, false));
                        self.arch = a;
                        self.stage = Stage::Home;
                        let step = Step { say: no_lines(), action: InstallAction::Ops(ops) };
                        assert(ops_v(ops@) =~= seq![
                            OpV::Say("==> puppetterm-agent install on "@ + old(self).req.host@ + " ("@ + m@ + ")"@),
                            quiet(seq!["sh"@, "-c"@, "'echo \"$HOME\"'"@]),
                        ]);
                        step
                    },
                    None => self.fail(concat("unsupported remote architecture: ", m.as_str())),
                }
            },
            InstallEvent::Ran(Err(e)) => self.fail(e),
            _ => self.fail("install step out of order".to_owned()),
        }
    }

    fn on_home(&mut self, ev: InstallEvent) -> (step: Step)
        requires
            old(self).stage == Stage::Home,
        ensures
            realizes(*final(self), step, install_next(installer_v(*old(self)), event_v(ev))),
    {
        match ev {
            InstallEvent::Ran(Ok((_, out))) => {
                let h = trim_str(out.as_str());
                if h.as_str().is_empty() {
                    return self.fail("could not determine remote home directory".to_owned());
                }
                self.abs_agent = concat(h.as_str(), "/.snap/app/puppetterm/bin/puppetterm-agent");
                self.stage = Stage::ProbeUser;
                Step {
                    say: no_lines(),
                    action: InstallAction::Probe(a3("test", "-x", "$HOME/.snap/app/puppetterm/bin/puppetterm-agent")),
                }
            },
            InstallEvent::Ran(Err(e)) => self.fail(e),
            _ => self.fail("install step out of order".to_owned()),
        }
    }

    fn on_probe(&mut self, ev: InstallEvent) -> (step: Step)
        requires
            old(self).stage == Stage::ProbeUser || old(self).stage == Stage::ProbeVar || old(self).stage
                == Stage::ProbeUsr,
        ensures
            realizes(*final(self), step, install_next(installer_v(*old(self)), event_v(ev))),
    {
        match ev {
            InstallEvent::Probed(found) => {
                if self.stage == Stage::ProbeUser {
                    if found {
                        let p = self.abs_agent.clone();
                        self.decide(Some(p))
                    } else {
                        self.stage = Stage::ProbeVar;
                        Step {
                            say: no_lines(),
                            action: InstallAction::Probe(a3("test", "-x", "/var/local/puppetterm/bin/puppetterm-agent")),
                        }
                    }
                } else if self.stage == Stage::ProbeVar {
                    if found {
                        self.decide(Some("/var/local/puppetterm/bin/puppetterm-agent".to_owned()))
                    } else {
                        self.stage = Stage::ProbeUsr;
                        Step {
                            say: no_lines(),
                            action: InstallAction::Probe(a3("test", "-x", "/usr/local/bin/puppetterm-agent")),
                        }
                    }
                } else {
                    if found {
                        self.decide(Some("/usr/local/bin/puppetterm-agent".to_owned()))
                    } else {
                        self.decide(None)
                    }
                }
            },
            _ => self.fail("install step out of order".to_owned()),
        }
    }

    fn on_whoami(&mut self, ev: InstallEvent) -> (step: Step)
        requires
            old(self).stage == Stage::Whoami,
        ensures
            realizes(*final(self), step, install_next(installer_v(*old(self)), event_v(ev))),
    {
        match ev {
            InstallEvent::Ran(Ok((_, out))) => {
                let dir = agent_dir_choice(
                    as_opt_str(&self.req.agent_dir),
                    as_opt_str(&self.req.env_agent_dir),
                    self.req.local_home.as_str(),
                );
                let name = concat("puppetterm-agent-linux-", self.arch.as_str());
                let bin = join(dir.as_str(), name.as_str());
                self.ssh_user = trim_str(out.as_str());
                self.dir = dir;
                self.bin_path = bin.clone();
                self.stage = Stage::Binary;
                Step { say: no_lines(), action: InstallAction::ReadBinary(bin) }
            },
            InstallEvent::Ran(Err(e)) => self.fail(e),
            _ => self.fail("install step out of order".to_owned()),
        }
    }

    fn on_binary(&mut self, ev: InstallEvent) -> (step: Step)
        requires
            old(self).stage == Stage::Binary,
        ensures
            realizes(*final(self), step, install_next(installer_v(*old(self)), event_v(ev))),
    {
        match ev {
            InstallEvent::FileRead(Ok(_)) => {
                match pubkey_choice(as_opt_str(&self.req.pubkey_path), as_opt_str(&self.req.env_pubkey)) {
                    Some(f) => {
                        self.pubkey_file = f.clone();
                        self.stage = Stage::Pubkey;
                        Step { say: no_lines(), action: InstallAction::ReadPubkey(f) }
                    },
                    None => {
                        self.have_pubkey = false;
                        self.upload()
                    },
                }
            },
            InstallEvent::FileRead(Err(e)) => {
                let mut msg = concat("agent binary not found at ", self.bin_path.as_str());
                push_str(&mut msg, " (");
                push_str(&mut msg, e.as_str());
                push_str(&mut msg, ") — build with 'make cross' (agent/) and set PUPPETTERM_AGENT_DIR");
                self.fail(msg)
            },
            _ => self.fail("install step out of order".to_owned()),
        }
    }

    fn on_pubkey(&mut self, ev: InstallEvent) -> (step: Step)
        requires
            old(self).stage == Stage::Pubkey,
        ensures
            realizes(*final(self), step, install_next(installer_v(*old(self)), event_v(ev))),
    {
        match ev {
            InstallEvent::FileRead(Ok(text)) => {
                match key_body(text.as_str()) {
                    Some(b) => {
                        self.have_pubkey = true;
                        self.key_body = b;
                        self.upload()
                    },
                    None => {
                        let msg = concat("malformed agent pubkey at ", self.pubkey_file.as_str());
                        self.fail(msg)
                    },
                }
            },
            InstallEvent::FileRead(Err(e)) => {
                let mut msg = concat("agent pubkey not found at ", self.pubkey_file.as_str());
                push_str(&mut msg, " (");
                push_str(&mut msg, e.as_str());
                push_str(&mut msg, ")");
                self.fail(msg)
            },
            _ => self.fail("install step out of order".to_owned()),
        }
    }

    fn on_keys(&mut self, ev: InstallEvent) -> (step: Step)
        requires
            old(self).stage == Stage::Keys,
        ensures
            realizes(*final(self), step, install_next(installer_v(*old(self)), event_v(ev))),
    {
        match ev {
            InstallEvent::Ran(Ok((_, out))) => {
                let mut ops: Vec<Op> = Vec::new();
                let present = str_contains(out.as_str(), "puppetterm-agent");
                if present {
                    ops.push(say_op("    agent key already present (skipping)".to_owned()));
                } else {
                    let lock = authorized_keys_entry(self.abs_agent.as_str(), self.key_body.as_str());
                    ops.push(run_op(a3("mkdir", "-p", "~/.ssh"), Payload::Nothing, true));
                    ops.push(run_op(a3("cat", ">>", "~/.ssh/authorized_keys"), Payload::Text(lock), false));
                    ops.push(run_op(a3("chmod", "0600", "~/.ssh/authorized_keys"), Payload::Nothing, true));
                    ops.push(say_op("    authorized_keys updated (command-locked entry)".to_owned()));
                }
                let ghost first = ops@;
                let mut cfg = config_ops_exec(self.abs_agent.as_str());
                let ghost c1 = cfg@;
                ops.append(&mut cfg);
                proof {
                    lemma_ops_v_add(first, c1);
                    let sv = installer_v(*old(self));
                    if present {
                        assert(ops_v(first) =~= seq![OpV::Say("    agent key already present (skipping)"@)]);
                    } else {
                        assert(ops_v(first) =~= seq![
                            shown(seq!["mkdir"@, "-p"@, "~/.ssh"@]),
                            OpV::Run(seq!["cat"@, ">>"@, "~/.ssh/authorized_keys"@], PayloadV::Text(lock_entry(sv.abs_agent, sv.key_body)), false),
                            shown(seq!["chmod"@, "0600"@, "~/.ssh/authorized_keys"@]),
                            OpV::Say("    authorized_keys updated (command-locked entry)"@),
                        ]);
                    }
                }
                self.stage = Stage::Verify;
                Step { say: no_lines(), action: InstallAction::Ops(ops) }
            },
            InstallEvent::Ran(Err(e)) => self.fail(e),
            _ => self.fail("install step out of order".to_owned()),
        }
    }

    fn on_verify(&mut self, ev: InstallEvent) -> (step: Step)
        requires
            old(self).stage == Stage::Verify,
        ensures
            realizes(*final(self), step, install_next(installer_v(*old(self)), event_v(ev))),
    {
        match ev {
            InstallEvent::Ran(Ok((code, out))) => {
                if code != 0 || !str_contains(out.as_str(), "\"exit\":0") {
                    let mut msg = "agent verification failed (exit ".to_owned();
                    let d = i64_to_dec(code as i64);
                    push_str(&mut msg, d.as_str());
                    push_str(&mut msg, "): ");
                    let t = trim_str(out.as_str());
                    push_str(&mut msg, t.as_str());
                    return self.fail(msg);
                }
                self.stage = Stage::Find;
                Step {
                    say: line1("    agent responded OK".to_owned()),
                    action: InstallAction::FindInstaller(self.dir.clone()),
                }
            },
            InstallEvent::Ran(Err(e)) => self.fail(e),
            _ => self.fail("install step out of order".to_owned()),
        }
    }

    fn on_find(&mut self, ev: InstallEvent) -> (step: Step)
        requires
            old(self).stage == Stage::Find,
        ensures
            realizes(*final(self), step, install_next(installer_v(*old(self)), event_v(ev))),
    {
        match ev {
            InstallEvent::InstallerAt(Some(p)) => {
                self.installer = p.clone();
                self.stage = Stage::Script;
                Step {
                    say: line1("==> applying full-privileges installer (sudoers + config)".to_owned()),
                    action: InstallAction::ReadInstaller(p),
                }
            },
            InstallEvent::InstallerAt(None) => {
                let done = done_text(self.req.host.as_str());
                let say = if self.existing.is_some() && !self.req.force {
                    line1(done)
                } else {
                    line2(
                        "    (installer script not found — agent is active under ~/.snap/app/puppetterm; run installer/install.sh manually for full privileges)".to_owned(),
                        done,
                    )
                };
                let r = self.result("user", false);
                self.stage = Stage::Over;
                Step { say, action: InstallAction::Finish(r) }
            },
            _ => self.fail("install step out of order".to_owned()),
        }
    }

    fn on_script(&mut self, ev: InstallEvent) -> (step: Step)
        requires
            old(self).stage == Stage::Script,
        ensures
            realizes(*final(self), step, install_next(installer_v(*old(self)), event_v(ev))),
    {
        match ev {
            InstallEvent::FileRead(Ok(_)) => {
                let mut ops: Vec<Op> = Vec::new();
                ops.push(run_op(a3("cat", ">", "/tmp/puppetterm-install.sh"), Payload::InstallerScript, false));
                ops.push(run_op(a3("cat", ">", "/tmp/puppetterm-agent"), Payload::AgentBinary, false));
                if self.have_pubkey {
                    ops.push(run_op(a3("cat", ">", "/tmp/puppetterm-agent.pub"), Payload::PubkeyFile, false));
                }
                proof {
                    let base = seq![
                        OpV::Run(seq!["cat"@, ">"@, "/tmp/puppetterm-install.sh"@], PayloadV::InstallerScript, false),
                        OpV::Run(seq!["cat"@, ">"@, "/tmp/puppetterm-agent"@], PayloadV::AgentBinary, false),
                    ];
                    if old(self).have_pubkey {
                        assert(ops_v(ops@) =~= base + seq![
                            OpV::Run(seq!["cat"@, ">"@, "/tmp/puppetterm-agent.pub"@], PayloadV::PubkeyFile, false),
                        ]);
                    } else {
                        assert(ops_v(ops@) =~= base + Seq::<OpV>::empty());
                    }
                }
                self.stage = Stage::Uploaded;
                Step { say: no_lines(), action: InstallAction::Ops(ops) }
            },
            InstallEvent::FileRead(Err(e)) => {
                let mut msg = concat("cannot read installer ", self.installer.as_str());
                push_str(&mut msg, ": ");
                push_str(&mut msg, e.as_str());
                self.fail(msg)
            },
            _ => self.fail("install step out of order".to_owned()),
        }
    }

    fn no_sudo(&mut self) -> (step: Step)
        ensures
            realizes(*final(self), step, no_sudo_t(installer_v(*old(self)))),
    {
        let r = self.result("user", false);
        let say = line2(
            "    (no passwordless sudo — user-space agent only; run installer/install.sh manually for full privileges)".to_owned(),
            done_text(self.req.host.as_str()),
        );
        self.stage = Stage::Over;
        Step { say, action: InstallAction::Finish(r) }
    }

    fn on_escalation(&mut self, ev: InstallEvent) -> (step: Step)
        requires
            old(self).stage == Stage::Uploaded || old(self).stage == Stage::Sudo || old(self).stage
                == Stage::Privileged,
        ensures
            realizes(*final(self), step, install_next(installer_v(*old(self)), event_v(ev))),
    {
        if self.stage == Stage::Uploaded {
            match ev {
                InstallEvent::Ran(Ok(_)) => {
                    if !self.ssh_user.as_str().is_empty() {
                        self.stage = Stage::Sudo;
                        Step { say: no_lines(), action: InstallAction::Probe(a3("sudo", "-n", "true")) }
                    } else {
                        self.no_sudo()
                    }
                },
                InstallEvent::Ran(Err(e)) => self.fail(e),
                _ => self.fail("install step out of order".to_owned()),
            }
        } else if self.stage == Stage::Sudo {
            match ev {
                InstallEvent::Probed(true) => {
                    let args = installer_args(self.ssh_user.as_str(), self.have_pubkey);
                    let mut ops: Vec<Op> = Vec::new();
                    ops.push(run_op(args, Payload::Nothing, true));
                    assert(ops_v(ops@) =~= seq![shown(installer_args_spec(old(self).ssh_user@, old(self).have_pubkey))]);
                    self.stage = Stage::Privileged;
                    Step { say: no_lines(), action: InstallAction::Ops(ops) }
                },
                InstallEvent::Probed(false) => self.no_sudo(),
                _ => self.fail("install step out of order".to_owned()),
            }
        } else {
            match ev {
                InstallEvent::Ran(Ok(_)) => {
                    let r = self.result("root", true);
                    let say = line2(
                        "==> full install complete (agentic privileges granted)".to_owned(),
                        done_text(self.req.host.as_str()),
                    );
                    self.stage = Stage::Over;
                    Step { say, action: InstallAction::Finish(r) }
                },
                InstallEvent::Ran(Err(e)) => self.fail(e),
                _ => self.fail("install step out of order".to_owned()),
            }
        }
    }

    /// Take the outcome of the last action and decide what comes next.
    pub fn advance(&mut self, ev: InstallEvent) -> (step: Step)
        ensures
            realizes(*final(self), step, install_next(installer_v(*old(self)), event_v(ev))),
    {
        match self.stage {
            Stage::Arch => self.on_arch(ev),
            Stage::Home => self.on_home(ev),
            Stage::ProbeUser => self.on_probe(ev),
            Stage::ProbeVar => self.on_probe(ev),
            Stage::ProbeUsr => self.on_probe(ev),
            Stage::Whoami => self.on_whoami(ev),
            Stage::Binary => self.on_binary(ev),
            Stage::Pubkey => self.on_pubkey(ev),
            Stage::Keys => self.on_keys(ev),
            Stage::Verify => self.on_verify(ev),
            Stage::Find => self.on_find(ev),
            Stage::Script => self.on_script(ev),
            Stage::Uploaded => self.on_escalation(ev),
            Stage::Sudo => self.on_escalation(ev),
            Stage::Privileged => self.on_escalation(ev),
            Stage::Over => self.fail("install step out of order".to_owned()),
        }
    }
}


// ---------------------------------------------------------------------------
// laws
// ---------------------------------------------------------------------------

/// Every step of an unfinished install moves to a later stage, so an install
/// ends after at most sixteen steps; a step finishes or fails exactly when it
/// moves to the final stage.
pub proof fn law_install_progresses(s: InstallerV, ev: EventV)
    requires
        s.stage != Stage::Over,
    ensures
        rank(install_next(s, ev).next.stage) > rank(s.stage),
        (install_next(s, ev).action is Finish || install_next(s, ev).action is Fail)
            <==> install_next(s, ev).next.stage == Stage::Over,
{
}

/// An install reports the host it was asked for, mode `root` exactly when
/// the scoped sudoers grant was installed, and `user` otherwise.
pub proof fn law_install_result_mode(s: InstallerV, ev: EventV)
    ensures
        install_next(s, ev).action matches ActionV::Finish(r) ==> r.host == s.host
            && (r.mode == "root"@) == r.sudoers
            && (r.mode == "user"@ || r.mode == "root"@),
{
    assert("root"@ != "user"@) by {
        reveal_strlit("root");
        reveal_strlit("user");
        assert("root"@[0] != "user"@[0]);
    }
}

/// An install never stops at an agent that is already there: finding one,
/// forced or not, goes on to the upload stages with the agent remembered, and
/// whatever an install reports, the agent sits under the remote home
/// directory.
pub proof fn law_install_refreshes(s: InstallerV, ev: EventV)
    ensures
        (s.stage == Stage::ProbeUser || s.stage == Stage::ProbeVar || s.stage == Stage::ProbeUsr)
            && ev == EventV::Probed(true) ==> {
            let t = install_next(s, ev);
            &&& t.next.stage == Stage::Whoami
            &&& t.next.existing is Some
            &&& t.action == ActionV::Ops(seq![quiet(seq!["whoami"@])])
        },
        install_next(s, ev).action matches ActionV::Finish(r) ==> r.agent_path == s.abs_agent,
{
}

/// An architecture the agent is built for.
pub open spec fn known_arch(a: Seq<char>) -> bool {
    a == "amd64"@ || a == "arm64"@
}

/// What holds of every state an install passes through: past the
/// architecture probe (and not failed) the architecture is a known one, and
/// the privileged stages are only reached for a known SSH user.
pub open spec fn install_inv(s: InstallerV) -> bool {
    &&& (s.stage == Stage::Sudo || s.stage == Stage::Privileged) ==> s.ssh_user.len() > 0
    &&& (s.stage != Stage::Arch && s.stage != Stage::Over) ==> known_arch(s.arch)
}

/// The state an install starts in satisfies [`install_inv`].
pub proof fn law_start_inv(s: InstallerV)
    requires
        s.stage == Stage::Arch,
    ensures
        install_inv(s),
{
}

/// Every step keeps [`install_inv`]; so a finished install reports
/// `amd64` or `arm64`, and a `root` install always ran the installer for a
/// non-empty SSH user.
pub proof fn law_privileged_needs_user(s: InstallerV, ev: EventV)
    requires
        install_inv(s),
    ensures
        install_inv(install_next(s, ev).next),
        install_next(s, ev).action matches ActionV::Finish(r) && r.mode == "root"@ ==> s.ssh_user.len() > 0,
        install_next(s, ev).action matches ActionV::Finish(r) ==> known_arch(r.arch),
{
    assert("root"@ != "user"@) by {
        reveal_strlit("root");
        reveal_strlit("user");
        assert("root"@[0] != "user"@[0]);
    }
}

/// Whether or not an agent was found, the upload sends the local binary to a
/// temporary file and moves it over the user-space agent path: a re-run
/// replaces the installed binary.
pub proof fn law_upload_replaces_binary(s: InstallerV)
    ensures
        upload_t(s).action matches ActionV::Ops(ops) && ops.len() > 6 && ops[4] == OpV::Run(
            seq!["cat"@, ">"@, tmp_agent()],
            PayloadV::AgentBinary,
            false,
        ) && ops[6] == shown(
            seq!["mv"@, "-f"@, tmp_agent(), "~/.snap/app/puppetterm/bin/puppetterm-agent"@],
        ),
{
}

/// The key step never adds the agent key twice: when the `authorized_keys`
/// text read back already holds a `puppetterm-agent` entry, only messages
/// come before the config ops (nothing is run, so nothing is appended);
/// otherwise the command-locked entry is appended to
/// `~/.ssh/authorized_keys` before them.
pub proof fn law_key_added_once(s: InstallerV, code: i32, out: Seq<char>)
    requires
        s.stage == Stage::Keys,
    ensures
        ({
            let t = install_next(s, EventV::Ran(Ok((code, out))));
            &&& t.next.stage == Stage::Verify
            &&& t.action matches ActionV::Ops(ops) && {
                let k = ops.len() - config_ops(s.abs_agent).len();
                &&& 0 <= k
                &&& ops.subrange(k, ops.len() as int) == config_ops(s.abs_agent)
                &&& contains(out, "puppetterm-agent"@) ==> forall|i: int|
                    0 <= i < k ==> (#[trigger] ops[i]) is Say
                &&& !contains(out, "puppetterm-agent"@) ==> exists|i: int|
                    0 <= i < k && #[trigger] ops[i] == OpV::Run(
                        seq!["cat"@, ">>"@, "~/.ssh/authorized_keys"@],
                        PayloadV::Text(lock_entry(s.abs_agent, s.key_body)),
                        false,
                    )
            }
        }),
{
    let t = install_next(s, EventV::Ran(Ok((code, out))));
    let first = if contains(out, "puppetterm-agent"@) {
        seq![OpV::Say("    agent key already present (skipping)"@)]
    } else {
        seq![
            shown(seq!["mkdir"@, "-p"@, "~/.ssh"@]),
            OpV::Run(seq!["cat"@, ">>"@, "~/.ssh/authorized_keys"@], PayloadV::Text(lock_entry(s.abs_agent, s.key_body)), false),
            shown(seq!["chmod"@, "0600"@, "~/.ssh/authorized_keys"@]),
            OpV::Say("    authorized_keys updated (command-locked entry)"@),
        ]
    };
    let ops = first + config_ops(s.abs_agent);
    assert(t.action == ActionV::Ops(ops));
    assert(ops.subrange(first.len() as int, ops.len() as int) =~= config_ops(s.abs_agent));
    if !contains(out, "puppetterm-agent"@) {
        assert(ops[1] == first[1]);
    } else {
        assert(ops[0] == first[0]);
    }
}

/// A `root` install is reported only when the privileged installer run has
/// just succeeded; that run is reached only from a successful `sudo -n true`
/// probe, and it runs the installer for the SSH user found by `whoami`.
pub proof fn law_root_needs_sudo(s: InstallerV, ev: EventV)
    ensures
        install_next(s, ev).action matches ActionV::Finish(r) && r.mode == "root"@ ==> s.stage
            == Stage::Privileged && ev matches EventV::Ran(Ok(_)),
        install_next(s, ev).next.stage == Stage::Privileged && s.stage != Stage::Privileged ==> s.stage
            == Stage::Sudo && ev == EventV::Probed(true) && install_next(s, ev).action == ActionV::Ops(
            seq![shown(installer_args_spec(s.ssh_user, s.have_pubkey))],
        ),
        s.stage == Stage::Sudo && ev == EventV::Probed(false) ==> (install_next(s, ev).action matches ActionV::Finish(
            r,
        ) && r.mode == "user"@ && !r.sudoers),
{
    assert("root"@ != "user"@) by {
        reveal_strlit("root");
        reveal_strlit("user");
        assert("root"@[0] != "user"@[0]);
    }
}

/// Once an install has finished or failed, every further event is refused
/// and the state stays final.
pub proof fn law_over_is_final(s: InstallerV, ev: EventV)
    requires
        s.stage == Stage::Over,
    ensures
        install_next(s, ev).action == ActionV::Fail("install step out of order"@),
        install_next(s, ev).next == s,
{
}

/// The only way into the stage after verification is a snapshot check the
/// new agent answered with exit 0.
pub proof fn law_verified_before_installer(s: InstallerV, ev: EventV)
    requires
        s.stage != Stage::Find,
        install_next(s, ev).next.stage == Stage::Find,
    ensures
        s.stage == Stage::Verify,
        ev matches EventV::Ran(Ok((code, out))) && code == 0 && contains(out, "\"exit\":0"@),
{
}

/// An install finishes only after the verification stage; so every finished
/// install has an agent that answered the snapshot check.
pub proof fn law_finish_after_check(s: InstallerV, ev: EventV)
    ensures
        install_next(s, ev).action matches ActionV::Finish(r) ==> rank(s.stage) >= rank(Stage::Find),
{
}

} // verus!
