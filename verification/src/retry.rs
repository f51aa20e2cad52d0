//! Running one remote command over SSH when name resolution is flaky.
//!
//! A failed run is retried only for transient resolution/connect errors:
//! first against the concrete target the alias maps to in `~/.ssh/config`
//! (no DNS), then once against the address DNS gives for the alias, then
//! with a short back-off against the same target. [`SshRetry`] decides; the
//! caller runs `ssh`, sleeps and resolves names.

use vstd::prelude::*;
use crate::ssh::{
    alias_of, host_alias, ip_target, ip_target_spec, resolution_hint, hint_text,
    mentions_resolution, ssh_host_args, target_args, transient_text, is_transient_ssh_error,
};
use crate::ssh_config::ConfigTarget;
use crate::text::{
    concat, dec, dec_int, i64_to_dec, lowercase, opt_view, push_str, trim, trim_str, u64_to_dec,
    views,
};

verus! {

/// The text of a config-derived target: `host:port`, with `user@` in front
/// when the config names a user.
pub open spec fn config_target_spec(user: Seq<char>, hostname: Seq<char>, port: u16) -> Seq<char> {
    if user.len() == 0 {
        hostname + ":"@ + dec(port as nat)
    } else {
        user + "@"@ + hostname + ":"@ + dec(port as nat)
    }
}

/// Decides [`config_target_spec`] for a resolved target.
pub fn config_target_text(t: &ConfigTarget) -> (r: String)
    ensures
        r@ == config_target_spec(t.user@, t.hostname@, t.port),
{
    let mut s = if t.user.as_str().is_empty() {
        String::new()
    } else {
        concat(t.user.as_str(), "@")
    };
    push_str(&mut s, t.hostname.as_str());
    push_str(&mut s, ":");
    let d = u64_to_dec(t.port as u64);
    push_str(&mut s, d.as_str());
    s
}

/// The arguments that attach a command to a ControlMaster socket, creating
/// the master on first use and keeping it for ten minutes.
pub open spec fn control_args_spec(sock: Seq<char>) -> Seq<Seq<char>> {
    seq!["-S"@, sock, "-o"@, "ControlMaster=auto"@, "-o"@, "ControlPersist=600"@]
}

/// Builds [`control_args_spec`].
pub fn control_args(sock: &str) -> (r: Vec<String>)
    ensures
        views(r@) == control_args_spec(sock@),
{
    let mut r: Vec<String> = Vec::new();
    r.push("-S".to_owned());
    r.push(sock.to_owned());
    r.push("-o".to_owned());
    r.push("ControlMaster=auto".to_owned());
    r.push("-o".to_owned());
    r.push("ControlPersist=600".to_owned());
    assert(views(r@) =~= control_args_spec(sock@));
    r
}

/// What to do after a failed run.
pub enum RetryStep {
    /// Sleep this long, then run again with [`SshRetry::command_args`].
    Retry { sleep_ms: u64 },
    /// Resolve the host's address and report it with [`SshRetry::on_dns`].
    ResolveDns,
    /// Give up with this message.
    Fail(String),
}

/// The retry state of one remote command.
pub struct SshRetry {
    /// The target as the caller gave it (the ControlMaster stays keyed on it).
    pub host: String,
    /// The config-derived target and its `ProxyJump`, when config has one.
    pub resolved: Option<(String, Option<String>)>,
    /// What the next run connects to.
    pub target: String,
    /// Extra `ssh` options for the next run.
    pub extra: Vec<String>,
    pub trying_resolved: bool,
    pub tried_dns: bool,
    /// Failed runs so far.
    pub attempt: u32,
    pub awaiting_dns: bool,
    pub last_code: i32,
    pub last_msg: String,
    pub done: bool,
}

/// The view of the config-derived target.
pub open spec fn resolved_v(r: Option<(String, Option<String>)>) -> Option<(Seq<char>, Option<Seq<char>>)> {
    match r {
        Some((t, j)) => Some((t@, opt_view(j))),
        None => None,
    }
}

/// The config-derived target's text.
pub open spec fn resolved_target(r: Option<(String, Option<String>)>) -> Seq<char> {
    match r {
        Some((t, _)) => t@,
        None => Seq::empty(),
    }
}

/// The config-derived target's `ProxyJump`.
pub open spec fn resolved_jump(r: Option<(String, Option<String>)>) -> Option<Seq<char>> {
    match r {
        Some((_, j)) => opt_view(j),
        None => None,
    }
}

/// The `-J <jump>` options of a config target.
pub open spec fn jump_args(j: Option<Seq<char>>) -> Seq<Seq<char>> {
    match j {
        Some(x) => seq!["-J"@, x],
        None => Seq::empty(),
    }
}

/// The `HostKeyAlias` options that keep `known_hosts` keyed on the alias when
/// connecting to an address.
pub open spec fn alias_args(host: Seq<char>) -> Seq<Seq<char>> {
    seq!["-o"@, "HostKeyAlias="@ + alias_of(host)]
}

/// The message a run that will not be retried fails with.
pub open spec fn failure_text(code: i32, msg: Seq<char>) -> Seq<char> {
    if msg.len() == 0 {
        "remote command failed (exit "@ + dec_int(code as int) + ")"@
    } else if mentions_resolution(lowercase(msg)) {
        msg + hint_text()
    } else {
        msg
    }
}

/// The state is one the rules can reach: at most four failures before a run
/// that may still be retried, at most three while DNS was not yet tried,
/// and the config target is tried at the first failure only.
pub open spec fn retry_wf(s: SshRetry) -> bool {
    &&& s.attempt <= 5
    &&& !s.done && !s.awaiting_dns ==> {
        &&& s.attempt <= 4
        &&& !s.tried_dns ==> s.attempt <= 3
        &&& s.resolved is Some && !s.trying_resolved ==> s.attempt == 0
    }
    &&& s.awaiting_dns ==> {
        &&& !s.done
        &&& !s.tried_dns
        &&& 1 <= s.attempt <= 4
        &&& s.resolved is Some ==> s.trying_resolved
        &&& transient_text(lowercase(s.last_msg@))
    }
}

/// The target and options of the next run are unchanged.
pub open spec fn same_route(a: SshRetry, b: SshRetry) -> bool {
    &&& a.host == b.host
    &&& a.resolved == b.resolved
    &&& a.target@ == b.target@
    &&& views(a.extra@) == views(b.extra@)
}

/// After a failure that is not retried through config or DNS: back off and
/// retry a transient failure while fewer than four runs failed, else fail.
pub open spec fn plain_outcome(old: SshRetry, s: SshRetry, step: RetryStep, attempt: u32, code: i32, msg: Seq<char>) -> bool {
    if transient_text(lowercase(msg)) && attempt < 4 {
        &&& step == (RetryStep::Retry { sleep_ms: (300 * attempt) as u64 })
        &&& !s.done && !s.awaiting_dns
        &&& s.trying_resolved == old.trying_resolved && s.tried_dns == old.tried_dns
    } else {
        &&& step matches RetryStep::Fail(e) && e@ == failure_text(code, msg)
        &&& s.done && !s.awaiting_dns
    }
}

impl SshRetry {
    /// Start on `host`, or straight on its cached address when DNS resolved
    /// it before.
    pub fn new(host: &str, resolved: Option<ConfigTarget>, cached_ip: Option<&str>) -> (r: SshRetry)
        ensures
            retry_wf(r),
            r.host@ == host@,
            resolved_v(r.resolved) == match resolved {
                Some(t) => Some((config_target_spec(t.user@, t.hostname@, t.port), opt_view(t.jump))),
                None => None,
            },
            match cached_ip {
                Some(ip) => r.target@ == ip_target_spec(host@, ip@) && views(r.extra@) == alias_args(host@),
                None => r.target@ == host@ && views(r.extra@) == Seq::<Seq<char>>::empty(),
            },
            !r.trying_resolved && !r.tried_dns && r.attempt == 0 && !r.awaiting_dns && !r.done,
    {
        let res = match resolved {
            Some(t) => {
                let text = config_target_text(&t);
                Some((text, t.jump))
            },
            None => None,
        };
        let mut extra: Vec<String> = Vec::new();
        let target = match cached_ip {
            Some(ip) => {
                let alias = host_alias(host);
                extra.push("-o".to_owned());
                extra.push(concat("HostKeyAlias=", alias.as_str()));
                assert(views(extra@) =~= alias_args(host@));
                ip_target(host, ip)
            },
            None => {
                assert(views(extra@) =~= Seq::<Seq<char>>::empty());
                host.to_owned()
            },
        };
        SshRetry {
            host: host.to_owned(),
            resolved: res,
            target,
            extra,
            trying_resolved: false,
            tried_dns: false,
            attempt: 0,
            awaiting_dns: false,
            last_code: 0,
            last_msg: String::new(),
            done: false,
        }
    }

    /// The `ssh` arguments of the next run: batch mode and a connect
    /// timeout, the ControlMaster options, the retry options, the target
    /// (with `-p` for a `:port`), then the remote command.
    pub fn command_args(&self, control: &Vec<String>, remote: &Vec<String>) -> (r: Vec<String>)
        ensures
            views(r@) == seq!["-o"@, "BatchMode=yes"@, "-o"@, "ConnectTimeout=10"@] + views(control@)
                + views(self.extra@) + target_args(self.target@) + views(remote@),
    {
        let mut r: Vec<String> = Vec::new();
        r.push("-o".to_owned());
        r.push("BatchMode=yes".to_owned());
        r.push("-o".to_owned());
        r.push("ConnectTimeout=10".to_owned());
        let ghost head = views(r@);
        assert(head =~= seq!["-o"@, "BatchMode=yes"@, "-o"@, "ConnectTimeout=10"@]);
        append_all(&mut r, control);
        append_all(&mut r, &self.extra);
        let t = ssh_host_args(self.target.as_str());
        append_all(&mut r, &t);
        append_all(&mut r, remote);
        r
    }

    fn plain(&mut self, code: i32, msg: String) -> (step: RetryStep)
        requires
            !old(self).done,
            old(self).attempt <= 5,
        ensures
            same_route(*final(self), *old(self)),
            final(self).attempt == old(self).attempt,
            plain_outcome(*old(self), *final(self), step, old(self).attempt, code, msg@),
            final(self).last_code == old(self).last_code,
            final(self).last_msg == old(self).last_msg,
    {
        self.awaiting_dns = false;
        if is_transient_ssh_error(msg.as_str()) && self.attempt < 4 {
            return RetryStep::Retry { sleep_ms: 300 * (self.attempt as u64) };
        }
        self.done = true;
        if msg.as_str().is_empty() {
            let mut m = "remote command failed (exit ".to_owned();
            let d = i64_to_dec(code as i64);
            push_str(&mut m, d.as_str());
            push_str(&mut m, ")");
            RetryStep::Fail(m)
        } else {
            RetryStep::Fail(resolution_hint(msg.as_str()))
        }
    }

    /// A run failed with exit `code` and `stderr`: decide whether and how to
    /// try again. Every failure counts, and a retried command has failed at
    /// most four times, so a command runs at most five times.
    pub fn on_failure(&mut self, code: i32, stderr: &str) -> (step: RetryStep)
        requires
            retry_wf(*old(self)),
            !old(self).done,
            !old(self).awaiting_dns,
        ensures
            retry_wf(*final(self)),
            final(self).attempt == old(self).attempt + 1,
            step is Retry ==> final(self).attempt <= 4,
            final(self).host == old(self).host,
            final(self).resolved == old(self).resolved,
            ({
                let msg = trim(stderr@);
                let tr = transient_text(lowercase(msg));
                if tr && !old(self).trying_resolved && old(self).resolved is Some {
                    &&& step == (RetryStep::Retry { sleep_ms: 150 })
                    &&& final(self).trying_resolved && final(self).tried_dns == old(self).tried_dns
                    &&& final(self).target@ == resolved_target(old(self).resolved)
                    &&& views(final(self).extra@) == views(old(self).extra@) + jump_args(resolved_jump(old(self).resolved))
                    &&& !final(self).done && !final(self).awaiting_dns
                } else if tr && !old(self).tried_dns {
                    &&& step is ResolveDns
                    &&& final(self).awaiting_dns && !final(self).done
                    &&& final(self).last_code == code && final(self).last_msg@ == msg
                    &&& same_route(*final(self), *old(self))
                    &&& final(self).trying_resolved == old(self).trying_resolved
                    &&& final(self).tried_dns == old(self).tried_dns
                } else {
                    &&& same_route(*final(self), *old(self))
                    &&& plain_outcome(*old(self), *final(self), step, final(self).attempt, code, msg)
                }
            }),
    {
        let msg = trim_str(stderr);
        let transient = is_transient_ssh_error(msg.as_str());
        self.attempt = self.attempt + 1;
        if transient && !self.trying_resolved && self.resolved.is_some() {
            let (t, jump) = match &self.resolved {
                Some((t, j)) => (t.clone(), j.clone()),
                None => (String::new(), None),
            };
            self.trying_resolved = true;
            self.target = t;
            let ghost before = views(self.extra@);
            match jump {
                Some(j) => {
                    self.extra.push("-J".to_owned());
                    self.extra.push(j);
                    assert(views(self.extra@) =~= before + jump_args(resolved_jump(old(self).resolved)));
                },
                None => {
                    assert(views(self.extra@) =~= before + jump_args(resolved_jump(old(self).resolved)));
                },
            }
            return RetryStep::Retry { sleep_ms: 150 };
        }
        if transient && !self.tried_dns {
            self.awaiting_dns = true;
            self.last_code = code;
            self.last_msg = msg;
            return RetryStep::ResolveDns;
        }
        self.plain(code, msg)
    }

    /// The address DNS gave for the host (`None` when resolution failed):
    /// connect to it directly once, keyed in `known_hosts` on the alias; with
    /// no address, fall back to backing off.
    pub fn on_dns(&mut self, ip: Option<&str>) -> (step: RetryStep)
        requires
            retry_wf(*old(self)),
            old(self).awaiting_dns,
        ensures
            retry_wf(*final(self)),
            !final(self).awaiting_dns,
            final(self).attempt == old(self).attempt,
            step is Retry ==> final(self).attempt <= 4,
            final(self).host == old(self).host,
            final(self).resolved == old(self).resolved,
            match ip {
                Some(addr) => {
                    &&& step == (RetryStep::Retry { sleep_ms: 150 })
                    &&& final(self).tried_dns && !final(self).done
                    &&& final(self).target@ == ip_target_spec(old(self).host@, addr@)
                    &&& views(final(self).extra@) == views(old(self).extra@) + alias_args(old(self).host@)
                },
                None => {
                    &&& same_route(*final(self), *old(self))
                    &&& plain_outcome(*old(self), *final(self), step, old(self).attempt, old(self).last_code, old(self).last_msg@)
                },
            },
    {
        match ip {
            Some(addr) => {
                self.awaiting_dns = false;
                self.tried_dns = true;
                self.target = ip_target(self.host.as_str(), addr);
                let alias = host_alias(self.host.as_str());
                let ghost before = views(self.extra@);
                self.extra.push("-o".to_owned());
                self.extra.push(concat("HostKeyAlias=", alias.as_str()));
                assert(views(self.extra@) =~= before + alias_args(old(self).host@));
                RetryStep::Retry { sleep_ms: 150 }
            },
            None => {
                let code = self.last_code;
                let msg = self.last_msg.clone();
                self.plain(code, msg)
            },
        }
    }
}

/// Appends copies of `more` to `r`.
fn append_all(r: &mut Vec<String>, more: &Vec<String>)
    ensures
        views(final(r)@) == views(old(r)@) + views(more@),
{
    let ghost start = views(r@);
    let mut i: usize = 0;
    while i < more.len()
        invariant
            i <= more@.len(),
            views(r@) == start + views(more@).take(i as int),
        decreases more@.len() - i,
    {
        let ghost prev = r@;
        let c = more[i].clone();
        r.push(c);
        assert(r@ == prev.push(c));
        assert(views(r@) =~= views(prev).push(more@[i as int]@));
        assert(views(more@).take(i as int + 1) =~= views(more@).take(i as int).push(more@[i as int]@));
        assert(views(r@) =~= start + views(more@).take(i as int + 1));
        i = i + 1;
    }
    assert(views(more@).take(more@.len() as int) =~= views(more@));
}

/// After a failure handled by back-off: a failure that is not transient, or
/// a fourth failed run, is never retried, and its message is kept (with the
/// hint appended for a name-lookup failure); a transient failure before that
/// is retried after a back-off that grows with the number of failures.
pub proof fn law_backoff_outcome(
    before: SshRetry,
    s: SshRetry,
    step: RetryStep,
    attempt: u32,
    code: i32,
    msg: Seq<char>,
)
    requires
        plain_outcome(before, s, step, attempt, code, msg),
    ensures
        !transient_text(lowercase(msg)) || attempt >= 4 ==> step is Fail && s.done,
        transient_text(lowercase(msg)) && attempt < 4 ==> (step matches RetryStep::Retry { sleep_ms }
            && sleep_ms == 300 * attempt && !s.done),
        step matches RetryStep::Fail(e) ==> (msg.len() > 0 ==> e@.subrange(0, msg.len() as int)
            == msg),
        step matches RetryStep::Fail(e) ==> (msg.len() > 0 && mentions_resolution(lowercase(msg))
            ==> e@ == msg + hint_text()),
        step matches RetryStep::Fail(e) ==> (msg.len() == 0 ==> e@ == "remote command failed (exit "@
            + dec_int(code as int) + ")"@),
{
    if let RetryStep::Fail(e) = step {
        if msg.len() > 0 {
            if mentions_resolution(lowercase(msg)) {
                assert((msg + hint_text()).subrange(0, msg.len() as int) =~= msg);
            } else {
                assert(e@.subrange(0, msg.len() as int) =~= msg);
            }
        }
    }
}

} // verus!
