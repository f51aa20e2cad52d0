//! Terminal sessions and the `ssh` command lines of quick probes: the local
//! shell to start, the health probe of a user's ControlMaster socket, host
//! reachability, agent presence and plain captured commands.

use vstd::prelude::*;
use crate::paths::{join, path_join};
use crate::retry::control_args_spec;
use crate::ssh::{ssh_host_args, target_args};
use crate::text::{is_blank, last_index_of, rfind_char, slice_string, to_chars, trim, views};

verus! {

/// The shell and working directory of a local session: `$SHELL` or
/// `/bin/bash`, in `$HOME` or `/`.
pub fn local_shell(shell: Option<&str>, home: Option<&str>) -> (r: (String, String))
    ensures
        r.0@ == match shell {
            Some(s) => s@,
            None => "/bin/bash"@,
        },
        r.1@ == match home {
            Some(h) => h@,
            None => "/"@,
        },
{
    let s = match shell {
        Some(s) => s.to_owned(),
        None => "/bin/bash".to_owned(),
    };
    let h = match home {
        Some(h) => h.to_owned(),
        None => "/".to_owned(),
    };
    (s, h)
}

/// The directory of the user's own ControlMaster sockets.
pub fn user_mux_dir(home: &str) -> (r: String)
    ensures
        r@ == path_join(home@, ".ssh/puppetterm-mux"@),
{
    join(home, ".ssh/puppetterm-mux")
}

/// A socket file named `user@host:port` (user and port optional) gives the
/// target `[user@]host` and the port (`22` when absent).
pub open spec fn socket_target_spec(name: Seq<char>) -> (Seq<char>, Seq<char>) {
    let (user, host_port) = match last_index_of(name, '@') {
        Some(i) => (name.subrange(0, i), name.subrange(i + 1, name.len() as int)),
        None => (Seq::<char>::empty(), name),
    };
    let (host, port) = match last_index_of(host_port, ':') {
        Some(i) => (host_port.subrange(0, i), host_port.subrange(i + 1, host_port.len() as int)),
        None => (host_port, "22"@),
    };
    (if user.len() == 0 {
        host
    } else {
        user + "@"@ + host
    }, port)
}

/// Decides [`socket_target_spec`].
pub fn socket_target(name: &str) -> (r: (String, String))
    ensures
        (r.0@, r.1@) == socket_target_spec(name@),
{
    let v = to_chars(name);
    proof {
        crate::text::lemma_last_index_bounds(v@, '@');
    }
    let (user, hp) = match rfind_char(&v, '@') {
        Some(i) => (slice_string(&v, 0, i), crate::text::sub_chars(&v, i + 1, v.len())),
        None => (String::new(), v),
    };
    proof {
        crate::text::lemma_last_index_bounds(hp@, ':');
    }
    let (host, port) = match rfind_char(&hp, ':') {
        Some(i) => {
            let n = hp.len();
            (slice_string(&hp, 0, i), slice_string(&hp, i + 1, n))
        },
        None => (slice_string(&hp, 0, hp.len()), "22".to_owned()),
    };
    assert(hp@.subrange(0, hp@.len() as int) == hp@);
    if user.as_str().is_empty() {
        (host, port)
    } else {
        let mut t = user;
        crate::text::push_str(&mut t, "@");
        crate::text::push_str(&mut t, host.as_str());
        (t, port)
    }
}

/// The command (program first) that checks a ControlMaster socket can still
/// serve a session: a throwaway `true` through it.
pub open spec fn master_probe_spec(sock: Seq<char>, port: Seq<char>, target: Seq<char>) -> Seq<Seq<char>> {
    seq![
        "ssh"@, "-S"@, sock, "-o"@, "ControlMaster=no"@, "-o"@, "BatchMode=yes"@, "-o"@,
        "ConnectTimeout=2"@, "-o"@, "StrictHostKeyChecking=accept-new"@, "-p"@, port, target, "true"@,
    ]
}

/// Builds [`master_probe_spec`].
pub fn master_probe(sock: &str, port: &str, target: &str) -> (r: Vec<String>)
    ensures
        views(r@) == master_probe_spec(sock@, port@, target@),
{
    let mut r: Vec<String> = Vec::new();
    r.push("ssh".to_owned());
    r.push("-S".to_owned());
    r.push(sock.to_owned());
    r.push("-o".to_owned());
    r.push("ControlMaster=no".to_owned());
    r.push("-o".to_owned());
    r.push("BatchMode=yes".to_owned());
    r.push("-o".to_owned());
    r.push("ConnectTimeout=2".to_owned());
    r.push("-o".to_owned());
    r.push("StrictHostKeyChecking=accept-new".to_owned());
    r.push("-p".to_owned());
    r.push(port.to_owned());
    r.push(target.to_owned());
    r.push("true".to_owned());
    assert(views(r@) =~= master_probe_spec(sock@, port@, target@));
    r
}

/// Appends `more`'s views after `r`'s.
fn extend(r: &mut Vec<String>, more: Vec<String>)
    ensures
        views(final(r)@) == views(old(r)@) + views(more@),
{
    let ghost a = r@;
    let ghost b = more@;
    let mut m = more;
    r.append(&mut m);
    assert(views(r@) =~= views(a) + views(b));
}

/// `ssh` arguments of the reachability probe of `host` through socket
/// `sock`: batch mode, a two-second timeout, accept-new host keys.
pub open spec fn check_host_spec(sock: Seq<char>, host: Seq<char>) -> Seq<Seq<char>> {
    seq!["-o"@, "BatchMode=yes"@, "-o"@, "ConnectTimeout=2"@, "-o"@, "StrictHostKeyChecking=accept-new"@]
        + control_args_spec(sock) + target_args(host) + seq!["true"@]
}

/// Builds [`check_host_spec`].
pub fn check_host_args(sock: &str, host: &str) -> (r: Vec<String>)
    ensures
        views(r@) == check_host_spec(sock@, host@),
{
    let mut r: Vec<String> = Vec::new();
    r.push("-o".to_owned());
    r.push("BatchMode=yes".to_owned());
    r.push("-o".to_owned());
    r.push("ConnectTimeout=2".to_owned());
    r.push("-o".to_owned());
    r.push("StrictHostKeyChecking=accept-new".to_owned());
    let ghost head = views(r@);
    extend(&mut r, crate::retry::control_args(sock));
    extend(&mut r, ssh_host_args(host));
    let mut tail: Vec<String> = Vec::new();
    tail.push("true".to_owned());
    assert(views(tail@) =~= seq!["true"@]);
    extend(&mut r, tail);
    assert(head =~= seq!["-o"@, "BatchMode=yes"@, "-o"@, "ConnectTimeout=2"@, "-o"@, "StrictHostKeyChecking=accept-new"@]);
    r
}

/// The remote probe for an installed agent: any of the three install places
/// holding an executable agent.
pub open spec fn agent_probe_script() -> Seq<char> {
    "sh -c 'for p in \"$HOME/.snap/app/puppetterm/bin/puppetterm-agent\" /var/local/puppetterm/bin/puppetterm-agent /usr/local/bin/puppetterm-agent; do [ -x \"$p\" ] && exit 0; done; exit 1'"@
}

/// `ssh` arguments that check whether `host` has an agent installed.
pub open spec fn check_agent_spec(sock: Seq<char>, host: Seq<char>) -> Seq<Seq<char>> {
    seq!["-o"@, "BatchMode=yes"@, "-o"@, "ConnectTimeout=8"@] + control_args_spec(sock)
        + target_args(host) + seq![agent_probe_script()]
}

/// Builds [`check_agent_spec`].
pub fn check_agent_args(sock: &str, host: &str) -> (r: Vec<String>)
    ensures
        views(r@) == check_agent_spec(sock@, host@),
{
    let mut r: Vec<String> = Vec::new();
    r.push("-o".to_owned());
    r.push("BatchMode=yes".to_owned());
    r.push("-o".to_owned());
    r.push("ConnectTimeout=8".to_owned());
    let ghost head = views(r@);
    extend(&mut r, crate::retry::control_args(sock));
    extend(&mut r, ssh_host_args(host));
    let mut tail: Vec<String> = Vec::new();
    tail.push(
        "sh -c 'for p in \"$HOME/.snap/app/puppetterm/bin/puppetterm-agent\" /var/local/puppetterm/bin/puppetterm-agent /usr/local/bin/puppetterm-agent; do [ -x \"$p\" ] && exit 0; done; exit 1'".to_owned(),
    );
    assert(views(tail@) =~= seq![agent_probe_script()]);
    extend(&mut r, tail);
    assert(head =~= seq!["-o"@, "BatchMode=yes"@, "-o"@, "ConnectTimeout=8"@]);
    r
}

/// `ssh` arguments that run `cmd` on `host` and capture its output, or the
/// error when host or command is blank.
pub open spec fn capture_spec(host: Seq<char>, cmd: Seq<char>) -> Result<Seq<Seq<char>>, Seq<char>> {
    if trim(host).len() == 0 || trim(cmd).len() == 0 {
        Err("ssh_capture: empty host or command"@)
    } else {
        Ok(seq!["-o"@, "BatchMode=yes"@, "-o"@, "ConnectTimeout=8"@, "-o"@, "StrictHostKeyChecking=accept-new"@]
            + target_args(host) + seq![cmd])
    }
}

/// Decides [`capture_spec`].
pub fn capture_args(host: &str, cmd: &str) -> (r: Result<Vec<String>, String>)
    ensures
        match capture_spec(host@, cmd@) {
            Ok(a) => r matches Ok(v) && views(v@) == a,
            Err(e) => r matches Err(m) && m@ == e,
        },
{
    if is_blank(host) || is_blank(cmd) {
        return Err("ssh_capture: empty host or command".to_owned());
    }
    let mut r: Vec<String> = Vec::new();
    r.push("-o".to_owned());
    r.push("BatchMode=yes".to_owned());
    r.push("-o".to_owned());
    r.push("ConnectTimeout=8".to_owned());
    r.push("-o".to_owned());
    r.push("StrictHostKeyChecking=accept-new".to_owned());
    let ghost head = views(r@);
    extend(&mut r, ssh_host_args(host));
    let mut tail: Vec<String> = Vec::new();
    tail.push(cmd.to_owned());
    assert(views(tail@) =~= seq![cmd@]);
    extend(&mut r, tail);
    assert(head =~= seq!["-o"@, "BatchMode=yes"@, "-o"@, "ConnectTimeout=8"@, "-o"@, "StrictHostKeyChecking=accept-new"@]);
    Ok(r)
}

/// A socket named `user@host:port` gives back `user@host` and `port`, one
/// named `host:port` gives `host` and `port`, and one named `host` gives
/// `host` and port `22` (the port holds no `:` or `@`, the host no `@`).
pub proof fn law_socket_name_roundtrip(user: Seq<char>, host: Seq<char>, port: Seq<char>)
    requires
        !host.contains('@'),
        !port.contains('@'),
        !port.contains(':'),
    ensures
        user.len() > 0 ==> socket_target_spec(user + "@"@ + host + ":"@ + port) == (
            user + "@"@ + host,
            port,
        ),
        socket_target_spec(host + ":"@ + port) == (host, port),
        !host.contains(':') ==> socket_target_spec(host) == (host, "22"@),
{
    reveal_strlit("@");
    reveal_strlit(":");
    let hp = host + ":"@ + port;
    crate::text::lemma_last_index_unique(hp, ':', host.len() as int);
    assert(hp.subrange(0, host.len() as int) =~= host);
    assert(hp.subrange(host.len() as int + 1, hp.len() as int) =~= port);
    assert forall|j: int| 0 <= j < hp.len() implies hp[j] != '@' by {
        if j < host.len() {
            assert(hp[j] == host[j]);
        } else if j > host.len() {
            assert(hp[j] == port[j - host.len() - 1]);
        }
    }
    crate::text::lemma_last_index_unique(hp, '@', -1);
    if user.len() > 0 {
        let name = user + "@"@ + hp;
        assert(user + "@"@ + host + ":"@ + port =~= name);
        assert forall|j: int| user.len() < j < name.len() implies name[j] != '@' by {
            assert(name[j] == hp[j - user.len() - 1]);
        }
        crate::text::lemma_last_index_unique(name, '@', user.len() as int);
        assert(name.subrange(0, user.len() as int) =~= user);
        assert(name.subrange(user.len() as int + 1, name.len() as int) =~= hp);
    }
    if !host.contains(':') {
        assert forall|j: int| 0 <= j < host.len() implies host[j] != '@' && host[j] != ':' by {}
        crate::text::lemma_last_index_unique(host, '@', -1);
        crate::text::lemma_last_index_unique(host, ':', -1);
    }
}

} // verus!
