//! Agent action runs: validating the target, the `ssh` command line that runs
//! `puppetterm-agent`, which NDJSON lines count as events, how a finished run
//! is reported, the table of running actions and the remote `pkill` that
//! takes back control.
//!
//! Spawning `ssh`, streaming its output and killing process groups is the
//! caller's work; this module decides what to run and what the outcome means.

use vstd::prelude::*;
use crate::paths::{join, path_join};
use crate::registry::Registry;
use crate::ssh::{sanitized, ssh_sanitize};
use crate::text::{
    char_is_ctrl, char_is_ws, first_index_of, find_char, i64_to_dec, is_ctrl, is_ws, push_str,
    slice_string, to_chars, trim, trim_bounds, trim_str, dec_int, views,
};

verus! {

// ---------------------------------------------------------------------------
// the target
// ---------------------------------------------------------------------------

/// Why a host cannot be handed to OpenSSH, if it cannot.
pub open spec fn host_problem(host: Seq<char>) -> Option<Seq<char>> {
    if trim(host).len() == 0 {
        Some("empty host"@)
    } else if exists|i: int| 0 <= i < host.len() && (is_ctrl(host[i]) || is_ws(host[i])) {
        Some("host contains whitespace or control characters"@)
    } else {
        None
    }
}

/// Reject a blank host, or one carrying whitespace or control characters
/// (a stray newline from pasted input makes OpenSSH fail confusingly).
pub fn validate_host(host: &str) -> (r: Result<(), String>)
    ensures
        match host_problem(host@) {
            Some(msg) => r matches Err(e) && e@ == msg,
            None => r is Ok,
        },
{
    let v = to_chars(host);
    let (a, b) = trim_bounds(&v);
    if a == b {
        return Err("empty host".to_owned());
    }
    assert(trim(host@) == v@.subrange(a as int, b as int));
    assert(trim(host@).len() > 0);
    let mut i: usize = 0;
    while i < v.len()
        invariant
            i <= v@.len(),
            v@ == host@,
            trim(host@).len() > 0,
            forall|j: int| 0 <= j < i ==> !(is_ctrl(v@[j]) || is_ws(v@[j])),
        decreases v@.len() - i,
    {
        if char_is_ctrl(v[i]) || char_is_ws(v[i]) {
            assert(is_ctrl(host@[i as int]) || is_ws(host@[i as int]));
            return Err("host contains whitespace or control characters".to_owned());
        }
        i = i + 1;
    }
    Ok(())
}

/// Socket filename component for a host (same rule as [`ssh_sanitize`]).
pub fn sanitize(host: &str) -> (r: String)
    ensures
        r@ == sanitized(host@),
{
    ssh_sanitize(host)
}

/// The ControlMaster socket an agent run looks for: `<dir>/<sanitized>.sock`
/// where `dir` is `PUPPETTERM_MUX_DIR` if set, else
/// `$XDG_RUNTIME_DIR/puppetterm-mux` if set, else `/tmp/puppetterm-mux`.
pub open spec fn agent_socket_spec(mux: Option<Seq<char>>, xdg: Option<Seq<char>>, host: Seq<char>) -> Seq<char> {
    let dir = match mux {
        Some(d) => d,
        None => match xdg {
            Some(x) => path_join(x, "puppetterm-mux"@),
            None => "/tmp/puppetterm-mux"@,
        },
    };
    path_join(dir, sanitized(host) + ".sock"@)
}

/// Where an agent run looks for an existing ControlMaster socket, from the
/// values of `PUPPETTERM_MUX_DIR` and `XDG_RUNTIME_DIR`.
pub fn agent_socket_path(mux: Option<&str>, xdg: Option<&str>, host: &str) -> (r: String)
    ensures
        r@ == agent_socket_spec(
            match mux {
                Some(d) => Some(d@),
                None => None,
            },
            match xdg {
                Some(x) => Some(x@),
                None => None,
            },
            host@,
        ),
{
    let dir = match mux {
        Some(d) => d.to_owned(),
        None => match xdg {
            Some(x) => join(x, "puppetterm-mux"),
            None => "/tmp/puppetterm-mux".to_owned(),
        },
    };
    let mut name = sanitize(host);
    push_str(&mut name, ".sock");
    join(dir.as_str(), name.as_str())
}

/// The remote agent binary: `PUPPETTERM_AGENT_BIN` or the system path.
pub open spec fn agent_bin_spec(env: Option<Seq<char>>) -> Seq<char> {
    match env {
        Some(b) => b,
        None => "/usr/local/bin/puppetterm-agent"@,
    }
}

/// The `ssh` arguments of an agent run: batch mode, a connect timeout, the
/// existing socket when there is one, the host and the agent binary.
pub open spec fn action_args_spec(host: Seq<char>, agent: Seq<char>, sock: Option<Seq<char>>) -> Seq<Seq<char>> {
    let head = seq!["-o"@, "BatchMode=yes"@, "-o"@, "ConnectTimeout=10"@];
    let mid = match sock {
        Some(s) => seq!["-S"@, s],
        None => Seq::empty(),
    };
    head + mid + seq![host, agent]
}

/// Arguments for `ssh` when running one agent action on `host`.
pub fn action_args(host: &str, agent_env: Option<&str>, sock: Option<&str>) -> (r: Vec<String>)
    ensures
        views(r@) == action_args_spec(
            host@,
            agent_bin_spec(
                match agent_env {
                    Some(b) => Some(b@),
                    None => None,
                },
            ),
            match sock {
                Some(s) => Some(s@),
                None => None,
            },
        ),
{
    let mut r: Vec<String> = Vec::new();
    r.push("-o".to_owned());
    r.push("BatchMode=yes".to_owned());
    r.push("-o".to_owned());
    r.push("ConnectTimeout=10".to_owned());
    if let Some(s) = sock {
        r.push("-S".to_owned());
        r.push(s.to_owned());
    }
    r.push(host.to_owned());
    let agent = match agent_env {
        Some(b) => b.to_owned(),
        None => "/usr/local/bin/puppetterm-agent".to_owned(),
    };
    r.push(agent);
    proof {
        let ghost spec = action_args_spec(
            host@,
            agent_bin_spec(
                match agent_env {
                    Some(b) => Some(b@),
                    None => None,
                },
            ),
            match sock {
                Some(s) => Some(s@),
                None => None,
            },
        );
        assert(views(r@) =~= spec);
    }
    r
}

// ---------------------------------------------------------------------------
// streamed events
// ---------------------------------------------------------------------------

/// The name for whether `serde_json` accepts a text as one JSON value.
pub uninterp spec fn json_text(s: Seq<char>) -> bool;

/// `serde_json::from_str::<Value>(s).is_ok()`. Trusted: the result is
/// [`json_text`] of the text; the JSON grammar itself is not restated.
#[verifier::external_body]
fn parses_as_json(s: &str) -> (r: bool)
    ensures
        r == json_text(s@),
{
    serde_json::from_str::<serde_json::Value>(s).is_ok()
}

/// What one stdout line of the agent contributes: its trimmed text when that
/// is non-empty and one JSON value, otherwise nothing.
pub open spec fn event_of(line: Seq<char>) -> Option<Seq<char>> {
    let t = trim(line);
    if t.len() > 0 && json_text(t) {
        Some(t)
    } else {
        None
    }
}

/// The event carried by one NDJSON line, if it carries one.
pub fn ndjson_event(line: &str) -> (r: Option<String>)
    ensures
        match event_of(line@) {
            Some(t) => r matches Some(s) && s@ == t,
            None => r is None,
        },
{
    let t = trim_str(line);
    if t.as_str().is_empty() {
        return None;
    }
    assert(t@.len() > 0);
    if parses_as_json(t.as_str()) {
        Some(t)
    } else {
        None
    }
}

/// The result of one finished action run; events are JSON texts in the
/// order the agent streamed them.
pub struct AgentRunResult {
    pub host: String,
    pub exit: i32,
    pub events: Vec<String>,
}

/// How a finished run is reported: a failing exit with no event is an error
/// carrying the trimmed stderr (or the exit code when stderr is blank);
/// anything else is the run's result.
pub open spec fn run_error(exit: i32, n_events: nat, stderr: Seq<char>) -> Option<Seq<char>> {
    if exit != 0 && n_events == 0 {
        if trim(stderr).len() == 0 {
            Some("agent action failed (exit "@ + dec_int(exit as int) + ")"@)
        } else {
            Some(trim(stderr))
        }
    } else {
        None
    }
}

/// Report a finished run of `host` that exited with `exit` after streaming
/// `events` and writing `stderr`.
pub fn finish_action(host: &str, exit: i32, events: Vec<String>, stderr: &str) -> (r: Result<AgentRunResult, String>)
    ensures
        match run_error(exit, events@.len(), stderr@) {
            Some(msg) => r matches Err(e) && e@ == msg,
            None => r matches Ok(res) && res.host@ == host@ && res.exit == exit && res.events@ == events@,
        },
{
    if exit != 0 && events.len() == 0 {
        let t = trim_str(stderr);
        if t.as_str().is_empty() {
            let mut m = "agent action failed (exit ".to_owned();
            let d = i64_to_dec(exit as i64);
            push_str(&mut m, d.as_str());
            push_str(&mut m, ")");
            return Err(m);
        }
        assert(t@.len() > 0);
        return Err(t);
    }
    Ok(AgentRunResult { host: host.to_owned(), exit, events })
}

// ---------------------------------------------------------------------------
// running actions
// ---------------------------------------------------------------------------

/// Running agent actions: request id to the pid of the `ssh` child, so an
/// in-flight action can be aborted.
pub struct ActionRegistry {
    table: Registry<u32>,
}

impl ActionRegistry {
    /// Running actions by request id.
    pub closed spec fn view(&self) -> Map<Seq<char>, u32> {
        self.table.view()
    }

    /// The table is well formed.
    pub closed spec fn wf(&self) -> bool {
        self.table.wf()
    }

    /// No running action.
    pub fn new() -> (r: Self)
        ensures
            r.wf(),
            r.view() == Map::<Seq<char>, u32>::empty(),
    {
        ActionRegistry { table: Registry::new() }
    }

    /// Register a started run; an empty request id is not registered.
    pub fn register(&mut self, request_id: &str, pid: u32)
        requires
            old(self).wf(),
        ensures
            final(self).wf(),
            request_id@.len() > 0 ==> final(self).view() == old(self).view().insert(request_id@, pid),
            request_id@.len() == 0 ==> final(self).view() == old(self).view(),
    {
        if !request_id.is_empty() {
            self.table.insert(request_id.to_owned(), pid);
        }
    }

    /// Forget a finished run; an empty request id was never registered.
    pub fn unregister(&mut self, request_id: &str)
        requires
            old(self).wf(),
        ensures
            final(self).wf(),
            request_id@.len() > 0 ==> final(self).view() == old(self).view().remove(request_id@),
            request_id@.len() == 0 ==> final(self).view() == old(self).view(),
    {
        if !request_id.is_empty() {
            let _ = self.table.remove(request_id);
        }
    }

    /// The pid of the running action with this id, if there is one.
    pub fn pid_of(&self, request_id: &str) -> (r: Option<u32>)
        requires
            self.wf(),
        ensures
            match r {
                Some(p) => self.view().contains_key(request_id@) && p == self.view()[request_id@],
                None => !self.view().contains_key(request_id@),
            },
    {
        match self.table.get(request_id) {
            Some(p) => Some(*p),
            None => None,
        }
    }
}

// ---------------------------------------------------------------------------
// taking back control
// ---------------------------------------------------------------------------

/// The user `pkill` targets: the text before the first `@` (the whole host
/// when there is none).
pub open spec fn pkill_user(host: Seq<char>) -> Seq<char> {
    match first_index_of(host, '@') {
        Some(i) => host.subrange(0, i),
        None => host,
    }
}

/// `ssh` arguments that kill the user's agent processes on `host`.
pub open spec fn pkill_args_spec(host: Seq<char>) -> Seq<Seq<char>> {
    let u = pkill_user(host);
    let head = seq!["-o"@, "BatchMode=yes"@, "-o"@, "ConnectTimeout=5"@, host, "pkill"@];
    if u.len() > 0 {
        head + seq!["-TERM"@, "-u"@, u, "-f"@, "puppetterm-agent"@]
    } else {
        head + seq!["-TERM"@, "-f"@, "puppetterm-agent"@]
    }
}

/// The remote `pkill` that stops a run's agent processes (killing the local
/// `ssh` alone leaves the remote command running).
pub fn pkill_args(host: &str) -> (r: Vec<String>)
    ensures
        views(r@) == pkill_args_spec(host@),
{
    let v = to_chars(host);
    let user = match find_char(&v, '@') {
        Some(i) => {
            proof {
                crate::text::lemma_first_index_of(v@, '@');
            }
            slice_string(&v, 0, i)
        },
        None => host.to_owned(),
    };
    let mut r: Vec<String> = Vec::new();
    r.push("-o".to_owned());
    r.push("BatchMode=yes".to_owned());
    r.push("-o".to_owned());
    r.push("ConnectTimeout=5".to_owned());
    r.push(host.to_owned());
    r.push("pkill".to_owned());
    r.push("-TERM".to_owned());
    if !user.as_str().is_empty() {
        r.push("-u".to_owned());
        r.push(user);
    }
    r.push("-f".to_owned());
    r.push("puppetterm-agent".to_owned());
    proof {
        assert(views(r@) =~= pkill_args_spec(host@));
    }
    r
}

/// An accepted host is non-blank and holds no whitespace or control
/// character; any such character, anywhere, gets it refused.
pub proof fn law_accepted_hosts(host: Seq<char>, i: int)
    ensures
        host_problem(host) is None ==> trim(host).len() > 0 && forall|k: int|
            0 <= k < host.len() ==> !is_ws(#[trigger] host[k]) && !is_ctrl(host[k]),
        0 <= i < host.len() && (is_ws(host[i]) || is_ctrl(host[i])) ==> host_problem(host) is Some,
        trim(host).len() == 0 ==> host_problem(host) == Some("empty host"@),
{
}

/// A run that streamed any event, or exited 0, is a result, never an error;
/// a failing run with no event is an error that is never blank.
pub proof fn law_run_outcome(exit: i32, n_events: nat, stderr: Seq<char>)
    ensures
        exit == 0 || n_events > 0 ==> run_error(exit, n_events, stderr) is None,
        exit != 0 && n_events == 0 ==> (run_error(exit, n_events, stderr) matches Some(m) && m.len() > 0),
        exit != 0 && n_events == 0 && trim(stderr).len() > 0 ==> run_error(exit, n_events, stderr)
            == Some(trim(stderr)),
{
    if exit != 0 && n_events == 0 && trim(stderr).len() == 0 {
        reveal_strlit("agent action failed (exit ");
    }
}

/// A line yields an event only when its trimmed text is non-empty JSON, and
/// the event is exactly that text.
pub proof fn law_events_are_trimmed_json(line: Seq<char>)
    ensures
        event_of(line) matches Some(t) ==> t == trim(line) && t.len() > 0 && json_text(t),
        trim(line).len() == 0 ==> event_of(line) is None,
{
}

} // verus!
