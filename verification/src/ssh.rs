//! SSH targeting: `user@host:port` targets, `~/.ssh/config` scanning,
//! ControlMaster socket naming, `ssh -G` output and error classification.
//!
//! Everything here computes on text that the caller read (config files,
//! environment variables, `ssh -G` output); running `ssh` is the caller's job.

use vstd::prelude::*;
use crate::paths::{
    join,
    path_join,
};
use crate::text::{
    lemma_last_index_bounds,
    char_is_ascii_alnum,
    concat,
    contains,
    contains_chars,
    dec,
    from_chars,
    is_ascii_alnum,
    last_index_of,
    lowercase,
    parse_u16,
    parse_u16_chars,
    push_str,
    rfind_char,
    slice_string,
    str_eq,
    sub_chars,
    to_chars,
    to_lowercase,
    u64_to_dec,
    views,
};

verus! {

// ---------------------------------------------------------------------------
// user@host:port
// ---------------------------------------------------------------------------

/// Index just after the last `@` (0 when there is none).
pub open spec fn after_at(s: Seq<char>) -> int {
    match last_index_of(s, '@') {
        Some(a) => a + 1,
        None => 0,
    }
}

/// `split_ssh_host`: a `:port` suffix after the last `@` (or anywhere, when
/// there is no `@`) that parses as `u16` is split off; otherwise the target is
/// returned whole with no port.
pub open spec fn split_target(s: Seq<char>) -> (Seq<char>, Option<u16>) {
    let b = after_at(s);
    let rest = s.subrange(b, s.len() as int);
    match last_index_of(rest, ':') {
        Some(c) => match parse_u16(rest.subrange(c + 1, rest.len() as int)) {
            Some(p) => (s.subrange(0, b + c), Some(p)),
            None => (s, None),
        },
        None => (s, None),
    }
}

/// Split a `user@host:port` (or `host:port`) target into the host part and
/// an optional port.
pub fn split_ssh_host(host: &str) -> (r: (String, Option<u16>))
    ensures
        r.0@ == split_target(host@).0,
        r.1 == split_target(host@).1,
{
    let v = to_chars(host);
    let n = v.len();
    proof {
        lemma_last_index_bounds(v@, '@');
    }
    let base: usize = match rfind_char(&v, '@') {
        Some(a) => a + 1,
        None => 0,
    };
    let rest = sub_chars(&v, base, n);
    match rfind_char(&rest, ':') {
        Some(c) => {
            proof {
                lemma_last_index_bounds(rest@, ':');
            }
            let p = parse_u16_chars(&rest, c + 1, rest.len());
            match p {
                Some(port) => {
                    let h = slice_string(&v, 0, base + c);
                    (h, Some(port))
                },
                None => (host.to_owned(), None),
            }
        },
        None => (host.to_owned(), None),
    }
}

/// The `ssh` arguments that address `host`: `-p <port>` when the target
/// carries a port, then the host part.
pub open spec fn target_args(host: Seq<char>) -> Seq<Seq<char>> {
    let (h, p) = split_target(host);
    match p {
        Some(port) => seq!["-p"@, dec(port as nat), h],
        None => seq![h],
    }
}

/// The arguments `ssh_host` adds to an `ssh` command line.
pub fn ssh_host_args(host: &str) -> (r: Vec<String>)
    ensures
        views(r@) == target_args(host@),
{
    let (h, port) = split_ssh_host(host);
    let mut r: Vec<String> = Vec::new();
    match port {
        Some(p) => {
            r.push("-p".to_owned());
            r.push(u64_to_dec(p as u64));
            r.push(h);
        },
        None => {
            r.push(h);
        },
    }
    assert(views(r@) == target_args(host@));
    r
}

/// The hostname part of a target: the host part without `user@`.
pub open spec fn alias_of(host: Seq<char>) -> Seq<char> {
    let full = split_target(host).0;
    match last_index_of(full, '@') {
        Some(i) => full.subrange(i + 1, full.len() as int),
        None => full,
    }
}

/// The bare hostname of a `user@host:port` target (the DNS cache key and the
/// `HostKeyAlias`).
pub fn host_alias(host: &str) -> (r: String)
    ensures
        r@ == alias_of(host@),
{
    let (full, _) = split_ssh_host(host);
    let v = to_chars(full.as_str());
    let n = v.len();
    proof {
        lemma_last_index_bounds(v@, '@');
    }
    match rfind_char(&v, '@') {
        Some(i) => slice_string(&v, i + 1, n),
        None => full,
    }
}

/// `[user@]ip:port` for a resolved address, keeping the caller's `user@`
/// and port (22 by default).
pub open spec fn ip_target_spec(host: Seq<char>, ip: Seq<char>) -> Seq<char> {
    let (full, port) = split_target(host);
    let p = match port {
        Some(p) => p,
        None => 22u16,
    };
    match last_index_of(full, '@') {
        Some(i) => full.subrange(0, i) + "@"@ + ip + ":"@ + dec(p as nat),
        None => ip + ":"@ + dec(p as nat),
    }
}

/// Build a concrete `[user@]ip[:port]` target from a resolved address given
/// as its display text.
pub fn ip_target(host: &str, ip: &str) -> (r: String)
    ensures
        r@ == ip_target_spec(host@, ip@),
{
    let (full, port) = split_ssh_host(host);
    let p: u16 = match port {
        Some(p) => p,
        None => 22,
    };
    let v = to_chars(full.as_str());
    proof {
        lemma_last_index_bounds(v@, '@');
    }
    let mut s = match rfind_char(&v, '@') {
        Some(i) => {
            let mut s = slice_string(&v, 0, i);
            push_str(&mut s, "@");
            s
        },
        None => String::new(),
    };
    push_str(&mut s, ip);
    push_str(&mut s, ":");
    let d = u64_to_dec(p as u64);
    push_str(&mut s, d.as_str());
    s
}

// ---------------------------------------------------------------------------
// ControlMaster sockets
// ---------------------------------------------------------------------------

/// Every character that is not ASCII alphanumeric becomes `_`.
pub open spec fn sanitized(host: Seq<char>) -> Seq<char> {
    host.map_values(|c: char| if is_ascii_alnum(c) { c } else { '_' })
}

/// Sanitize a host string into a safe socket filename component.
pub fn ssh_sanitize(host: &str) -> (r: String)
    ensures
        r@ == sanitized(host@),
{
    let v = to_chars(host);
    let mut out: Vec<char> = Vec::new();
    let mut i: usize = 0;
    while i < v.len()
        invariant
            i <= v@.len(),
            v@ == host@,
            out@ == sanitized(v@.take(i as int)),
        decreases v@.len() - i,
    {
        let c = v[i];
        out.push(if char_is_ascii_alnum(c) { c } else { '_' });
        assert(sanitized(v@.take(i as int + 1)) == sanitized(v@.take(i as int)).push(
            if is_ascii_alnum(c) { c } else { '_' },
        ));
        i = i + 1;
    }
    assert(v@.take(v@.len() as int) == v@);
    from_chars(out.as_slice())
}

/// The socket directory: `PUPPETTERM_MUX_DIR` when set and non-empty, else
/// `$XDG_RUNTIME_DIR/puppetterm-mux` when that is set and non-empty, else
/// `/tmp/puppetterm-mux`.
pub open spec fn mux_dir_spec(mux: Option<Seq<char>>, xdg: Option<Seq<char>>) -> Seq<char> {
    if mux matches Some(d) && d.len() > 0 {
        mux->0
    } else if xdg matches Some(x) && x.len() > 0 {
        path_join(xdg->0, "puppetterm-mux"@)
    } else {
        "/tmp/puppetterm-mux"@
    }
}

/// Directory for puppetterm-managed ControlMaster sockets, from the values of
/// `PUPPETTERM_MUX_DIR` and `XDG_RUNTIME_DIR`.
pub fn ssh_mux_dir(mux: Option<&str>, xdg: Option<&str>) -> (r: String)
    ensures
        r@ == mux_dir_spec(
            match mux {
                Some(d) => Some(d@),
                None => None,
            },
            match xdg {
                Some(x) => Some(x@),
                None => None,
            },
        ),
{
    if let Some(d) = mux {
        if !d.is_empty() {
            return d.to_owned();
        }
    }
    if let Some(x) = xdg {
        if !x.is_empty() {
            return join(x, "puppetterm-mux");
        }
    }
    "/tmp/puppetterm-mux".to_owned()
}

/// `<mux_dir>/<sanitized host>.sock`.
pub open spec fn control_path_spec(mux_dir: Seq<char>, host: Seq<char>) -> Seq<char> {
    path_join(mux_dir, sanitized(host) + ".sock"@)
}

/// ControlPath for a new control master owned by the app.
pub fn ssh_control_path(mux_dir: &str, host: &str) -> (r: String)
    ensures
        r@ == control_path_spec(mux_dir@, host@),
{
    let mut name = ssh_sanitize(host);
    push_str(&mut name, ".sock");
    join(mux_dir, name.as_str())
}

/// A socket file for `host` always lands inside the socket directory: the
/// sanitized name holds no `/`, so joining it never replaces or leaves the
/// directory.
pub proof fn law_control_path_stays_in_dir(mux_dir: Seq<char>, host: Seq<char>)
    ensures
        control_path_spec(mux_dir, host).len() > mux_dir.len(),
        control_path_spec(mux_dir, host).subrange(0, mux_dir.len() as int) == mux_dir,
        forall|i: int| 0 <= i < sanitized(host).len() ==> #[trigger] sanitized(host)[i] != '/',
{
    reveal_strlit(".sock");
    let comp = sanitized(host) + ".sock"@;
    assert(comp.len() > 0);
    if sanitized(host).len() > 0 {
        assert(comp[0] == sanitized(host)[0]);
    } else {
        assert(comp[0] == '.');
    }
    let r = control_path_spec(mux_dir, host);
    if mux_dir.len() == 0 || mux_dir.last() == '/' {
        assert(r == mux_dir + comp);
    } else {
        assert(r == mux_dir + seq!['/'] + comp);
    }
    assert(r.subrange(0, mux_dir.len() as int) =~= mux_dir);
}

/// Removes consecutive duplicates (`Vec::dedup`).
pub open spec fn dedup(s: Seq<Seq<char>>) -> Seq<Seq<char>>
    decreases s.len(),
{
    if s.len() <= 1 {
        s
    } else if s[0] == s[1] {
        dedup(s.drop_first())
    } else {
        seq![s[0]] + dedup(s.drop_first())
    }
}

/// The socket names an existing user-managed master for `host` may have
/// (`%r@%h:%p`), strongest hint first.
pub open spec fn socket_names(host: Seq<char>, config_user: Option<Seq<char>>) -> Seq<Seq<char>> {
    let (h, port) = split_target(host);
    let p = dec(
        (match port {
            Some(p) => p,
            None => 22u16,
        }) as nat,
    );
    let explicit = match last_index_of(host, '@') {
        Some(at) => seq![host.subrange(0, at) + "@"@ + h + ":"@ + p],
        None => Seq::empty(),
    };
    let configured = match config_user {
        Some(u) => if u.len() > 0 {
            seq![u + "@"@ + h + ":"@ + p]
        } else {
            Seq::empty()
        },
        None => Seq::empty(),
    };
    dedup(explicit + configured + seq![h + ":"@ + p])
}

/// Candidate socket paths under `$HOME/.ssh/puppetterm-mux` for a master the
/// user's own ssh config already established for `host`. `config_user` is the
/// `User` that `~/.ssh/config` gives the host part of the target.
pub fn mux_socket_candidates(home: &str, host: &str, config_user: Option<&str>) -> (r: Vec<String>)
    ensures
        views(r@) == socket_names(
            host@,
            match config_user {
                Some(u) => Some(u@),
                None => None,
            },
        ).map_values(|n: Seq<char>| path_join(path_join(path_join(home@, ".ssh"@), "puppetterm-mux"@), n)),
{
    let d1 = join(home, ".ssh");
    let dir = join(d1.as_str(), "puppetterm-mux");
    let (h, port) = split_ssh_host(host);
    let p: u16 = match port {
        Some(p) => p,
        None => 22,
    };
    let pd = u64_to_dec(p as u64);
    let mut suffix = String::new();
    push_str(&mut suffix, "@");
    push_str(&mut suffix, h.as_str());
    push_str(&mut suffix, ":");
    push_str(&mut suffix, pd.as_str());
    let ghost cu = match config_user {
        Some(u) => Some(u@),
        None => None,
    };
    let ghost pre = socket_names_pre(host@, cu);
    let ghost sfx = "@"@ + h@ + ":"@ + pd@;
    assert(suffix@ =~= sfx);
    let mut names: Vec<String> = Vec::new();
    let hv = to_chars(host);
    proof {
        lemma_last_index_bounds(hv@, '@');
    }
    let ghost explicit = match last_index_of(host@, '@') {
        Some(at) => seq![host@.subrange(0, at) + "@"@ + h@ + ":"@ + pd@],
        None => Seq::<Seq<char>>::empty(),
    };
    if let Some(at) = rfind_char(&hv, '@') {
        let mut c = slice_string(&hv, 0, at);
        push_str(&mut c, suffix.as_str());
        assert(c@ =~= host@.subrange(0, at as int) + "@"@ + h@ + ":"@ + pd@);
        names.push(c);
    }
    assert(views(names@) =~= explicit);
    let ghost configured = match cu {
        Some(u) => if u.len() > 0 {
            seq![u + "@"@ + h@ + ":"@ + pd@]
        } else {
            Seq::<Seq<char>>::empty()
        },
        None => Seq::<Seq<char>>::empty(),
    };
    if let Some(u) = config_user {
        if !u.is_empty() {
            let cc = concat(u, suffix.as_str());
            assert(cc@ =~= u@ + "@"@ + h@ + ":"@ + pd@);
            names.push(cc);
        }
    }
    assert(views(names@) =~= explicit + configured);
    let mut last = h.clone();
    push_str(&mut last, ":");
    push_str(&mut last, pd.as_str());
    names.push(last);
    let ghost all = views(names@);
    assert(all =~= explicit + configured + seq![h@ + ":"@ + pd@]);
    assert(all == pre);
    let kept = dedup_strings(&names);
    let mut out: Vec<String> = Vec::new();
    let mut i: usize = 0;
    while i < kept.len()
        invariant
            i <= kept@.len(),
            out@.len() == i,
            forall|k: int| 0 <= k < i ==> #[trigger] out@[k]@ == path_join(dir@, kept@[k]@),
        decreases kept@.len() - i,
    {
        out.push(join(dir.as_str(), kept[i].as_str()));
        i = i + 1;
    }
    assert(views(out@) == views(kept@).map_values(|n: Seq<char>| path_join(dir@, n)));
    out
}

/// The candidate names before de-duplication.
pub open spec fn socket_names_pre(host: Seq<char>, config_user: Option<Seq<char>>) -> Seq<
    Seq<char>,
> {
    let (h, port) = split_target(host);
    let p = dec(
        (match port {
            Some(p) => p,
            None => 22u16,
        }) as nat,
    );
    let explicit = match last_index_of(host, '@') {
        Some(at) => seq![host.subrange(0, at) + "@"@ + h + ":"@ + p],
        None => Seq::empty(),
    };
    let configured = match config_user {
        Some(u) => if u.len() > 0 {
            seq![u + "@"@ + h + ":"@ + p]
        } else {
            Seq::empty()
        },
        None => Seq::empty(),
    };
    explicit + configured + seq![h + ":"@ + p]
}

/// `Vec::dedup` on strings.
fn dedup_strings(v: &Vec<String>) -> (r: Vec<String>)
    ensures
        views(r@) == dedup(views(v@)),
    decreases v@.len(),
{
    let n = v.len();
    let mut out: Vec<String> = Vec::new();
    if n == 0 {
        assert(views(out@) == dedup(views(v@)));
        return out;
    }
    // walk backwards so each step prepends one element
    let mut i: usize = n - 1;
    out.push(v[i].clone());
    assert(views(v@).subrange(i as int, n as int) == seq![v@[i as int]@]);
    assert(views(out@) == dedup(views(v@).subrange(i as int, n as int)));
    while i > 0
        invariant
            0 <= i < n == v@.len(),
            views(out@) == dedup(views(v@).subrange(i as int, n as int)),
            out@.len() >= 1,
            views(out@)[0] == v@[i as int]@,
        decreases i,
    {
        let ghost s = views(v@).subrange(i as int - 1, n as int);
        assert(s.drop_first() == views(v@).subrange(i as int, n as int));
        assert(s[0] == v@[i - 1]@);
        assert(s[1] == v@[i as int]@);
        let same = str_eq(v[i - 1].as_str(), v[i].as_str());
        if !same {
            let ghost old_out = views(out@);
            out.insert(0, v[i - 1].clone());
            assert(views(out@) == seq![v@[i - 1]@] + old_out);
        }
        i = i - 1;
    }
    assert(views(v@).subrange(0, n as int) == views(v@));
    out
}

// ---------------------------------------------------------------------------
// error classification
// ---------------------------------------------------------------------------

/// The guidance appended to unresolvable-hostname errors.
pub open spec fn hint_text() -> Seq<char> {
    " — the server can't resolve that hostname. Fixes: add a `Host <name>` entry with `HostName <ip>` to ~/.ssh/config and restart the container (or reopen an SSH tab to the host first so the installer reuses its live connection)."@
}

/// Whether an (already lowercased) message reports a name-resolution failure.
pub open spec fn mentions_resolution(lower: Seq<char>) -> bool {
    contains(lower, "could not resolve hostname"@) || contains(
        lower,
        "temporary failure in name resolution"@,
    )
}

/// Append actionable guidance when ssh fails to resolve a hostname.
pub fn resolution_hint(err: &str) -> (r: String)
    ensures
        r@ == if mentions_resolution(lowercase(err@)) {
            err@ + hint_text()
        } else {
            err@
        },
{
    let lower = to_lowercase(err);
    let lv = to_chars(lower.as_str());
    let p1 = to_chars("could not resolve hostname");
    let p2 = to_chars("temporary failure in name resolution");
    if contains_chars(&lv, &p1) || contains_chars(&lv, &p2) {
        concat(
            err,
            " — the server can't resolve that hostname. Fixes: add a `Host <name>` entry with `HostName <ip>` to ~/.ssh/config and restart the container (or reopen an SSH tab to the host first so the installer reuses its live connection).",
        )
    } else {
        err.to_owned()
    }
}

/// Whether an (already lowercased) message reports a transient failure.
pub open spec fn transient_text(lower: Seq<char>) -> bool {
    contains(lower, "could not resolve hostname"@) || contains(
        lower,
        "temporary failure in name resolution"@,
    ) || contains(lower, "connection timed out"@) || contains(lower, "network is unreachable"@)
        || contains(lower, "connection refused"@)
}

/// True when an ssh error message looks like a transient name-resolution or
/// connect failure worth retrying.
pub fn is_transient_ssh_error(err: &str) -> (r: bool)
    ensures
        r == transient_text(lowercase(err@)),
{
    let lower = to_lowercase(err);
    let lv = to_chars(lower.as_str());
    contains_chars(&lv, &to_chars("could not resolve hostname")) || contains_chars(
        &lv,
        &to_chars("temporary failure in name resolution"),
    ) || contains_chars(&lv, &to_chars("connection timed out")) || contains_chars(
        &lv,
        &to_chars("network is unreachable"),
    ) || contains_chars(&lv, &to_chars("connection refused"))
}

/// Each of the failures ssh reports for an unreachable or unresolvable host
/// is transient, whatever the case of the message: a failed name lookup
/// (either wording), a connect timeout, an unreachable network, a refused
/// connection. A message naming none of them is not.
pub proof fn law_transient_failures(msg: Seq<char>)
    ensures
        contains(lowercase(msg), "could not resolve hostname"@) ==> transient_text(lowercase(msg)),
        contains(lowercase(msg), "temporary failure in name resolution"@) ==> transient_text(
            lowercase(msg),
        ),
        contains(lowercase(msg), "connection timed out"@) ==> transient_text(lowercase(msg)),
        contains(lowercase(msg), "network is unreachable"@) ==> transient_text(lowercase(msg)),
        contains(lowercase(msg), "connection refused"@) ==> transient_text(lowercase(msg)),
        !contains(lowercase(msg), "could not resolve hostname"@) && !contains(
            lowercase(msg),
            "temporary failure in name resolution"@,
        ) && !contains(lowercase(msg), "connection timed out"@) && !contains(
            lowercase(msg),
            "network is unreachable"@,
        ) && !contains(lowercase(msg), "connection refused"@) ==> !transient_text(lowercase(msg)),
{
}

/// A name-lookup failure (either wording, any case) is both transient and
/// given the hint; other messages are left as they are.
pub proof fn law_resolution_failures(msg: Seq<char>)
    ensures
        contains(lowercase(msg), "could not resolve hostname"@) || contains(
            lowercase(msg),
            "temporary failure in name resolution"@,
        ) ==> mentions_resolution(lowercase(msg)) && transient_text(lowercase(msg)),
        !contains(lowercase(msg), "could not resolve hostname"@) && !contains(
            lowercase(msg),
            "temporary failure in name resolution"@,
        ) ==> !mentions_resolution(lowercase(msg)),
{
}

} // verus!
