//! Reading OpenSSH configuration text: concrete `Host` aliases, the `User`
//! that applies to a host, and the resolved target `ssh -G` prints.

use vstd::prelude::*;
use crate::paths::{join, path_join};
use crate::text::{
    contains,
    find_char,
    first_index_of,
    first_ws,
    find_ws_from,
    insert_sorted,
    last_index_of,
    lemma_first_index_of,
    lemma_first_ws,
    lemma_last_index_of,
    lines,
    lines_of,
    opt_view,
    parse_u16,
    parse_u16_str,
    rfind_char,
    slice_string,
    split_words,
    starts_with,
    starts_with_chars,
    str_eq,
    strictly_sorted,
    to_chars,
    trim,
    trim_bounds,
    trim_str,
    views,
    words,
};

verus! {

/// `$HOME/.ssh/config` (relative `.ssh/config` when `HOME` is unset).
pub fn ssh_config_path(home: Option<&str>) -> (r: String)
    ensures
        r@ == path_join(
            path_join(
                match home {
                    Some(h) => h@,
                    None => Seq::empty(),
                },
                ".ssh"@,
            ),
            "config"@,
        ),
{
    let h: String = match home {
        Some(h) => h.to_owned(),
        None => String::new(),
    };
    let d = join(h.as_str(), ".ssh");
    join(d.as_str(), "config")
}

// ---------------------------------------------------------------------------
// Host aliases
// ---------------------------------------------------------------------------

/// `a` and `b` have the same members.
pub open spec fn same_members(a: Seq<Seq<char>>, b: Seq<Seq<char>>) -> bool {
    forall|x: Seq<char>| #[trigger] a.contains(x) <==> #[trigger] b.contains(x)
}

proof fn lemma_members_push(a: Seq<Seq<char>>, a2: Seq<Seq<char>>, b: Seq<Seq<char>>, w: Seq<char>)
    requires
        same_members(a, b),
        forall|x: Seq<char>| #[trigger] a2.contains(x) <==> (a.contains(x) || x == w),
    ensures
        same_members(a2, b.push(w)),
{
    let b2 = b.push(w);
    assert forall|x: Seq<char>| #[trigger] a2.contains(x) <==> #[trigger] b2.contains(x) by {
        if b2.contains(x) {
            let k = choose|k: int| 0 <= k < b2.len() && b2[k] == x;
            if k < b.len() {
                assert(b[k] == x);
                assert(b.contains(x));
            }
        }
        if b.contains(x) {
            let k = choose|k: int| 0 <= k < b.len() && b[k] == x;
            assert(b2[k] == x);
        }
        if x == w {
            assert(b2[b.len() as int] == x);
        }
        if a2.contains(x) {
            if a.contains(x) {
                assert(b.contains(x));
            }
        }
    }
}

/// Concrete patterns: not empty, not negated (`!`), without `*` or `?`.
pub open spec fn concrete(pats: Seq<Seq<char>>) -> Seq<Seq<char>>
    decreases pats.len(),
{
    if pats.len() == 0 {
        Seq::empty()
    } else {
        let p = pats.last();
        let keep = p.len() > 0 && p[0] != '!' && !p.contains('*') && !p.contains('?');
        concrete(pats.drop_last()) + if keep {
            seq![p]
        } else {
            Seq::empty()
        }
    }
}

/// The concrete aliases one configuration line declares: a trimmed line that
/// starts with `Host ` (note the space, which excludes `HostName`) lists them.
pub open spec fn line_aliases(line: Seq<char>) -> Seq<Seq<char>> {
    let t = trim(line);
    if t.len() == 0 || t[0] == '#' {
        Seq::empty()
    } else if starts_with(t, "Host "@) {
        concrete(words(t.subrange("Host "@.len() as int, t.len() as int)))
    } else {
        Seq::empty()
    }
}

/// All aliases declared by the lines, in order of appearance.
pub open spec fn all_aliases(lines: Seq<Seq<char>>) -> Seq<Seq<char>>
    decreases lines.len(),
{
    if lines.len() == 0 {
        Seq::empty()
    } else {
        all_aliases(lines.drop_last()) + line_aliases(lines.last())
    }
}

/// Whether a pattern contains `*` or `?`.
fn has_wildcard(p: &str) -> (r: bool)
    ensures
        r == (p@.contains('*') || p@.contains('?')),
{
    let v = to_chars(p);
    let a = find_char(&v, '*');
    let b = find_char(&v, '?');
    proof {
        lemma_first_index_of(v@, '*');
        lemma_first_index_of(v@, '?');
    }
    a.is_some() || b.is_some()
}

/// Whether a non-empty pattern is a negation (`!pattern`).
fn negated(p: &str) -> (r: bool)
    requires
        p@.len() > 0,
    ensures
        r == (p@[0] == '!'),
{
    let v = to_chars(p);
    v[0] == '!'
}

/// The concrete aliases of one line, as strings.
fn aliases_of_line(line: &str) -> (r: Vec<String>)
    ensures
        views(r@) == line_aliases(line@),
{
    let v = to_chars(line);
    let (a, b) = trim_bounds(&v);
    let t = slice_string(&v, a, b);
    let tv = to_chars(t.as_str());
    let mut out: Vec<String> = Vec::new();
    if tv.len() == 0 || tv[0] == '#' {
        assert(views(out@) == line_aliases(line@));
        return out;
    }
    let prefix = to_chars("Host ");
    if !starts_with_chars(&tv, &prefix) {
        assert(views(out@) == line_aliases(line@));
        return out;
    }
    let rest = slice_string(&tv, prefix.len(), tv.len());
    let pats = split_words(rest.as_str());
    let ghost ws = words(rest@);
    let mut i: usize = 0;
    while i < pats.len()
        invariant
            i <= pats@.len(),
            pats@.len() == ws.len(),
            forall|k: int| 0 <= k < pats@.len() ==> #[trigger] pats@[k]@ == ws[k],
            views(out@) == concrete(ws.take(i as int)),
        decreases pats@.len() - i,
    {
        let p = pats[i].clone();
        let ghost take1 = ws.take(i as int + 1);
        assert(take1.drop_last() == ws.take(i as int));
        assert(take1.last() == p@);
        if !p.as_str().is_empty() && !negated(p.as_str()) && !has_wildcard(p.as_str()) {
            let ghost o = views(out@);
            out.push(p);
            assert(views(out@) == o.push(take1.last()));
        }
        i = i + 1;
    }
    assert(ws.take(ws.len() as int) == ws);
    out
}

/// A usable alias: not empty, not a negation, no wildcard.
pub open spec fn is_concrete_alias(x: Seq<char>) -> bool {
    x.len() > 0 && x[0] != '!' && !x.contains('*') && !x.contains('?')
}

/// The patterns of a `Host ` line (after the keyword and a space); `None`
/// for any other line.
pub open spec fn host_patterns(line: Seq<char>) -> Option<Seq<Seq<char>>> {
    let t = trim(line);
    if t.len() > 0 && t[0] != '#' && starts_with(t, "Host "@) {
        Some(words(t.subrange(5, t.len() as int)))
    } else {
        None
    }
}

proof fn lemma_concrete_members(pats: Seq<Seq<char>>, x: Seq<char>)
    ensures
        concrete(pats).contains(x) <==> pats.contains(x) && is_concrete_alias(x),
    decreases pats.len(),
{
    if pats.len() > 0 {
        let init = pats.drop_last();
        lemma_concrete_members(init, x);
        let p = pats.last();
        let keep = p.len() > 0 && p[0] != '!' && !p.contains('*') && !p.contains('?');
        let tail: Seq<Seq<char>> = if keep { seq![p] } else { Seq::empty() };
        assert(concrete(pats) == concrete(init) + tail);
        if concrete(pats).contains(x) {
            let k = choose|k: int| 0 <= k < concrete(pats).len() && concrete(pats)[k] == x;
            if k < concrete(init).len() {
                assert(concrete(init)[k] == x);
                let m = choose|m: int| 0 <= m < init.len() && init[m] == x;
                assert(pats[m] == x);
            } else {
                assert(tail[k - concrete(init).len()] == x);
                assert(pats[pats.len() - 1] == x);
            }
        }
        if pats.contains(x) && is_concrete_alias(x) {
            let m = choose|m: int| 0 <= m < pats.len() && pats[m] == x;
            if m < init.len() {
                assert(init[m] == x);
                let k = choose|k: int| 0 <= k < concrete(init).len() && concrete(init)[k] == x;
                assert(concrete(pats)[k] == x);
            } else {
                assert(concrete(pats)[concrete(init).len() as int] == x);
            }
        }
    }
}

proof fn lemma_aliases_members(ls: Seq<Seq<char>>, x: Seq<char>)
    ensures
        all_aliases(ls).contains(x) <==> is_concrete_alias(x) && exists|j: int|
            0 <= j < ls.len() && (#[trigger] host_patterns(ls[j]) matches Some(ps) && ps.contains(x)),
    decreases ls.len(),
{
    reveal_strlit("Host ");
    if ls.len() > 0 {
        let init = ls.drop_last();
        lemma_aliases_members(init, x);
        let l = ls.last();
        lemma_concrete_members(
            if host_patterns(l) is Some { host_patterns(l)->0 } else { Seq::empty() },
            x,
        );
        assert(line_aliases(l) == if host_patterns(l) is Some {
            concrete(host_patterns(l)->0)
        } else {
            Seq::<Seq<char>>::empty()
        });
        let a = all_aliases(init);
        let b = line_aliases(l);
        assert(all_aliases(ls) == a + b);
        if (a + b).contains(x) {
            let k = choose|k: int| 0 <= k < (a + b).len() && (a + b)[k] == x;
            if k < a.len() {
                assert(a[k] == x);
                let j = choose|j: int|
                    0 <= j < init.len() && (#[trigger] host_patterns(init[j]) matches Some(ps)
                        && ps.contains(x));
                assert(init[j] == ls[j]);
            } else {
                assert(b[k - a.len()] == x);
                assert(b.contains(x));
                assert(ls[ls.len() - 1] == l);
            }
        }
        if is_concrete_alias(x) && exists|j: int|
            0 <= j < ls.len() && (#[trigger] host_patterns(ls[j]) matches Some(ps) && ps.contains(x)) {
            let j = choose|j: int|
                0 <= j < ls.len() && (#[trigger] host_patterns(ls[j]) matches Some(ps) && ps.contains(x));
            if j < init.len() {
                assert(init[j] == ls[j]);
                let k = choose|k: int| 0 <= k < a.len() && a[k] == x;
                assert((a + b)[k] == x);
            } else {
                assert(ls[j] == l);
                assert(b.contains(x));
                let k = choose|k: int| 0 <= k < b.len() && b[k] == x;
                assert((a + b)[a.len() + k] == x);
            }
        }
    }
}

/// The aliases offered are exactly the concrete names listed on `Host`
/// lines: a name is offered if and only if some `Host` line lists it and it
/// is not empty, not a negation (`!`) and holds no wildcard (`*`, `?`).
pub proof fn law_host_aliases(content: Seq<char>, x: Seq<char>)
    ensures
        all_aliases(lines_of(content)).contains(x) <==> is_concrete_alias(x) && exists|j: int|
            0 <= j < lines_of(content).len() && (#[trigger] host_patterns(lines_of(content)[j]) matches Some(
                ps,
            ) && ps.contains(x)),
{
    lemma_aliases_members(lines_of(content), x);
}

/// Concrete `Host` aliases declared in the text of `~/.ssh/config`: wildcard
/// patterns and negations are skipped; the result is sorted and free of
/// duplicates.
pub fn parse_ssh_config_hosts(content: &str) -> (r: Vec<String>)
    ensures
        strictly_sorted(views(r@)),
        same_members(views(r@), all_aliases(lines_of(content@))),
{
    let ls = lines(content);
    let ghost all = lines_of(content@);
    let mut out: Vec<String> = Vec::new();
    let mut i: usize = 0;
    while i < ls.len()
        invariant
            i <= ls@.len(),
            ls@.len() == all.len(),
            forall|k: int| 0 <= k < ls@.len() ==> #[trigger] ls@[k]@ == all[k],
            strictly_sorted(views(out@)),
            same_members(views(out@), all_aliases(all.take(i as int))),
        decreases ls@.len() - i,
    {
        let here = aliases_of_line(ls[i].as_str());
        let ghost prev = all_aliases(all.take(i as int));
        let ghost take1 = all.take(i as int + 1);
        assert(views(here@).take(0) + prev =~= prev);
        let mut j: usize = 0;
        while j < here.len()
            invariant
                j <= here@.len(),
                strictly_sorted(views(out@)),
                same_members(views(out@), prev + views(here@).take(j as int)),
            decreases here@.len() - j,
        {
            let ghost before = views(out@);
            let w = here[j].clone();
            assert(w@ == views(here@)[j as int]);
            insert_sorted(&mut out, w);
            proof {
                lemma_members_push(before, views(out@), prev + views(here@).take(j as int), w@);
                assert(prev + views(here@).take(j as int + 1) =~= (prev + views(here@).take(
                    j as int,
                )).push(w@));
            }
            j = j + 1;
        }
        assert(views(here@).take(here@.len() as int) == views(here@));
        assert(take1.drop_last() == all.take(i as int));
        assert(take1.last() == ls@[i as int]@);
        assert(all_aliases(take1) == prev + views(here@));
        i = i + 1;
    }
    assert(all.take(all.len() as int) == all);
    assert(all_aliases(Seq::<Seq<char>>::empty()) + Seq::empty() =~= Seq::<Seq<char>>::empty());
    out
}

// ---------------------------------------------------------------------------
// User for a host
// ---------------------------------------------------------------------------

/// Scans configuration lines for the first `User` inside a `Host` block that
/// names `host` literally (first match wins; wildcards are not expanded).
pub open spec fn user_scan(lines: Seq<Seq<char>>, block: Option<Seq<Seq<char>>>, host: Seq<char>) -> Option<Seq<char>>
    decreases lines.len(),
{
    if lines.len() == 0 {
        None
    } else {
        let t = trim(lines[0]);
        let rest = lines.drop_first();
        if t.len() == 0 || t[0] == '#' {
            user_scan(rest, block, host)
        } else {
            match first_ws(t) {
                None => user_scan(rest, block, host),
                Some(i) => {
                    let kw = t.subrange(0, i);
                    let val = t.subrange(i + 1, t.len() as int);
                    if kw == "Host"@ {
                        user_scan(rest, Some(words(val)), host)
                    } else if kw == "User"@ && (block matches Some(names) && names.contains(host)) {
                        Some(trim(val))
                    } else {
                        user_scan(rest, block, host)
                    }
                },
            }
        }
    }
}

/// A configuration line read as keyword and value: trimmed, not blank, not
/// a comment, split at its first whitespace.
pub open spec fn line_parts(l: Seq<char>) -> Option<(Seq<char>, Seq<char>)> {
    let t = trim(l);
    if t.len() == 0 || t[0] == '#' {
        None
    } else {
        match first_ws(t) {
            None => None,
            Some(i) => Some((t.subrange(0, i), t.subrange(i + 1, t.len() as int))),
        }
    }
}

/// The names of a `Host` line; `None` for any other line.
pub open spec fn host_line_names(l: Seq<char>) -> Option<Seq<Seq<char>>> {
    match line_parts(l) {
        Some(kv) => if kv.0 == "Host"@ {
            Some(words(kv.1))
        } else {
            None
        },
        None => None,
    }
}

/// Line `j` is governed by a `Host` line that names `host`: the nearest
/// `Host` line before it lists `host`, or there is none and the block in
/// force at the start does.
pub open spec fn governed_by(
    lines: Seq<Seq<char>>,
    block: Option<Seq<Seq<char>>>,
    host: Seq<char>,
    j: int,
) -> bool {
    ||| exists|h: int|
        0 <= h < j && (#[trigger] host_line_names(lines[h]) matches Some(ns) && ns.contains(host))
            && forall|k: int| h < k < j ==> host_line_names(#[trigger] lines[k]) is None
    ||| (block matches Some(ns) && ns.contains(host)) && forall|k: int|
        0 <= k < j ==> host_line_names(#[trigger] lines[k]) is None
}

/// The block in force after line `l`.
pub open spec fn block_after(l: Seq<char>, block: Option<Seq<Seq<char>>>) -> Option<Seq<Seq<char>>> {
    if host_line_names(l) is Some {
        host_line_names(l)
    } else {
        block
    }
}

/// Line `l` is a `User` line answering for `host` under `block`.
pub open spec fn answers_here(l: Seq<char>, block: Option<Seq<Seq<char>>>, host: Seq<char>) -> bool {
    line_parts(l) matches Some(kv) && kv.0 == "User"@ && (block matches Some(ns) && ns.contains(host))
}

/// One step of the scan, in terms of [`line_parts`].
proof fn lemma_user_scan_step(lines: Seq<Seq<char>>, block: Option<Seq<Seq<char>>>, host: Seq<char>)
    requires
        lines.len() > 0,
    ensures
        user_scan(lines, block, host) == if answers_here(lines[0], block, host) {
            Some(trim((line_parts(lines[0])->0).1))
        } else {
            user_scan(lines.drop_first(), block_after(lines[0], block), host)
        },
{
    assert("User"@ != "Host"@) by {
        reveal_strlit("User");
        reveal_strlit("Host");
        assert("User"@[0] != "Host"@[0]);
    }
}

/// Moving a governed line one place down past a first line.
proof fn lemma_governed_shift(
    lines: Seq<Seq<char>>,
    block: Option<Seq<Seq<char>>>,
    host: Seq<char>,
    j: int,
)
    requires
        0 <= j < lines.len() - 1,
        governed_by(lines.drop_first(), block_after(lines[0], block), host, j),
    ensures
        governed_by(lines, block, host, j + 1),
{
    let rest = lines.drop_first();
    let nb = block_after(lines[0], block);
    if exists|h: int|
        0 <= h < j && (#[trigger] host_line_names(rest[h]) matches Some(ns) && ns.contains(host))
            && forall|k: int| h < k < j ==> host_line_names(#[trigger] rest[k]) is None {
        let h = choose|h: int|
            0 <= h < j && (#[trigger] host_line_names(rest[h]) matches Some(ns) && ns.contains(host))
                && forall|k: int| h < k < j ==> host_line_names(#[trigger] rest[k]) is None;
        assert(rest[h] == lines[h + 1]);
        assert forall|k: int| h + 1 < k < j + 1 implies host_line_names(#[trigger] lines[k]) is None by {
            assert(rest[k - 1] == lines[k]);
        }
        assert(host_line_names(lines[h + 1]) matches Some(ns) && ns.contains(host));
    } else {
        assert(forall|k: int| 0 <= k < j ==> host_line_names(#[trigger] rest[k]) is None);
        if host_line_names(lines[0]) is Some {
            assert forall|k: int| 0 < k < j + 1 implies host_line_names(#[trigger] lines[k]) is None by {
                assert(rest[k - 1] == lines[k]);
            }
            assert(host_line_names(lines[0]) matches Some(ns) && ns.contains(host));
        } else {
            assert forall|k: int| 0 <= k < j + 1 implies host_line_names(#[trigger] lines[k]) is None by {
                if k > 0 {
                    assert(rest[k - 1] == lines[k]);
                }
            }
        }
    }
}

/// A found user comes from a `User` line governed by a block naming the host.
proof fn lemma_user_scan_source(lines: Seq<Seq<char>>, block: Option<Seq<Seq<char>>>, host: Seq<char>)
    ensures
        user_scan(lines, block, host) matches Some(u) ==> exists|j: int|
            0 <= j < lines.len() && (#[trigger] line_parts(lines[j]) matches Some(kv) && kv.0
                == "User"@ && u == trim(kv.1)) && governed_by(lines, block, host, j),
    decreases lines.len(),
{
    if lines.len() > 0 {
        let rest = lines.drop_first();
        let nb = block_after(lines[0], block);
        lemma_user_scan_step(lines, block, host);
        lemma_user_scan_source(rest, nb, host);
        if let Some(u) = user_scan(lines, block, host) {
            if answers_here(lines[0], block, host) {
                assert(governed_by(lines, block, host, 0));
            } else {
                let j2 = choose|j: int|
                    0 <= j < rest.len() && (#[trigger] line_parts(rest[j]) matches Some(kv) && kv.0
                        == "User"@ && u == trim(kv.1)) && governed_by(rest, nb, host, j);
                assert(rest[j2] == lines[j2 + 1]);
                lemma_governed_shift(lines, block, host, j2);
            }
        }
    }
}

/// Moving a governed line one place up when the first line is dropped.
proof fn lemma_governed_unshift(
    lines: Seq<Seq<char>>,
    block: Option<Seq<Seq<char>>>,
    host: Seq<char>,
    j: int,
)
    requires
        1 <= j < lines.len(),
        governed_by(lines, block, host, j),
    ensures
        governed_by(lines.drop_first(), block_after(lines[0], block), host, j - 1),
{
    let rest = lines.drop_first();
    let nb = block_after(lines[0], block);
    if exists|h: int|
        0 <= h < j && (#[trigger] host_line_names(lines[h]) matches Some(ns) && ns.contains(host))
            && forall|k: int| h < k < j ==> host_line_names(#[trigger] lines[k]) is None {
        let h = choose|h: int|
            0 <= h < j && (#[trigger] host_line_names(lines[h]) matches Some(ns) && ns.contains(host))
                && forall|k: int| h < k < j ==> host_line_names(#[trigger] lines[k]) is None;
        if h == 0 {
            assert forall|k: int| 0 <= k < j - 1 implies host_line_names(#[trigger] rest[k]) is None by {
                assert(rest[k] == lines[k + 1]);
            }
        } else {
            assert(rest[h - 1] == lines[h]);
            assert forall|k: int| h - 1 < k < j - 1 implies host_line_names(#[trigger] rest[k]) is None by {
                assert(rest[k] == lines[k + 1]);
            }
            assert(host_line_names(rest[h - 1]) matches Some(ns) && ns.contains(host));
        }
    } else {
        assert(host_line_names(lines[0]) is None);
        assert forall|k: int| 0 <= k < j - 1 implies host_line_names(#[trigger] rest[k]) is None by {
            assert(rest[k] == lines[k + 1]);
        }
    }
}

/// A `User` line governed by a block naming the host always yields a user.
proof fn lemma_user_scan_complete(
    lines: Seq<Seq<char>>,
    block: Option<Seq<Seq<char>>>,
    host: Seq<char>,
    j: int,
)
    requires
        0 <= j < lines.len(),
        line_parts(lines[j]) matches Some(kv) && kv.0 == "User"@,
        governed_by(lines, block, host, j),
    ensures
        user_scan(lines, block, host) is Some,
    decreases lines.len(),
{
    lemma_user_scan_step(lines, block, host);
    if !answers_here(lines[0], block, host) {
        if j == 0 {
            assert(false);
        }
        lemma_governed_unshift(lines, block, host, j);
        assert(lines.drop_first()[j - 1] == lines[j]);
        lemma_user_scan_complete(lines.drop_first(), block_after(lines[0], block), host, j - 1);
    }
}

/// A user found for `host` is the trimmed value of a `User` line whose
/// nearest preceding `Host` line lists `host` among its names; a `User` line
/// under a `Host` line that does not name `host` never answers; and when
/// such a governed `User` line exists, a user is found.
pub proof fn law_user_comes_from_host_block(content: Seq<char>, host: Seq<char>)
    ensures
        ({
            let ls = lines_of(content);
            &&& user_scan(ls, None, host) matches Some(u) ==> exists|j: int, h: int|
                0 <= h < j < ls.len() && (#[trigger] line_parts(ls[j]) matches Some(kv) && kv.0
                    == "User"@ && u == trim(kv.1)) && (#[trigger] host_line_names(ls[h]) matches Some(
                    ns,
                ) && ns.contains(host)) && forall|k: int|
                    h < k < j ==> host_line_names(#[trigger] ls[k]) is None
            &&& forall|j: int|
                0 <= j < ls.len() && (#[trigger] line_parts(ls[j]) matches Some(kv) && kv.0 == "User"@)
                    && governed_by(ls, None, host, j) ==> user_scan(ls, None, host) is Some
        }),
{
    let ls = lines_of(content);
    lemma_user_scan_source(ls, None, host);
    assert forall|j: int|
        0 <= j < ls.len() && (#[trigger] line_parts(ls[j]) matches Some(kv) && kv.0 == "User"@)
            && governed_by(ls, None, host, j) implies user_scan(ls, None, host) is Some by {
        lemma_user_scan_complete(ls, None, host, j);
    }
}

fn names_contain(names: &Vec<String>, host: &str) -> (r: bool)
    ensures
        r == views(names@).contains(host@),
{
    let mut i: usize = 0;
    while i < names.len()
        invariant
            i <= names@.len(),
            forall|k: int| 0 <= k < i ==> names@[k]@ != host@,
        decreases names@.len() - i,
    {
        if str_eq(names[i].as_str(), host) {
            assert(views(names@)[i as int] == host@);
            return true;
        }
        i = i + 1;
    }
    assert forall|k: int| 0 <= k < views(names@).len() implies views(names@)[k] != host@ by {
        assert(views(names@)[k] == names@[k]@);
    }
    false
}

/// The first `User` directive that applies to `host` in the text of
/// `~/.ssh/config` (only literal `Host <name>` blocks are considered).
pub fn ssh_user_for(content: &str, host: &str) -> (r: Option<String>)
    ensures
        opt_view(r) == user_scan(lines_of(content@), None, host@),
{
    let ls = lines(content);
    let ghost all = lines_of(content@);
    let mut block: Option<Vec<String>> = None;
    let n = ls.len();
    let mut i: usize = 0;
    assert(all.subrange(0, n as int) == all);
    while i < n
        invariant
            i <= n == ls@.len() == all.len(),
            all == lines_of(content@),
            forall|k: int| 0 <= k < ls@.len() ==> #[trigger] ls@[k]@ == all[k],
            user_scan(all, None, host@) == user_scan(
                all.subrange(i as int, n as int),
                match block {
                    Some(b) => Some(views(b@)),
                    None => None,
                },
                host@,
            ),
        decreases n - i,
    {
        let ghost rest = all.subrange(i as int, n as int);
        assert(rest[0] == ls@[i as int]@);
        assert(rest.drop_first() == all.subrange(i as int + 1, n as int));
        let v = to_chars(ls[i].as_str());
        let (a, b) = trim_bounds(&v);
        let t = sub_range(&v, a, b);
        if t.len() == 0 || t[0] == '#' {
            i = i + 1;
            continue;
        }
        let w = find_ws_from(&t, 0);
        proof {
            lemma_first_ws(t@);
            crate::text::lemma_first_ws_unique(t@, w as int);
        }
        if w == t.len() {
            i = i + 1;
            continue;
        }
        let kw = slice_string(&t, 0, w);
        let val = slice_string(&t, w + 1, t.len());
        if str_eq(kw.as_str(), "Host") {
            block = Some(split_words(val.as_str()));
            proof {
                let bb = block.unwrap();
                assert(views(bb@) == words(val@));
            }
            i = i + 1;
            continue;
        }
        if str_eq(kw.as_str(), "User") {
            let hit = match &block {
                Some(names) => names_contain(names, host),
                None => false,
            };
            if hit {
                proof {
                    assert(t@ == trim(rest[0]));
                    assert(first_ws(t@) == Some(w as int));
                    assert(kw@ == t@.subrange(0, w as int));
                    assert(val@ == t@.subrange(w + 1, t@.len() as int));
                    assert(kw@ != "Host"@);
                    assert(kw@ == "User"@);
                    assert(block is Some);
                    assert(views(block.unwrap()@).contains(host@));
                    assert(rest.len() > 0);
                    assert(t@.len() > 0 && t@[0] != '#');
                    assert(user_scan(rest, Some(views(block.unwrap()@)), host@) == Some(trim(val@)));
                }
                let res = trim_str(val.as_str());
                return Some(res);
            }
        }
        i = i + 1;
    }
    None
}

fn sub_range(v: &Vec<char>, lo: usize, hi: usize) -> (r: Vec<char>)
    requires
        lo <= hi <= v@.len(),
    ensures
        r@ == v@.subrange(lo as int, hi as int),
{
    crate::text::sub_chars(v, lo, hi)
}

// ---------------------------------------------------------------------------
// `ssh -G`
// ---------------------------------------------------------------------------

/// Settings gathered from `ssh -G` output: (user, hostname, port, proxyjump).
pub type GSettings = (Option<Seq<char>>, Option<Seq<char>>, u16, Option<Seq<char>>);

/// The effect of one `ssh -G` output line (`key value`).
pub open spec fn g_step(st: GSettings, line: Seq<char>) -> GSettings {
    match first_index_of(line, ' ') {
        None => st,
        Some(i) => {
            let k = line.subrange(0, i);
            let v = trim(line.subrange(i + 1, line.len() as int));
            if k == "user"@ {
                if st.0 is None && v.len() > 0 {
                    (Some(v), st.1, st.2, st.3)
                } else {
                    st
                }
            } else if k == "hostname"@ && v.len() > 0 {
                (st.0, Some(v), st.2, st.3)
            } else if k == "port"@ {
                match parse_u16(v) {
                    Some(p) => (st.0, st.1, p, st.3),
                    None => st,
                }
            } else if k == "proxyjump"@ && v.len() > 0 && v != "none"@ {
                (st.0, st.1, st.2, Some(v))
            } else {
                st
            }
        },
    }
}

/// Settings after all lines, starting from no user/hostname/jump and port 22.
pub open spec fn g_settings(lines: Seq<Seq<char>>) -> GSettings
    decreases lines.len(),
{
    if lines.len() == 0 {
        (None, None, 22u16, None)
    } else {
        g_step(g_settings(lines.drop_last()), lines.last())
    }
}

/// The alias of a target: the part after its last `@`.
pub open spec fn target_alias(host: Seq<char>) -> Seq<char> {
    match last_index_of(host, '@') {
        Some(at) => host.subrange(at + 1, host.len() as int),
        None => host,
    }
}

/// The concrete target an alias maps to: only when `ssh -G` printed a
/// non-empty `hostname` different from the alias itself (the part of the
/// target after its last `@`), i.e. when configuration names an explicit
/// `HostName`; otherwise only DNS can resolve it. An explicit `user@` on the
/// target beats the configured `User`.
pub open spec fn g_target(host: Seq<char>, st: GSettings) -> Option<(Seq<char>, Seq<char>, u16, Option<Seq<char>>)> {
    match st.1 {
        Some(hn) => if hn.len() > 0 && hn != target_alias(host) {
            let user = match last_index_of(host, '@') {
                Some(at) => host.subrange(0, at),
                None => match st.0 {
                    Some(u) => u,
                    None => Seq::empty(),
                },
            };
            Some((user, hn, st.2, st.3))
        } else {
            None
        },
        None => None,
    }
}

/// The value of an `ssh -G` line with key `key` (`key value`), trimmed.
pub open spec fn g_value(line: Seq<char>, key: Seq<char>) -> Option<Seq<char>> {
    match first_index_of(line, ' ') {
        Some(i) => if line.subrange(0, i) == key {
            Some(trim(line.subrange(i + 1, line.len() as int)))
        } else {
            None
        },
        None => None,
    }
}

/// Every setting gathered comes from a line of the output with its key: a
/// non-empty user and hostname, a port that parses (22 when none does), a
/// jump host other than `none`.
proof fn lemma_g_settings_sources(ls: Seq<Seq<char>>)
    ensures
        ({
            let st = g_settings(ls);
            &&& st.0 matches Some(u) ==> u.len() > 0 && exists|i: int|
                0 <= i < ls.len() && #[trigger] g_value(ls[i], "user"@) == Some(u)
            &&& st.1 matches Some(h) ==> h.len() > 0 && exists|i: int|
                0 <= i < ls.len() && #[trigger] g_value(ls[i], "hostname"@) == Some(h)
            &&& st.2 == 22 || exists|i: int|
                0 <= i < ls.len() && (#[trigger] g_value(ls[i], "port"@) matches Some(v) && parse_u16(v)
                    == Some(st.2))
            &&& st.3 matches Some(j) ==> j.len() > 0 && j != "none"@ && exists|i: int|
                0 <= i < ls.len() && #[trigger] g_value(ls[i], "proxyjump"@) == Some(j)
        }),
    decreases ls.len(),
{
    if ls.len() > 0 {
        let init = ls.drop_last();
        lemma_g_settings_sources(init);
        let n = ls.len() - 1;
        assert(ls[n] == ls.last());
        assert forall|i: int| 0 <= i < init.len() implies ls[i] == #[trigger] init[i] by {}
        let prev = g_settings(init);
        let st = g_settings(ls);
        if st.0 != prev.0 {
            assert(g_value(ls[n], "user"@) == st.0);
        } else if st.0 is Some {
            let i = choose|i: int| 0 <= i < init.len() && #[trigger] g_value(init[i], "user"@) == prev.0;
            assert(g_value(ls[i], "user"@) == st.0);
        }
        if st.1 != prev.1 {
            assert(g_value(ls[n], "hostname"@) == st.1);
        } else if st.1 is Some {
            let i = choose|i: int| 0 <= i < init.len() && #[trigger] g_value(init[i], "hostname"@) == prev.1;
            assert(g_value(ls[i], "hostname"@) == st.1);
        }
        if st.2 != prev.2 {
            assert(g_value(ls[n], "port"@) matches Some(v) && parse_u16(v) == Some(st.2));
        } else if st.2 != 22 {
            let i = choose|i: int|
                0 <= i < init.len() && (#[trigger] g_value(init[i], "port"@) matches Some(v) && parse_u16(v)
                    == Some(prev.2));
            assert(g_value(ls[i], "port"@) matches Some(v) && parse_u16(v) == Some(st.2));
        }
        if st.3 != prev.3 {
            assert(g_value(ls[n], "proxyjump"@) == st.3);
        } else if st.3 is Some {
            let i = choose|i: int| 0 <= i < init.len() && #[trigger] g_value(init[i], "proxyjump"@) == prev.3;
            assert(g_value(ls[i], "proxyjump"@) == st.3);
        }
    }
}

/// A resolved target is what `ssh -G` printed for the alias: its hostname
/// is a non-empty `hostname` line other than the alias (after the last `@`
/// of the target), its port a `port` line (22 when there is none), its jump
/// host a `proxyjump` line other than `none`; an explicit `user@` on the
/// target is kept as given (user, `@` and alias make up the target), and
/// otherwise the user is a `user` line or empty.
pub proof fn law_resolved_target(host: Seq<char>, out: Seq<char>)
    ensures
        g_target(host, g_settings(lines_of(out))) matches Some(t) ==> {
            let ls = lines_of(out);
            &&& t.1.len() > 0 && t.1 != target_alias(host)
            &&& exists|i: int| 0 <= i < ls.len() && #[trigger] g_value(ls[i], "hostname"@) == Some(t.1)
            &&& t.2 == 22 || exists|i: int|
                0 <= i < ls.len() && (#[trigger] g_value(ls[i], "port"@) matches Some(v) && parse_u16(v)
                    == Some(t.2))
            &&& t.3 matches Some(j) ==> j != "none"@ && exists|i: int|
                0 <= i < ls.len() && #[trigger] g_value(ls[i], "proxyjump"@) == Some(j)
            &&& host.contains('@') ==> t.0 + "@"@ + target_alias(host) == host
            &&& !host.contains('@') ==> (t.0.len() == 0 || exists|i: int|
                0 <= i < ls.len() && #[trigger] g_value(ls[i], "user"@) == Some(t.0))
        },
{
    let ls = lines_of(out);
    lemma_g_settings_sources(ls);
    lemma_last_index_of(host, '@');
    if host.contains('@') {
        let at = last_index_of(host, '@')->0;
        reveal_strlit("@");
        assert(host.subrange(0, at) + "@"@ + host.subrange(at + 1, host.len() as int) =~= host);
    }
}

/// A concrete SSH target derived from configuration.
pub struct ConfigTarget {
    pub user: String,
    pub hostname: String,
    pub port: u16,
    pub jump: Option<String>,
}

/// The view of a [`ConfigTarget`].
pub open spec fn target_view(t: ConfigTarget) -> (Seq<char>, Seq<char>, u16, Option<Seq<char>>) {
    (t.user@, t.hostname@, t.port, opt_view(t.jump))
}

/// Derive the concrete target an alias maps to from the text `ssh -G <host>`
/// printed.
pub fn config_resolve(host: &str, ssh_g_output: &str) -> (r: Option<ConfigTarget>)
    ensures
        match r {
            Some(t) => g_target(host@, g_settings(lines_of(ssh_g_output@))) == Some(target_view(t)),
            None => g_target(host@, g_settings(lines_of(ssh_g_output@))) is None,
        },
{
    let ls = lines(ssh_g_output);
    let ghost all = lines_of(ssh_g_output@);
    let mut user: Option<String> = None;
    let mut hostname: Option<String> = None;
    let mut port: u16 = 22;
    let mut jump: Option<String> = None;
    let mut i: usize = 0;
    while i < ls.len()
        invariant
            i <= ls@.len() == all.len(),
            forall|k: int| 0 <= k < ls@.len() ==> #[trigger] ls@[k]@ == all[k],
            g_settings(all.take(i as int)) == (opt_view(user), opt_view(hostname), port, opt_view(jump)),
        decreases ls@.len() - i,
    {
        let ghost take1 = all.take(i as int + 1);
        assert(take1.drop_last() == all.take(i as int));
        assert(take1.last() == ls@[i as int]@);
        let v = to_chars(ls[i].as_str());
        proof {
            lemma_first_index_of(v@, ' ');
        }
        if let Some(sp) = find_char(&v, ' ') {
            let k = slice_string(&v, 0, sp);
            let raw = slice_string(&v, sp + 1, v.len());
            let val = trim_str(raw.as_str());
            if str_eq(k.as_str(), "user") {
                if user.is_none() && !val.as_str().is_empty() {
                    user = Some(val);
                }
            } else if str_eq(k.as_str(), "hostname") && !val.as_str().is_empty() {
                hostname = Some(val);
            } else if str_eq(k.as_str(), "port") {
                if let Some(p) = parse_u16_str(val.as_str()) {
                    port = p;
                }
            } else if str_eq(k.as_str(), "proxyjump") && !val.as_str().is_empty() && !str_eq(
                val.as_str(),
                "none",
            ) {
                jump = Some(val);
            }
        }
        i = i + 1;
    }
    assert(all.take(all.len() as int) == all);
    let hn = match hostname {
        Some(h) => h,
        None => {
            return None;
        },
    };
    let hv = to_chars(host);
    proof {
        crate::text::lemma_last_index_bounds(hv@, '@');
    }
    let alias = match rfind_char(&hv, '@') {
        Some(at) => slice_string(&hv, at + 1, hv.len()),
        None => host.to_owned(),
    };
    if hn.as_str().is_empty() || str_eq(hn.as_str(), alias.as_str()) {
        return None;
    }
    let u = match rfind_char(&hv, '@') {
        Some(at) => slice_string(&hv, 0, at),
        None => match user {
            Some(u) => u,
            None => String::new(),
        },
    };
    Some(ConfigTarget { user: u, hostname: hn, port, jump })
}

} // verus!
