//! Unix path composition over plain strings.

use vstd::prelude::*;
use crate::text::{concat, from_chars, push_ch, push_str, to_chars};

verus! {

/// `Path::join` on Unix: an absolute component replaces the base; otherwise a
/// `/` is inserted unless the base is empty or already ends with one.
pub open spec fn path_join(base: Seq<char>, comp: Seq<char>) -> Seq<char> {
    if comp.len() > 0 && comp[0] == '/' {
        comp
    } else if base.len() == 0 || base.last() == '/' {
        base + comp
    } else {
        base + seq!['/'] + comp
    }
}

/// Decides [`path_join`].
pub fn join(base: &str, comp: &str) -> (r: String)
    ensures
        r@ == path_join(base@, comp@),
{
    let b = to_chars(base);
    let c = to_chars(comp);
    if c.len() > 0 && c[0] == '/' {
        from_chars(c.as_slice())
    } else if b.len() == 0 || b[b.len() - 1] == '/' {
        concat(base, comp)
    } else {
        let mut s = from_chars(b.as_slice());
        push_ch(&mut s, '/');
        push_str(&mut s, comp);
        s
    }
}

/// The name for what `Path::parent` returns for a path given as text.
pub uninterp spec fn path_parent(p: Seq<char>) -> Option<Seq<char>>;

/// `Path::parent`. Trusted: the result is [`path_parent`] of the input; the
/// component rules of `std::path` are not restated here.
#[verifier::external_body]
pub(crate) fn parent(p: &str) -> (r: Option<String>)
    ensures
        match r {
            Some(q) => path_parent(p@) == Some(q@),
            None => path_parent(p@) is None,
        },
{
    std::path::Path::new(p).parent().map(|q| q.to_string_lossy().into_owned())
}

/// `$HOME/.config/puppetterm/<file>`, with `.` for a missing home (the layout
/// shared by the AI config, the audit log and the chat history).
pub open spec fn config_file(home: Option<Seq<char>>, file: Seq<char>) -> Seq<char> {
    let h = match home {
        Some(h) => h,
        None => "."@,
    };
    path_join(path_join(path_join(h, ".config"@), "puppetterm"@), file)
}

/// The file to use: an explicit override wins, else [`config_file`].
pub open spec fn override_or_config_file(
    over: Option<Seq<char>>,
    home: Option<Seq<char>>,
    file: Seq<char>,
) -> Seq<char> {
    match over {
        Some(p) => p,
        None => config_file(home, file),
    }
}

/// Decides [`override_or_config_file`].
pub fn config_file_path(over: Option<&str>, home: Option<&str>, file: &str) -> (r: String)
    ensures
        r@ == override_or_config_file(
            match over {
                Some(p) => Some(p@),
                None => None,
            },
            match home {
                Some(h) => Some(h@),
                None => None,
            },
            file@,
        ),
{
    match over {
        Some(p) => p.to_owned(),
        None => {
            let h: &str = match home {
                Some(h) => h,
                None => ".",
            };
            let a = join(h, ".config");
            let b = join(a.as_str(), "puppetterm");
            join(b.as_str(), file)
        },
    }
}

} // verus!
