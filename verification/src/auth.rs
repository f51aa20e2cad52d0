//! Optional HTTP basic auth over the whole web app: parsing the configured
//! `user:pass`, comparing credentials without an early exit, and deciding
//! whether a request may pass.

use vstd::prelude::*;
use vstd::utf8::encode_utf8;
use crate::crypto::{b64_std_decode, b64_std_decoded};
use crate::text::{
    concat, find_char, first_index_of, slice_string, starts_with, starts_with_chars, str_eq,
    to_chars, trim, trim_bounds, trim_str,
};

verus! {

/// The configured basic-auth credentials.
pub struct Credentials {
    pub user: String,
    pub pass: String,
}

/// `PUPPETTERM_BASIC_AUTH`: the trimmed value split at its first `:`; no value,
/// a blank value or one without a colon configures nothing.
pub open spec fn credentials_of(raw: Option<Seq<char>>) -> Option<(Seq<char>, Seq<char>)> {
    match raw {
        None => None,
        Some(r) => {
            let t = trim(r);
            if t.len() == 0 {
                None
            } else {
                match first_index_of(t, ':') {
                    Some(i) => Some((t.subrange(0, i), t.subrange(i + 1, t.len() as int))),
                    None => None,
                }
            }
        },
    }
}

/// Credentials from the raw value of `PUPPETTERM_BASIC_AUTH` (`None` when the
/// variable is unset).
pub fn configured(raw: Option<&str>) -> (r: Option<Credentials>)
    ensures
        match credentials_of(opt_str(raw)) {
            Some((u, p)) => r matches Some(c) && c.user@ == u && c.pass@ == p,
            None => r is None,
        },
{
    match raw {
        None => None,
        Some(s) => {
            let v = to_chars(s);
            let (a, b) = trim_bounds(&v);
            if a == b {
                return None;
            }
            let t = crate::text::sub_chars(&v, a, b);
            match find_char(&t, ':') {
                Some(i) => {
                    proof {
                        crate::text::lemma_first_index_of(t@, ':');
                    }
                    let user = slice_string(&t, 0, i);
                    let pass = slice_string(&t, i + 1, t.len());
                    Some(Credentials { user, pass })
                },
                None => None,
            }
        },
    }
}

/// The view of an optional string slice.
pub open spec fn opt_str(o: Option<&str>) -> Option<Seq<char>> {
    match o {
        Some(s) => Some(s@),
        None => None,
    }
}

/// Compare two byte strings without stopping at the first differing byte:
/// true exactly when they are equal.
pub fn matches(a: &[u8], b: &[u8]) -> (r: bool)
    ensures
        r == (a@ == b@),
{
    if a.len() != b.len() {
        return false;
    }
    let mut diff: u8 = 0;
    let mut i: usize = 0;
    while i < a.len()
        invariant
            a@.len() == b@.len(),
            i <= a@.len(),
            (diff == 0) == (forall|j: int| 0 <= j < i ==> a@[j] == b@[j]),
        decreases a@.len() - i,
    {
        let x = a[i];
        let y = b[i];
        let d = diff | (x ^ y);
        assert((d == 0) == (diff == 0 && x == y)) by (bit_vector)
            requires
                d == diff | (x ^ y),
        ;
        diff = d;
        i = i + 1;
    }
    if diff == 0 {
        assert(a@ =~= b@);
    }
    diff == 0
}

/// The path the OAuth provider redirects to; it carries no credentials.
pub open spec fn callback_path() -> Seq<char> {
    "/oauth/callback"@
}

/// `user:pass` as the bytes a browser base64-encodes.
pub open spec fn expected_token(c: Credentials) -> Seq<u8> {
    encode_utf8(c.user@ + ":"@ + c.pass@)
}

/// Whether an `Authorization` header value carries the configured credentials:
/// `Basic <base64>` whose trimmed base64 decodes to exactly `user:pass`.
pub open spec fn header_grants(header: Seq<char>, c: Credentials) -> bool {
    starts_with(header, "Basic "@) && match b64_std_decoded(trim(header.subrange(6, header.len() as int))) {
        Ok(d) => d == expected_token(c),
        Err(_) => false,
    }
}

/// Whether a request passes basic auth: the OAuth callback always does, any
/// other path only with an `Authorization` header that grants the
/// credentials. `header` is the header value as text (`None` when absent or
/// not visible ASCII).
pub fn request_authorized(path: &str, header: Option<&str>, creds: &Credentials) -> (r: bool)
    ensures
        r == (path@ == callback_path() || match header {
            Some(h) => header_grants(h@, *creds),
            None => false,
        }),
{
    proof {
        reveal_strlit("/oauth/callback");
        reveal_strlit("Basic ");
        reveal_strlit(":");
    }
    if str_eq(path, "/oauth/callback") {
        return true;
    }
    match header {
        None => false,
        Some(h) => {
            let v = to_chars(h);
            let prefix = to_chars("Basic ");
            if !starts_with_chars(&v, &prefix) {
                return false;
            }
            let rest = slice_string(&v, 6, v.len());
            let b = trim_str(rest.as_str());
            match b64_std_decode(b.as_str()) {
                Ok(decoded) => {
                    let with_colon = concat(creds.user.as_str(), ":");
                    let expected = concat(with_colon.as_str(), creds.pass.as_str());
                    matches(decoded.as_slice(), expected.as_str().as_bytes())
                },
                Err(_) => false,
            }
        },
    }
}

/// Configured credentials are the trimmed value split at its first colon:
/// user, `:` and password give the value back, and the user holds no colon
/// (the password may). A value with no colon configures nothing.
pub proof fn law_credentials_split(raw: Seq<char>)
    ensures
        credentials_of(Some(raw)) matches Some(up) ==> up.0 + ":"@ + up.1 == trim(raw) && !up.0.contains(
            ':',
        ),
        !trim(raw).contains(':') ==> credentials_of(Some(raw)) is None,
        credentials_of(None) is None,
{
    let t = trim(raw);
    crate::text::lemma_first_index_of(t, ':');
    reveal_strlit(":");
    if let Some(i) = first_index_of(t, ':') {
        if t.len() > 0 {
            assert(t.subrange(0, i) + ":"@ + t.subrange(i + 1, t.len() as int) =~= t);
            assert forall|k: int| 0 <= k < i implies t.subrange(0, i)[k] != ':' by {}
        }
    }
    if !t.contains(':') {
        if let Some(i) = first_index_of(t, ':') {
            assert(t[i] == ':');
        }
    }
}

} // verus!
