//! The web API's reading of command arguments and its OAuth callback page.
//!
//! Arguments arrive as a JSON object; numbers keep the text `serde_json`
//! renders them with (plain digits, a leading `-` for negatives, a `.` or an
//! exponent for floats).

use vstd::prelude::*;
use crate::audit::{request_str, str_member};
use crate::json::{get, get_spec, Json};
use crate::text::{concat, parse_i64, parse_i64_str, parse_u64, parse_u64_str, push_ch, push_str};

verus! {

/// `args.get(key).and_then(as_str).unwrap_or_default()`.
pub fn arg_str(args: &Json, key: &str) -> (r: String)
    ensures
        r@ == str_member(*args, key@, ""@),
{
    request_str(args, key, "")
}

/// `Value::as_u64` of an optional member.
pub open spec fn json_u64(v: Option<Json>) -> Option<u64> {
    match v {
        Some(Json::Number(t)) => parse_u64(t@),
        _ => None,
    }
}

/// `Value::as_i64` of an optional member.
pub open spec fn json_i64(v: Option<Json>) -> Option<i64> {
    match v {
        Some(Json::Number(t)) => parse_i64(t@),
        _ => None,
    }
}

/// `args.get(key).and_then(as_u64)`.
pub fn arg_u64(args: &Json, key: &str) -> (r: Option<u64>)
    ensures
        r == json_u64(get_spec(*args, key@)),
{
    match get(args, key) {
        Some(Json::Number(t)) => parse_u64_str(t.as_str()),
        _ => None,
    }
}

/// `args.get(key).and_then(as_u64).map(|v| v as u32)` (keeping the low 32
/// bits, as the cast does).
pub fn arg_u32(args: &Json, key: &str) -> (r: Option<u32>)
    ensures
        r == match json_u64(get_spec(*args, key@)) {
            Some(n) => Some(n as u32),
            None => None,
        },
{
    match arg_u64(args, key) {
        Some(n) => Some(n as u32),
        None => None,
    }
}

/// `args.get(key).and_then(as_i64)`.
pub fn arg_i64(args: &Json, key: &str) -> (r: Option<i64>)
    ensures
        r == json_i64(get_spec(*args, key@)),
{
    match get(args, key) {
        Some(Json::Number(t)) => parse_i64_str(t.as_str()),
        _ => None,
    }
}

/// `args.get(key).and_then(as_bool)`.
pub fn arg_bool(args: &Json, key: &str) -> (r: Option<bool>)
    ensures
        r == match get_spec(*args, key@) {
            Some(Json::Bool(b)) => Some(b),
            _ => None,
        },
{
    match get(args, key) {
        Some(Json::Bool(b)) => Some(*b),
        _ => None,
    }
}

/// A terminal resize: `cols` (80 when absent) and `rows` (24 when absent),
/// each cut to 16 bits as the cast does.
pub fn pty_size(args: &Json) -> (r: (u16, u16))
    ensures
        r.0 == (match json_u64(get_spec(*args, "cols"@)) {
            Some(n) => n,
            None => 80,
        }) as u16,
        r.1 == (match json_u64(get_spec(*args, "rows"@)) {
            Some(n) => n,
            None => 24,
        }) as u16,
{
    let cols = match arg_u64(args, "cols") {
        Some(n) => n,
        None => 80,
    };
    let rows = match arg_u64(args, "rows") {
        Some(n) => n,
        None => 24,
    };
    (cols as u16, rows as u16)
}

/// How many audit rows to list: `limit`, 50 when absent.
pub fn audit_limit(args: &Json) -> (r: i64)
    ensures
        r == match json_i64(get_spec(*args, "limit"@)) {
            Some(n) => n,
            None => 50,
        },
{
    match arg_i64(args, "limit") {
        Some(n) => n,
        None => 50,
    }
}

/// The audit entry whose detail is asked for: the `id` string parsed as an
/// integer, `-1` when it does not parse.
pub fn detail_id(args: &Json) -> (r: i64)
    ensures
        r == match parse_i64(str_member(*args, "id"@, ""@)) {
            Some(n) => n,
            None => -1i64,
        },
{
    let s = arg_str(args, "id");
    match parse_i64_str(s.as_str()) {
        Some(n) => n,
        None => -1,
    }
}

// ---------------------------------------------------------------------------
// OAuth callback page
// ---------------------------------------------------------------------------

/// What one character becomes in HTML text.
pub open spec fn escape_char(c: char) -> Seq<char> {
    if c == '&' {
        "&amp;"@
    } else if c == '<' {
        "&lt;"@
    } else if c == '>' {
        "&gt;"@
    } else {
        seq![c]
    }
}

/// `&`, `<` and `>` replaced by their entities.
pub open spec fn escape_html(s: Seq<char>) -> Seq<char>
    decreases s.len(),
{
    if s.len() == 0 {
        Seq::empty()
    } else {
        escape_html(s.drop_last()) + escape_char(s.last())
    }
}

/// Escaped text holds no `<` or `>`, so it cannot open or close a tag.
pub proof fn law_escaped_text_has_no_tags(s: Seq<char>)
    ensures
        forall|i: int| 0 <= i < escape_html(s).len() ==> #[trigger] escape_html(s)[i] != '<'
            && escape_html(s)[i] != '>',
    decreases s.len(),
{
    reveal_strlit("&amp;");
    reveal_strlit("&lt;");
    reveal_strlit("&gt;");
    if s.len() > 0 {
        law_escaped_text_has_no_tags(s.drop_last());
        let a = escape_html(s.drop_last());
        let b = escape_char(s.last());
        assert(escape_html(s) == a + b);
        assert forall|i: int| 0 <= i < b.len() implies #[trigger] b[i] != '<' && b[i] != '>' by {
            if s.last() == '&' {
                assert(b == "&amp;"@);
            } else if s.last() == '<' {
                assert(b == "&lt;"@);
            } else if s.last() == '>' {
                assert(b == "&gt;"@);
            } else {
                assert(b == seq![s.last()]);
            }
        }
        assert forall|i: int| 0 <= i < escape_html(s).len() implies #[trigger] escape_html(s)[i] != '<'
            && escape_html(s)[i] != '>' by {
            if i < a.len() {
                assert(escape_html(s)[i] == a[i]);
            } else {
                assert(escape_html(s)[i] == b[i - a.len()]);
            }
        }
    }
}

/// Decides [`escape_html`].
pub fn html_escape(s: &str) -> (r: String)
    ensures
        r@ == escape_html(s@),
{
    let v = crate::text::to_chars(s);
    let mut out = String::new();
    let mut i: usize = 0;
    while i < v.len()
        invariant
            i <= v@.len(),
            v@ == s@,
            out@ == escape_html(v@.take(i as int)),
        decreases v@.len() - i,
    {
        let c = v[i];
        if c == '&' {
            push_str(&mut out, "&amp;");
        } else if c == '<' {
            push_str(&mut out, "&lt;");
        } else if c == '>' {
            push_str(&mut out, "&gt;");
        } else {
            push_ch(&mut out, c);
        }
        assert(v@.take(i as int + 1).drop_last() == v@.take(i as int));
        i = i + 1;
    }
    assert(v@.take(v@.len() as int) == v@);
    out
}

/// Why an OAuth callback cannot complete a login, if it cannot: the
/// provider reported an error, or no code came back.
pub open spec fn callback_error_spec(error: Option<Seq<char>>, code: Seq<char>) -> Option<Seq<char>> {
    match error {
        Some(e) => Some("provider returned error: "@ + e),
        None => if code.len() == 0 {
            Some("missing code in OAuth callback"@)
        } else {
            None
        },
    }
}

/// Decides [`callback_error_spec`] from the `error` and `code` query
/// parameters (`code` empty when absent).
pub fn callback_error(error: Option<&str>, code: &str) -> (r: Option<String>)
    ensures
        match callback_error_spec(
            match error {
                Some(e) => Some(e@),
                None => None,
            },
            code@,
        ) {
            Some(m) => r matches Some(s) && s@ == m,
            None => r is None,
        },
{
    match error {
        Some(e) => Some(concat("provider returned error: ", e)),
        None => {
            if code.is_empty() {
                Some("missing code in OAuth callback".to_owned())
            } else {
                None
            }
        },
    }
}

/// The page shown after a successful login.
pub open spec fn success_page() -> Seq<char> {
    "<!doctype html><html><head><meta charset=\"utf-8\"><title>puppetterm</title></head><body style=\"font-family:system-ui,sans-serif;background:#0d1117;color:#e6edf3;text-align:center;padding-top:22vh\"><h2>✅ Login complete</h2><p>You can close this tab and return to puppetterm.</p></body></html>"@
}

/// The page shown after a failed login, with the escaped reason.
pub open spec fn failure_page(reason: Seq<char>) -> Seq<char> {
    "<!doctype html><html><head><meta charset=\"utf-8\"><title>puppetterm</title></head><body style=\"font-family:system-ui,sans-serif;background:#0d1117;color:#e6edf3;text-align:center;padding-top:22vh\"><h2>❌ Login failed</h2><p>"@
        + escape_html(reason) + "</p></body></html>"@
}

/// The HTML page answering the OAuth callback.
pub fn callback_page(outcome: &Result<(), String>) -> (r: String)
    ensures
        r@ == match outcome {
            Ok(_) => success_page(),
            Err(e) => failure_page(e@),
        },
{
    match outcome {
        Ok(_) => "<!doctype html><html><head><meta charset=\"utf-8\"><title>puppetterm</title></head><body style=\"font-family:system-ui,sans-serif;background:#0d1117;color:#e6edf3;text-align:center;padding-top:22vh\"><h2>✅ Login complete</h2><p>You can close this tab and return to puppetterm.</p></body></html>".to_owned(),
        Err(e) => {
            let mut page = "<!doctype html><html><head><meta charset=\"utf-8\"><title>puppetterm</title></head><body style=\"font-family:system-ui,sans-serif;background:#0d1117;color:#e6edf3;text-align:center;padding-top:22vh\"><h2>❌ Login failed</h2><p>".to_owned();
            let safe = html_escape(e.as_str());
            push_str(&mut page, safe.as_str());
            push_str(&mut page, "</p></body></html>");
            page
        },
    }
}

} // verus!
