use puppetterm::json::Json;
use puppetterm::web::{
    arg_bool, arg_i64, arg_str, arg_u32, arg_u64, audit_limit, callback_error, callback_page,
    detail_id, html_escape, pty_size,
};

fn args(members: Vec<(&str, Json)>) -> Json {
    Json::Object(members.into_iter().map(|(k, v)| (k.to_string(), v)).collect())
}

fn num(t: &str) -> Json {
    Json::Number(t.to_string())
}

#[test]
fn reading_arguments() {
    let a = args(vec![
        ("host", Json::Str("web".to_string())),
        ("id", num("7")),
        ("big", num("4294967301")),
        ("neg", num("-3")),
        ("f", num("2.5")),
        ("force", Json::Bool(true)),
    ]);
    assert_eq!(arg_str(&a, "host"), "web");
    assert_eq!(arg_str(&a, "id"), "");
    assert_eq!(arg_str(&a, "missing"), "");
    assert_eq!(arg_u64(&a, "id"), Some(7));
    assert_eq!(arg_u32(&a, "id"), Some(7));
    assert_eq!(arg_u32(&a, "big"), Some(5));
    assert_eq!(arg_u64(&a, "neg"), None);
    assert_eq!(arg_u64(&a, "f"), None);
    assert_eq!(arg_i64(&a, "neg"), Some(-3));
    assert_eq!(arg_i64(&a, "f"), None);
    assert_eq!(arg_bool(&a, "force"), Some(true));
    assert_eq!(arg_bool(&a, "host"), None);
    assert_eq!(arg_str(&Json::Null, "host"), "");
}

#[test]
fn terminal_size_defaults() {
    assert_eq!(pty_size(&Json::Null), (80, 24));
    assert_eq!(pty_size(&args(vec![("cols", num("120")), ("rows", num("40"))])), (120, 40));
    assert_eq!(pty_size(&args(vec![("cols", num("65537"))])), (1, 24));
}

#[test]
fn audit_arguments() {
    assert_eq!(audit_limit(&Json::Null), 50);
    assert_eq!(audit_limit(&args(vec![("limit", num("5"))])), 5);
    assert_eq!(detail_id(&args(vec![("id", Json::Str("42".to_string()))])), 42);
    assert_eq!(detail_id(&args(vec![("id", Json::Str("+42".to_string()))])), 42);
    assert_eq!(detail_id(&args(vec![("id", Json::Str("-9223372036854775808".to_string()))])), i64::MIN);
    assert_eq!(detail_id(&args(vec![("id", Json::Str("9223372036854775808".to_string()))])), -1);
    assert_eq!(detail_id(&args(vec![("id", num("42"))])), -1);
    assert_eq!(detail_id(&args(vec![("id", Json::Str("4 2".to_string()))])), -1);
}

#[test]
fn callback_outcomes() {
    assert_eq!(callback_error(Some("access_denied"), "c").unwrap(), "provider returned error: access_denied");
    assert_eq!(callback_error(None, "").unwrap(), "missing code in OAuth callback");
    assert!(callback_error(None, "abc").is_none());
}

#[test]
fn callback_pages_escape_the_reason() {
    assert_eq!(html_escape("<b>&\"x\"</b>"), "&lt;b&gt;&amp;\"x\"&lt;/b&gt;");
    let ok = callback_page(&Ok(()));
    assert!(ok.contains("<h2>✅ Login complete</h2>"));
    let bad = callback_page(&Err("bad <token>".to_string()));
    assert!(bad.contains("<h2>❌ Login failed</h2><p>bad &lt;token&gt;</p></body></html>"));
}
