use puppetterm::auth::{configured, request_authorized, Credentials};

#[test]
fn constant_time_match() {
    assert!(puppetterm::auth::matches(b"abc", b"abc"));
    assert!(!puppetterm::auth::matches(b"abc", b"abd"));
    assert!(!puppetterm::auth::matches(b"abc", b"abcd"));
    assert!(puppetterm::auth::matches(b"", b""));
}

#[test]
fn parses_config() {
    let c = configured(Some("admin:s3cret")).unwrap();
    assert_eq!(c.user, "admin");
    assert_eq!(c.pass, "s3cret");

    assert!(configured(Some("")).is_none());
    assert!(configured(None).is_none());

    // no colon → not valid basic auth config
    assert!(configured(Some("justatoken")).is_none());
}

#[test]
fn credentials_are_trimmed_and_split_at_the_first_colon() {
    let c = configured(Some("  ops:pa:ss \n")).unwrap();
    assert_eq!(c.user, "ops");
    assert_eq!(c.pass, "pa:ss");
    assert!(configured(Some("   ")).is_none());
    let c = configured(Some(":only-pass")).unwrap();
    assert_eq!(c.user, "");
    assert_eq!(c.pass, "only-pass");
}

fn admin() -> Credentials {
    Credentials { user: "admin".to_string(), pass: "s3cret".to_string() }
}

#[test]
fn basic_header_with_the_credentials_passes() {
    // base64("admin:s3cret")
    assert!(request_authorized("/api/health", Some("Basic YWRtaW46czNjcmV0"), &admin()));
    assert!(request_authorized("/ws", Some("Basic  YWRtaW46czNjcmV0  "), &admin()));
}

#[test]
fn wrong_or_missing_credentials_are_refused() {
    // base64("admin:wrong")
    assert!(!request_authorized("/api/x", Some("Basic YWRtaW46d3Jvbmc="), &admin()));
    assert!(!request_authorized("/api/x", None, &admin()));
    assert!(!request_authorized("/api/x", Some("Bearer YWRtaW46czNjcmV0"), &admin()));
    assert!(!request_authorized("/api/x", Some("Basic not base64!"), &admin()));
    // the raw token (not base64) is not accepted
    assert!(!request_authorized("/api/x", Some("Basic admin:s3cret"), &admin()));
}

#[test]
fn oauth_callback_is_exempt() {
    assert!(request_authorized("/oauth/callback", None, &admin()));
    assert!(!request_authorized("/oauth/callback/", None, &admin()));
}
