use puppetterm::ai::{AiConfig, AiOAuthMeta};
use puppetterm::oauth::{
    apply_openrouter_key, apply_refreshed_token, apply_token_response, begin_oauth,
    begin_oauth_with, oauth_exchange_request, oauth_setup_check, pkce_challenge, qenc,
    refresh_request, PendingOAuth, PendingOAuthStore, TokenRequest,
};

fn meta(flow: &str) -> AiOAuthMeta {
    AiOAuthMeta {
        auth_url: "https://auth.example/authorize".to_string(),
        token_url: "https://auth.example/token".to_string(),
        client_id: "client 1".to_string(),
        client_secret: "sec".to_string(),
        scope: "openid email".to_string(),
        redirect_uri: "http://localhost:8080/oauth/callback".to_string(),
        flow: flow.to_string(),
    }
}

fn verifier_bytes() -> Vec<u8> {
    (0u8..48).collect()
}

fn state_bytes() -> Vec<u8> {
    (100u8..124).collect()
}

#[test]
fn percent_encoding() {
    assert_eq!(qenc("a b/c?d=e&f~_-."), "a%20b%2Fc%3Fd%3De%26f~_-.");
    assert_eq!(qenc("é"), "%C3%A9");
}

#[test]
fn pkce_challenge_is_sha256_base64url() {
    let verifier = "AAECAwQFBgcICQoLDA0ODxAREhMUFRYXGBkaGxwdHh8gISIjJCUmJygpKissLS4v";
    assert_eq!(pkce_challenge(verifier), "kLfxiTSrox_ke7yPyjvQYBZ97Vxt2KfwU9deyoPONcI");
}

#[test]
fn standard_login_url_and_pending_entry() {
    let mut store = PendingOAuthStore::new();
    let b = begin_oauth_with(&meta("standard"), &verifier_bytes(), &state_bytes(), &mut store).unwrap();
    assert_eq!(b.state, "ZGVmZ2hpamtsbW5vcHFyc3R1dnd4eXp7");
    assert_eq!(
        b.authorize_url,
        "https://auth.example/authorize?response_type=code&client_id=client%201&redirect_uri=http%3A%2F%2Flocalhost%3A8080%2Foauth%2Fcallback&state=ZGVmZ2hpamtsbW5vcHFyc3R1dnd4eXp7&code_challenge=kLfxiTSrox_ke7yPyjvQYBZ97Vxt2KfwU9deyoPONcI&code_challenge_method=S256&scope=openid%20email"
    );
    assert_eq!(store.len(), 1);
    let p = store.take(&b.state).unwrap();
    assert_eq!(p.verifier, "AAECAwQFBgcICQoLDA0ODxAREhMUFRYXGBkaGxwdHh8gISIjJCUmJygpKissLS4v");
    assert_eq!(p.flow, "standard");
    assert_eq!(store.len(), 0);
    // a state can be taken only once
    assert_eq!(store.take(&b.state).err().unwrap(), "unknown or expired OAuth state");
}

#[test]
fn openrouter_login_url() {
    let mut m = meta(" openrouter ");
    m.client_id = String::new();
    m.auth_url = "https://openrouter.ai/auth?x=1".to_string();
    let mut store = PendingOAuthStore::new();
    let b = begin_oauth_with(&m, &verifier_bytes(), &state_bytes(), &mut store).unwrap();
    assert_eq!(
        b.authorize_url,
        "https://openrouter.ai/auth?x=1&callback_url=http%3A%2F%2Flocalhost%3A8080%2Foauth%2Fcallback&code_challenge=kLfxiTSrox_ke7yPyjvQYBZ97Vxt2KfwU9deyoPONcI&code_challenge_method=S256"
    );
    // OpenRouter does not echo the state: the only pending login is taken
    let p = store.take("").unwrap();
    assert_eq!(p.flow, "openrouter");
}

#[test]
fn google_asks_for_offline_access() {
    let mut m = meta("standard");
    m.auth_url = "https://accounts.google.com/o/oauth2/v2/auth".to_string();
    m.scope = " ".to_string();
    let mut store = PendingOAuthStore::new();
    let b = begin_oauth_with(&m, &verifier_bytes(), &state_bytes(), &mut store).unwrap();
    assert!(b.authorize_url.ends_with("&code_challenge_method=S256&access_type=offline&prompt=consent"));
    assert!(!b.authorize_url.contains("scope="));
}

#[test]
fn setup_errors() {
    let mut m = meta("standard");
    m.client_id = "  ".to_string();
    assert_eq!(
        oauth_setup_check(&m).unwrap(),
        "OAuth not configured: set Auth URL, Token URL and Client ID in AI settings first"
    );
    let mut m = meta("standard");
    m.redirect_uri = String::new();
    assert_eq!(
        oauth_setup_check(&m).unwrap(),
        "OAuth redirect URI is required (use the auto-filled one in settings)"
    );
    let mut store = PendingOAuthStore::new();
    assert!(begin_oauth_with(&m, &verifier_bytes(), &state_bytes(), &mut store).is_err());
    assert_eq!(store.len(), 0);
}

fn cfg() -> AiConfig {
    AiConfig {
        base_url: "https://api.example/v1".to_string(),
        model: "m".to_string(),
        provider: "openai".to_string(),
        api_key: String::new(),
        api_key_enc: None,
        auth_method: "oauth".to_string(),
        oauth: meta("standard"),
        refresh_token: "r-1".to_string(),
        refresh_token_enc: None,
        token_expires_at: None,
    }
}

#[test]
fn begin_with_random_bytes() {
    let mut store = PendingOAuthStore::new();
    let a = begin_oauth(&cfg(), &mut store).unwrap();
    let b = begin_oauth(&cfg(), &mut store).unwrap();
    assert_ne!(a.state, b.state);
    assert_eq!(a.state.len(), 32);
    assert!(a.state.chars().all(|c| c.is_ascii_alphanumeric() || c == '-' || c == '_'));
    assert!(a.authorize_url.contains(&format!("&state={}&code_challenge=", a.state)));
    let ch = a.authorize_url.split("&code_challenge=").nth(1).unwrap().split('&').next().unwrap();
    assert_eq!(ch.len(), 43);
    assert_eq!(store.len(), 2);
    // with two logins in flight an unknown state is refused
    assert!(store.take("nope").is_err());
    assert!(store.take(&a.state).is_ok());
}

fn pending(flow: &str, secret: &str) -> PendingOAuth {
    PendingOAuth {
        verifier: "v".to_string(),
        client_id: "cid".to_string(),
        client_secret: secret.to_string(),
        token_url: "https://auth.example/token".to_string(),
        redirect_uri: "http://cb".to_string(),
        scope: String::new(),
        flow: flow.to_string(),
    }
}

#[test]
fn token_requests() {
    match oauth_exchange_request(&pending("standard", "sec"), "the-code") {
        TokenRequest::Form { url, fields } => {
            assert_eq!(url, "https://auth.example/token");
            assert_eq!(fields.len(), 6);
            assert_eq!(fields[0], ("grant_type".to_string(), "authorization_code".to_string()));
            assert_eq!(fields[1], ("code".to_string(), "the-code".to_string()));
            assert_eq!(fields[2], ("redirect_uri".to_string(), "http://cb".to_string()));
            assert_eq!(fields[3], ("client_id".to_string(), "cid".to_string()));
            assert_eq!(fields[4], ("code_verifier".to_string(), "v".to_string()));
            assert_eq!(fields[5], ("client_secret".to_string(), "sec".to_string()));
        }
        _ => panic!("expected a form"),
    }
    match oauth_exchange_request(&pending("standard", ""), "the-code") {
        TokenRequest::Form { fields, .. } => {
            assert_eq!(fields.len(), 5);
            assert!(fields.iter().all(|(k, _)| k != "client_secret"));
        }
        _ => panic!("expected a form"),
    }
    match oauth_exchange_request(&pending("openrouter", ""), "c") {
        TokenRequest::Json { fields, .. } => {
            assert_eq!(fields[2], ("code_challenge_method".to_string(), "S256".to_string()));
        }
        _ => panic!("expected JSON"),
    }
    match refresh_request(&cfg()).unwrap() {
        TokenRequest::Form { fields, .. } => {
            assert_eq!(fields.len(), 4);
            assert_eq!(fields[0], ("grant_type".to_string(), "refresh_token".to_string()));
            assert_eq!(fields[1], ("refresh_token".to_string(), "r-1".to_string()));
            assert_eq!(fields[3], ("client_secret".to_string(), "sec".to_string()));
        }
        _ => panic!("expected a form"),
    }
}

#[test]
fn token_answers_update_the_config() {
    let c = apply_token_response(cfg(), "at".to_string(), Some("rt".to_string()), Some(3600), 1_000);
    assert_eq!(c.api_key, "at");
    assert_eq!(c.refresh_token, "rt");
    assert_eq!(c.token_expires_at, Some(4_600));
    assert_eq!(c.base_url, "https://api.example/v1");

    let c = apply_refreshed_token(c, "at2".to_string(), Some(String::new()), None, 2_000);
    assert_eq!(c.api_key, "at2");
    assert_eq!(c.refresh_token, "rt");
    assert_eq!(c.token_expires_at, None);

    let c = apply_openrouter_key(cfg(), "sk-or".to_string());
    assert_eq!(c.api_key, "sk-or");
    assert_eq!(c.refresh_token, "");
    assert_eq!(c.auth_method, "oauth");
}

#[test]
fn exchange_posts_the_verifier_behind_the_url_challenge() {
    let mut store = PendingOAuthStore::new();
    let b = begin_oauth_with(&meta("standard"), &verifier_bytes(), &state_bytes(), &mut store).unwrap();
    let p = store.take(&b.state).unwrap();
    match oauth_exchange_request(&p, "c0de") {
        TokenRequest::Form { fields, .. } => {
            assert_eq!(fields[2], ("redirect_uri".to_string(), "http://localhost:8080/oauth/callback".to_string()));
            assert_eq!(fields[3], ("client_id".to_string(), "client 1".to_string()));
            assert_eq!(fields[4].0, "code_verifier");
            let challenge = pkce_challenge(&fields[4].1);
            assert!(b.authorize_url.contains(&format!("&code_challenge={}&code_challenge_method=S256", challenge)));
            assert_eq!(fields[5], ("client_secret".to_string(), "sec".to_string()));
        }
        _ => panic!("expected a form"),
    }
}
